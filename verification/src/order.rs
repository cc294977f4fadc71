//! Ordering of entries by modification time, ascending (oldest first), and
//! the retention split: the `keep_count` most recently modified entries are
//! kept, everything earlier in the sorted sequence is the rotate set.
//!
//! An entry whose modification time could not be read is ordered before every
//! other entry, so that it is a rotation candidate rather than being retained
//! indefinitely.

use vstd::prelude::*;
use vstd::multiset::Multiset;
use crate::model::RotireFile;

verus! {

/// The ordering used for the retention split: `a` comes no later than `b`.
/// An entry without a usable modification time is treated as older than
/// every other entry; otherwise the times decide.
pub open spec fn entry_le(a: RotireFile, b: RotireFile) -> bool {
    if a.modified_unavailable {
        true
    } else if b.modified_unavailable {
        false
    } else {
        a.modified_at <= b.modified_at
    }
}

/// `entry_le` is total: of any two entries, one comes no later than the other.
pub proof fn lemma_entry_le_total(a: RotireFile, b: RotireFile)
    ensures
        entry_le(a, b) || entry_le(b, a),
{
}

/// Whether a sequence is sorted ascending under `entry_le`: every earlier
/// entry comes no later than every later one.
pub open spec fn sorted_asc(s: Seq<RotireFile>) -> bool {
    forall|i: int, j: int| 0 <= i < j < s.len() ==> entry_le(#[trigger] s[i], #[trigger] s[j])
}

/// `e` placed into an already sorted sequence, after every entry that comes
/// no later than it, so that entries with equal times keep their scan order.
pub open spec fn insert_ordered(s: Seq<RotireFile>, e: RotireFile) -> Seq<RotireFile>
    decreases s.len(),
{
    if s.len() == 0 {
        seq![e]
    } else if entry_le(s.last(), e) {
        s.push(e)
    } else {
        insert_ordered(s.drop_last(), e).push(s.last())
    }
}

/// The entries sorted ascending by modification time. Built by inserting each
/// entry in scan order, so the sort is stable: entries with equal times stay
/// in the order the scan produced.
pub open spec fn sort_by_modified(s: Seq<RotireFile>) -> Seq<RotireFile>
    decreases s.len(),
{
    if s.len() == 0 {
        Seq::empty()
    } else {
        insert_ordered(sort_by_modified(s.drop_last()), s.last())
    }
}

proof fn lemma_insert_ordered_len(s: Seq<RotireFile>, e: RotireFile)
    ensures
        insert_ordered(s, e).len() == s.len() + 1,
    decreases s.len(),
{
    if s.len() != 0 && !entry_le(s.last(), e) {
        lemma_insert_ordered_len(s.drop_last(), e);
    }
}

proof fn lemma_insert_ordered_multiset(s: Seq<RotireFile>, e: RotireFile)
    ensures
        insert_ordered(s, e).to_multiset() == s.to_multiset().insert(e),
    decreases s.len(),
{
    broadcast use vstd::seq_lib::group_to_multiset_ensures;

    if s.len() == 0 {
        assert(seq![e] =~= Seq::<RotireFile>::empty().push(e));
        assert(Seq::<RotireFile>::empty().push(e).to_multiset() =~= Multiset::empty().insert(e));
    } else if entry_le(s.last(), e) {
    } else {
        lemma_insert_ordered_multiset(s.drop_last(), e);
        assert(s =~= s.drop_last().push(s.last()));
        assert(s.to_multiset() =~= s.drop_last().to_multiset().insert(s.last()));
        assert(insert_ordered(s.drop_last(), e).push(s.last()).to_multiset() =~= insert_ordered(
            s.drop_last(),
            e,
        ).to_multiset().insert(s.last()));
        assert(insert_ordered(s, e).to_multiset() =~= s.drop_last().to_multiset().insert(e).insert(
            s.last(),
        ));
        assert(s.drop_last().to_multiset().insert(e).insert(s.last()) =~= s.drop_last().to_multiset().insert(
            s.last(),
        ).insert(e));
    }
}

proof fn lemma_insert_ordered_sorted(s: Seq<RotireFile>, e: RotireFile)
    requires
        sorted_asc(s),
    ensures
        sorted_asc(insert_ordered(s, e)),
    decreases s.len(),
{
    lemma_insert_ordered_len(s, e);
    if s.len() == 0 {
    } else if entry_le(s.last(), e) {
        assert forall|i: int, j: int|
            0 <= i < j < s.push(e).len() implies entry_le(
            #[trigger] s.push(e)[i],
            #[trigger] s.push(e)[j],
        ) by {
            if j < s.len() {
            } else {
                if i < s.len() - 1 {
                    assert(entry_le(s[i], s[s.len() - 1]));
                }
            }
        }
    } else {
        let t = insert_ordered(s.drop_last(), e);
        assert(sorted_asc(s.drop_last())) by {
            assert forall|i: int, j: int|
                0 <= i < j < s.drop_last().len() implies entry_le(
                #[trigger] s.drop_last()[i],
                #[trigger] s.drop_last()[j],
            ) by {
                assert(entry_le(s[i], s[j]));
            }
        }
        lemma_insert_ordered_sorted(s.drop_last(), e);
        lemma_insert_ordered_len(s.drop_last(), e);
        // every entry of t comes no later than s.last(): t holds the entries
        // of s.drop_last(), which precede s.last() in s, together with e,
        // and e precedes s.last() because entry_le is total.
        lemma_insert_ordered_elements(s.drop_last(), e);
        assert forall|i: int, j: int|
            0 <= i < j < t.push(s.last()).len() implies entry_le(
            #[trigger] t.push(s.last())[i],
            #[trigger] t.push(s.last())[j],
        ) by {
            if j < t.len() {
            } else {
                let x = t[i];
                assert(t.to_multiset().contains(x)) by {
                    broadcast use vstd::seq_lib::group_to_multiset_ensures;

                    assert(t.contains(x));
                }
                if x == e {
                    lemma_entry_le_total(s.last(), e);
                } else {
                    assert(s.drop_last().to_multiset().contains(x)) by {
                        lemma_insert_ordered_multiset(s.drop_last(), e);
                    }
                    assert(s.drop_last().contains(x)) by {
                        broadcast use vstd::seq_lib::group_to_multiset_ensures;

                    }
                    let k = choose|k: int|
                        0 <= k < s.drop_last().len() && s.drop_last()[k] == x;
                    assert(s[k] == x);
                    assert(entry_le(s[k], s[s.len() - 1]));
                }
            }
        }
    }
}

proof fn lemma_insert_ordered_elements(s: Seq<RotireFile>, e: RotireFile)
    ensures
        forall|i: int|
            0 <= i < insert_ordered(s, e).len() ==> #[trigger] insert_ordered(s, e)[i] == e
                || s.contains(insert_ordered(s, e)[i]),
    decreases s.len(),
{
    if s.len() == 0 {
    } else if entry_le(s.last(), e) {
        assert forall|i: int| 0 <= i < s.push(e).len() implies #[trigger] s.push(e)[i] == e
            || s.contains(s.push(e)[i]) by {
            if i < s.len() {
                assert(s[i] == s.push(e)[i]);
            }
        }
    } else {
        lemma_insert_ordered_elements(s.drop_last(), e);
        let t = insert_ordered(s.drop_last(), e);
        assert forall|i: int| 0 <= i < t.push(s.last()).len() implies #[trigger] t.push(s.last())[i]
            == e || s.contains(t.push(s.last())[i]) by {
            if i < t.len() {
                let x = t[i];
                if x != e {
                    let k = choose|k: int|
                        0 <= k < s.drop_last().len() && s.drop_last()[k] == x;
                    assert(s[k] == x);
                }
            } else {
                assert(s[s.len() - 1] == s.last());
            }
        }
    }
}

/// Sorting keeps the length.
pub proof fn lemma_sort_len(s: Seq<RotireFile>)
    ensures
        sort_by_modified(s).len() == s.len(),
    decreases s.len(),
{
    if s.len() != 0 {
        lemma_sort_len(s.drop_last());
        lemma_insert_ordered_len(sort_by_modified(s.drop_last()), s.last());
    }
}

/// The sorted sequence is a permutation of the input: it holds exactly the
/// same entries, each as often as the input does.
pub proof fn lemma_sort_permutes(s: Seq<RotireFile>)
    ensures
        sort_by_modified(s).to_multiset() == s.to_multiset(),
    decreases s.len(),
{
    broadcast use vstd::seq_lib::group_to_multiset_ensures;

    if s.len() == 0 {
        assert(sort_by_modified(s) =~= s);
    } else {
        lemma_sort_permutes(s.drop_last());
        lemma_insert_ordered_multiset(sort_by_modified(s.drop_last()), s.last());
        assert(s =~= s.drop_last().push(s.last()));
        assert(s.to_multiset() =~= s.drop_last().to_multiset().insert(s.last()));
    }
}

/// The sorted sequence is sorted: of any two entries, the earlier one's
/// modification time is no later than the later one's, or the earlier one
/// has no usable modification time at all.
pub proof fn lemma_sort_sorted(s: Seq<RotireFile>)
    ensures
        sorted_asc(sort_by_modified(s)),
    decreases s.len(),
{
    if s.len() != 0 {
        lemma_sort_sorted(s.drop_last());
        lemma_insert_ordered_sorted(sort_by_modified(s.drop_last()), s.last());
    }
}

/// Sorting is monotonic: of any two entries in the sorted sequence, the
/// earlier one's modification time is no later than the later one's, unless
/// the earlier one has no usable modification time at all.
pub proof fn lemma_sorted_monotonic(s: Seq<RotireFile>, i: int, j: int)
    requires
        0 <= i < j < sort_by_modified(s).len(),
    ensures
        sort_by_modified(s)[i].modified_unavailable || sort_by_modified(s)[i].modified_at
            <= sort_by_modified(s)[j].modified_at,
{
    lemma_sort_sorted(s);
}

/// Whether `b` is an exec-mode decision of `entry_le`.
pub fn entry_le_exec(a: &RotireFile, b: &RotireFile) -> (r: bool)
    ensures
        r == entry_le(*a, *b),
{
    if a.modified_unavailable {
        true
    } else if b.modified_unavailable {
        false
    } else {
        a.modified_at <= b.modified_at
    }
}

/// Sorts the entries ascending by modification time, stably: the result is
/// exactly `sort_by_modified` of the input.
pub fn sort_entries(entries: &mut Vec<RotireFile>)
    ensures
        final(entries)@ == sort_by_modified(old(entries)@),
{
    let ghost orig = entries@;
    let mut i: usize = 0;
    while i < entries.len()
        invariant
            i <= entries@.len(),
            entries@.len() == orig.len(),
            entries@ == sort_by_modified(orig.take(i as int)) + orig.skip(i as int),
            sorted_asc(sort_by_modified(orig.take(i as int))),
            sort_by_modified(orig.take(i as int)).len() == i,
        decreases entries@.len() - i,
    {
        let ghost sorted_part = sort_by_modified(orig.take(i as int));
        let e = entries.remove(i);
        proof {
            assert(orig.skip(i as int)[0] == orig[i as int]);
            assert(e == orig[i as int]);
            assert(entries@ =~= sorted_part + orig.skip(i + 1));
        }
        // scan left from the end of the sorted prefix for the insertion point
        let mut j: usize = i;
        while j > 0 && !entry_le_exec(&entries[j - 1], &e)
            invariant
                j <= i,
                i <= entries@.len(),
                entries@ == sorted_part + orig.skip(i + 1),
                sorted_part.len() == i,
                forall|k: int| j <= k < i ==> !entry_le(#[trigger] sorted_part[k], e),
            decreases j,
        {
            j = j - 1;
        }
        entries.insert(j, e);
        proof {
            lemma_insert_ordered_at(sorted_part, e, j as int);
            assert(entries@ =~= insert_ordered(sorted_part, e) + orig.skip(i + 1)) by {
                assert(entries@ =~= (sorted_part + orig.skip(i + 1)).insert(j as int, e));
            }
            assert(orig.take(i + 1).drop_last() =~= orig.take(i as int));
            assert(orig.take(i + 1).last() == orig[i as int]);
            assert(sort_by_modified(orig.take(i + 1)) == insert_ordered(sorted_part, e));
            lemma_insert_ordered_sorted(sorted_part, e);
            lemma_insert_ordered_len(sorted_part, e);
        }
        i = i + 1;
    }
    proof {
        assert(orig.take(orig.len() as int) =~= orig);
        assert(entries@ =~= sort_by_modified(orig));
    }
}

/// Where the insertion point has been found by scanning from the right,
/// `insert_ordered` is exactly an insertion at that index.
proof fn lemma_insert_ordered_at(s: Seq<RotireFile>, e: RotireFile, j: int)
    requires
        0 <= j <= s.len(),
        forall|k: int| j <= k < s.len() ==> !entry_le(#[trigger] s[k], e),
        j > 0 ==> entry_le(s[j - 1], e),
    ensures
        insert_ordered(s, e) == s.insert(j, e),
    decreases s.len(),
{
    if s.len() == 0 {
        assert(insert_ordered(s, e) =~= s.insert(0, e));
    } else if j == s.len() {
        assert(entry_le(s.last(), e));
        assert(insert_ordered(s, e) =~= s.insert(j, e));
    } else {
        assert(!entry_le(s.last(), e));
        lemma_insert_ordered_at(s.drop_last(), e, j);
        assert(insert_ordered(s.drop_last(), e).push(s.last()) =~= s.insert(j, e));
    }
}

/// The keep-count clamped into the range of the entry count: negative counts
/// keep nothing extra, counts past the entry count keep everything.
pub open spec fn clamped_keep(keep: int, n: int) -> int {
    if keep < 0 {
        0
    } else if keep > n {
        n
    } else {
        keep
    }
}

/// Splits the sorted entries into the rotate set (everything but the
/// `keep_count` most recently modified entries) and the kept set (those
/// entries themselves). Consumes the sorted vector; rotate set first.
pub fn split_rotate(entries: Vec<RotireFile>, keep_count: i32) -> (r: (
    Vec<RotireFile>,
    Vec<RotireFile>,
))
    ensures
        r.0@ == entries@.take(entries@.len() - clamped_keep(keep_count as int, entries@.len() as int)),
        r.1@ == entries@.skip(entries@.len() - clamped_keep(keep_count as int, entries@.len() as int)),
{
    let mut entries = entries;
    let n = entries.len();
    let k: usize = if keep_count < 0 {
        0
    } else if keep_count as usize > n {
        n
    } else {
        keep_count as usize
    };
    let kept = entries.split_off(n - k);
    (entries, kept)
}

} // verus!
