//! Filters over an entry's file name. A run is configured with an ordered
//! list of filters; an entry is a rotation candidate only when every filter
//! in the list admits its name (an empty list admits every entry).

use vstd::prelude::*;
use vstd::string::StrSliceExecFns;
use crate::model::RotireFile;

verus! {

/// A single predicate over an entry's file name, compared character by
/// character and case-sensitively.
#[derive(Debug)]
pub enum RotireFilter {
    /// Admits names that start with `value`.
    Prefix { value: String },
    /// Admits names that end with `value`.
    Suffix { value: String },
}

/// What it means for one filter to admit a file name.
pub open spec fn filter_satisfied(f: RotireFilter, name: Seq<char>) -> bool {
    match f {
        RotireFilter::Prefix { value } => value@.len() <= name.len() && name.take(
            value@.len() as int,
        ) == value@,
        RotireFilter::Suffix { value } => value@.len() <= name.len() && name.skip(
            name.len() - value@.len(),
        ) == value@,
    }
}

/// What it means for a whole chain of filters to admit a file name: every
/// filter admits it. An empty chain admits every name.
pub open spec fn chain_satisfied(filters: Seq<RotireFilter>, name: Seq<char>) -> bool {
    forall|i: int| 0 <= i < filters.len() ==> #[trigger] filter_satisfied(filters[i], name)
}

/// An entry passes a filter chain exactly when it satisfies every filter in
/// the chain on its own, and a chain with no filters admits every entry.
pub proof fn lemma_chain_is_conjunction(filters: Seq<RotireFilter>, name: Seq<char>)
    ensures
        chain_satisfied(filters, name) <==> (forall|i: int|
            0 <= i < filters.len() ==> #[trigger] filter_satisfied(filters[i], name)),
        filters.len() == 0 ==> chain_satisfied(filters, name),
{
}

impl RotireFilter {
    /// Whether this filter admits the given entry's file name.
    pub fn satisfies(&self, file: &RotireFile) -> (r: bool)
        ensures
            r == filter_satisfied(*self, file.name@),
    {
        match self {
            RotireFilter::Prefix { value } => name_starts_with(&file.name, value),
            RotireFilter::Suffix { value } => name_ends_with(&file.name, value),
        }
    }
}

/// Whether `name` begins with `value`, character by character.
fn name_starts_with(name: &String, value: &String) -> (r: bool)
    ensures
        r == (value@.len() <= name@.len() && name@.take(value@.len() as int) == value@),
{
    let vlen = value.as_str().unicode_len();
    let nlen = name.as_str().unicode_len();
    if vlen > nlen {
        return false;
    }
    let mut i: usize = 0;
    while i < vlen
        invariant
            i <= vlen,
            vlen == value@.len(),
            nlen == name@.len(),
            vlen <= nlen,
            forall|j: int| 0 <= j < i ==> name@[j] == value@[j],
        decreases vlen - i,
    {
        if name.as_str().get_char(i) != value.as_str().get_char(i) {
            assert(name@.take(vlen as int)[i as int] != value@[i as int]);
            return false;
        }
        i = i + 1;
    }
    assert(name@.take(vlen as int) =~= value@);
    true
}

/// Whether `name` ends with `value`, character by character.
fn name_ends_with(name: &String, value: &String) -> (r: bool)
    ensures
        r == (value@.len() <= name@.len() && name@.skip(name@.len() - value@.len()) == value@),
{
    let vlen = value.as_str().unicode_len();
    let nlen = name.as_str().unicode_len();
    if vlen > nlen {
        return false;
    }
    let offset = nlen - vlen;
    let mut i: usize = 0;
    while i < vlen
        invariant
            i <= vlen,
            vlen == value@.len(),
            nlen == name@.len(),
            vlen <= nlen,
            offset == nlen - vlen,
            forall|j: int| 0 <= j < i ==> name@[offset + j] == value@[j],
        decreases vlen - i,
    {
        if name.as_str().get_char(offset + i) != value.as_str().get_char(i) {
            assert(name@.skip(offset as int)[i as int] != value@[i as int]);
            return false;
        }
        i = i + 1;
    }
    assert(name@.skip(offset as int) =~= value@);
    true
}

/// Whether every configured filter admits the given entry.
pub fn passes_filters(filters: &Vec<RotireFilter>, file: &RotireFile) -> (r: bool)
    ensures
        r == chain_satisfied(filters@, file.name@),
{
    let mut i: usize = 0;
    while i < filters.len()
        invariant
            i <= filters@.len(),
            forall|j: int| 0 <= j < i ==> #[trigger] filter_satisfied(filters@[j], file.name@),
        decreases filters@.len() - i,
    {
        if !filters[i].satisfies(file) {
            return false;
        }
        i = i + 1;
    }
    true
}

} // verus!
