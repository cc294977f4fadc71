//! A directory-rotation engine: given the entries of a target directory, it
//! keeps the most recently modified ones and disposes of the rest, either by
//! deleting them or by packing them into a compressed tar archive first.
//!
//! The engine itself performs no filesystem work. A caller scans the
//! directory, hands the entries to [`Rotire::run`], carries out the plan that
//! comes back (removing files, or reading the files to be archived), and
//! reports the per-entry outcomes to [`Rotire::complete_run`], which applies
//! the action's accounting and produces the aggregated
//! [`model::RotireResult`]. A second `run` on the same engine before
//! `complete_run` is rejected without touching anything.

use vstd::prelude::*;

pub mod actions;
pub mod archive;
pub mod filter;
pub mod model;
pub mod order;
pub mod text;

use crate::actions::{execute_post, input_matches, Action, ActionInput, RotationOutcome};
use crate::filter::{chain_satisfied, passes_filters, RotireFilter};
use crate::model::{total_size, RotireError, RotireFile};
use crate::order::{clamped_keep, sort_by_modified, sort_entries, split_rotate};

verus! {

/// The predicate the configured filter chain imposes on a scanned entry.
pub open spec fn candidate_pred(filters: Seq<RotireFilter>) -> spec_fn(RotireFile) -> bool {
    |e: RotireFile| chain_satisfied(filters, e.name@)
}

/// The rotation candidates of a run: the scanned entries the filter chain
/// admits, sorted ascending by modification time.
pub open spec fn rotation_candidates(
    scanned: Seq<RotireFile>,
    filters: Seq<RotireFilter>,
) -> Seq<RotireFile> {
    sort_by_modified(scanned.filter(candidate_pred(filters)))
}

/// What a run decided to do, for the caller to carry out: the action, the
/// rotate set it applies to (oldest first), and the entries that are kept.
pub struct RotationPlan {
    /// The action the run applies.
    pub action: Action,
    /// The entries to dispose of, oldest first.
    pub rotate: Vec<RotireFile>,
    /// The entries that stay, the most recently modified of the scan.
    pub kept: Vec<RotireFile>,
}

/// The rotation engine for one directory: its filter chain and the guard
/// that rejects a second run while one is in progress.
pub struct Rotire {
    /// Whether a run is currently in progress.
    is_running: bool,
    /// The directory this engine rotates.
    directory: String,
    /// The configured filter chain, applied as a conjunction.
    filters: Vec<RotireFilter>,
}

impl Rotire {
    /// Whether a run is currently in progress on this engine.
    pub closed spec fn running(&self) -> bool {
        self.is_running
    }

    /// The configured filter chain.
    pub closed spec fn filter_chain(&self) -> Seq<RotireFilter> {
        self.filters@
    }

    /// The name of the directory this engine rotates.
    pub closed spec fn directory_name(&self) -> Seq<char> {
        self.directory@
    }

    /// A fresh engine for the given directory: idle, with no filters.
    pub fn new(directory: String) -> (r: Self)
        ensures
            !r.running(),
            r.filter_chain() == Seq::<RotireFilter>::empty(),
            r.directory_name() == directory@,
    {
        Rotire { is_running: false, directory, filters: Vec::new() }
    }

    /// The directory this engine rotates.
    pub fn directory(&self) -> (d: &String)
        ensures
            d@ == self.directory_name(),
    {
        &self.directory
    }

    /// Appends a filter to this engine's chain. The chain may only be
    /// changed while no run is in progress.
    pub fn add_filter(&mut self, filter: RotireFilter)
        requires
            !old(self).running(),
        ensures
            !final(self).running(),
            final(self).filter_chain() == old(self).filter_chain().push(filter),
            final(self).directory_name() == old(self).directory_name(),
    {
        self.filters.push(filter);
    }

    /// Begins a run: rejects it outright if one is already in progress,
    /// leaving the engine untouched; otherwise marks the engine running and
    /// decides the whole run from the scanned entries — which entries the
    /// filter chain admits, their order by modification time, and which of
    /// them the keep-count retains. The plan's rotate set is everything but
    /// the `keep_max_files` most recently modified candidates (a negative
    /// keep-count keeps nothing extra; one past the candidate count keeps
    /// everything). The run is finished by [`Rotire::complete_run`].
    pub fn run(&mut self, keep_max_files: i32, action: Action, scanned: Vec<RotireFile>) -> (r:
        Result<RotationPlan, RotireError>)
        ensures
            old(self).running() ==> r == Err::<RotationPlan, RotireError>(
                RotireError::ConcurrentRun,
            ) && *final(self) == *old(self),
            !old(self).running() ==> {
                &&& final(self).running()
                &&& final(self).filter_chain() == old(self).filter_chain()
                &&& final(self).directory_name() == old(self).directory_name()
                &&& r matches Ok(plan) && {
                    let candidates = rotation_candidates(scanned@, old(self).filter_chain());
                    let k = clamped_keep(keep_max_files as int, candidates.len() as int);
                    &&& plan.action == action
                    &&& plan.rotate@ == candidates.take(candidates.len() - k)
                    &&& plan.kept@ == candidates.skip(candidates.len() - k)
                }
            },
    {
        if self.is_running {
            return Err(RotireError::ConcurrentRun);
        }
        self.is_running = true;
        let mut candidates = filter_entries(scanned, &self.filters);
        sort_entries(&mut candidates);
        let (rotate, kept) = split_rotate(candidates, keep_max_files);
        Ok(RotationPlan { action, rotate, kept })
    }

    /// Finishes a run begun by [`Rotire::run`]: applies the plan's action
    /// to its rotate set, given what the caller's filesystem work produced,
    /// and returns the engine to idle whether the action succeeds or fails.
    pub fn complete_run(&mut self, plan: &RotationPlan, input: ActionInput) -> (r: Result<
        RotationOutcome,
        RotireError,
    >)
        requires
            old(self).running(),
            input_matches(plan.action, plan.rotate@, input),
            plan.rotate@.len() <= i32::MAX,
            total_size(plan.rotate@) <= u64::MAX,
        ensures
            !final(self).running(),
            final(self).filter_chain() == old(self).filter_chain(),
            final(self).directory_name() == old(self).directory_name(),
            execute_post(plan.action, plan.rotate@, input, r),
    {
        let r = plan.action.execute(&plan.rotate, input);
        self.is_running = false;
        r
    }

    /// Ends a run begun by [`Rotire::run`] without completing it, returning
    /// the engine to idle: for when the caller's work between the two steps
    /// failed fatally.
    pub fn abort_run(&mut self)
        ensures
            !final(self).running(),
            final(self).filter_chain() == old(self).filter_chain(),
            final(self).directory_name() == old(self).directory_name(),
    {
        self.is_running = false;
    }
}

/// The scanned entries the filter chain admits, in scan order.
fn filter_entries(entries: Vec<RotireFile>, filters: &Vec<RotireFilter>) -> (r: Vec<RotireFile>)
    ensures
        r@ == entries@.filter(candidate_pred(filters@)),
{
    let ghost orig = entries@;
    let ghost pred = candidate_pred(filters@);
    let mut rest = entries;
    let mut out: Vec<RotireFile> = Vec::new();
    proof {
        assert(orig.take(0) =~= Seq::<RotireFile>::empty());
        reveal(Seq::filter);
    }
    while rest.len() > 0
        invariant
            rest@.len() <= orig.len(),
            rest@ == orig.skip(orig.len() - rest@.len()),
            out@ == orig.take(orig.len() - rest@.len()).filter(pred),
            pred == candidate_pred(filters@),
        decreases rest@.len(),
    {
        let ghost k = orig.len() - rest@.len();
        let e = rest.remove(0);
        proof {
            assert(orig.skip(k as int)[0] == orig[k as int]);
            assert(rest@ =~= orig.skip(k + 1));
        }
        if passes_filters(filters, &e) {
            out.push(e);
        }
        proof {
            assert(orig.take(k + 1) =~= orig.take(k as int).push(orig[k as int]));
            orig.take(k as int).lemma_filter_push(e, pred);
        }
    }
    proof {
        assert(orig.take(orig.len() as int) =~= orig);
    }
    out
}

/// With no filters configured, every scanned entry is admitted.
pub proof fn lemma_no_filters_admit_all(scanned: Seq<RotireFile>)
    ensures
        scanned.filter(candidate_pred(Seq::<RotireFilter>::empty())) == scanned,
    decreases scanned.len(),
{
    reveal(Seq::filter);
    if scanned.len() != 0 {
        lemma_no_filters_admit_all(scanned.drop_last());
        assert(scanned.filter(candidate_pred(Seq::<RotireFilter>::empty())) =~= scanned);
    }
}

/// The retention split is complete: for any scan, filter chain and
/// keep-count, the rotate set holds `max(0, n - clamp(keep, 0, n))` entries
/// where `n` counts the filtered scan, the kept set holds the clamped
/// keep-count itself, and rotate and kept together are a permutation of the
/// filtered scan — nothing lost, nothing duplicated, no overlap.
pub proof fn lemma_partition_complete(
    scanned: Seq<RotireFile>,
    filters: Seq<RotireFilter>,
    keep: int,
)
    ensures
        ({
            let filtered = scanned.filter(candidate_pred(filters));
            let candidates = rotation_candidates(scanned, filters);
            let n = filtered.len() as int;
            let k = clamped_keep(keep, candidates.len() as int);
            let rotate = candidates.take(candidates.len() - k);
            let kept = candidates.skip(candidates.len() - k);
            &&& candidates.len() == n
            &&& rotate.len() == n - clamped_keep(keep, n)
            &&& n - clamped_keep(keep, n) >= 0
            &&& kept.len() == clamped_keep(keep, n)
            &&& (rotate + kept).to_multiset() == filtered.to_multiset()
        }),
{
    let filtered = scanned.filter(candidate_pred(filters));
    let candidates = rotation_candidates(scanned, filters);
    crate::order::lemma_sort_len(filtered);
    crate::order::lemma_sort_permutes(filtered);
    let k = clamped_keep(keep, candidates.len() as int);
    assert(candidates.take(candidates.len() - k) + candidates.skip(candidates.len() - k)
        =~= candidates);
}

} // verus!
