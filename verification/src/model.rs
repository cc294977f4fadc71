//! The data the engine works on: one scanned directory entry, and the
//! aggregated result of a run.

use vstd::prelude::*;
use vstd::string::StringExecFns;
use crate::text::{dec_digits, push_decimal};

verus! {

/// One entry of the scanned directory: its file name (the last path segment),
/// its size in bytes, and its modification time. When the modification time
/// could not be read, `modified_unavailable` is set and `modified_at` is
/// meaningless; such an entry is ordered before every other one, so that it is
/// never retained indefinitely.
#[derive(Clone, Debug)]
pub struct RotireFile {
    /// The entry's file name, without any directory components.
    pub name: String,
    /// The entry's size in bytes.
    pub size: u64,
    /// Milliseconds since the Unix epoch at which the entry was last modified.
    pub modified_at: u64,
    /// True when the modification time could not be read.
    pub modified_unavailable: bool,
}

/// The aggregated outcome of a run: how many entries the action processed,
/// and how many bytes they held together. Both only ever grow during a run.
#[derive(Clone, Debug)]
pub struct RotireResult {
    /// The number of affected entries.
    pub affected_files: i32,
    /// The total size in bytes of the affected entries.
    pub affected_files_size: u64,
}

impl RotireResult {
    /// An empty result: nothing affected yet.
    pub fn new() -> (r: Self)
        ensures
            r.affected_files == 0,
            r.affected_files_size == 0,
    {
        RotireResult { affected_files: 0, affected_files_size: 0 }
    }

    /// Counts one more affected entry.
    pub fn inc_affected_files(&mut self)
        requires
            old(self).affected_files < i32::MAX,
        ensures
            final(self).affected_files == old(self).affected_files + 1,
            final(self).affected_files_size == old(self).affected_files_size,
    {
        self.affected_files = self.affected_files + 1;
    }

    /// Adds one more affected entry's size to the byte total.
    pub fn inc_affected_files_size(&mut self, size: u64)
        requires
            old(self).affected_files_size + size <= u64::MAX,
        ensures
            final(self).affected_files_size == old(self).affected_files_size + size,
            final(self).affected_files == old(self).affected_files,
    {
        self.affected_files_size = self.affected_files_size + size;
    }

    /// The result as reported to the user, with the byte total shown in
    /// whole mebibytes, rounded down.
    pub fn display_string(&self) -> (s: String)
        requires
            self.affected_files >= 0,
        ensures
            s@ == result_display(*self),
    {
        let mut s = String::from_str("Affected files ");
        push_decimal(self.affected_files as u64, &mut s);
        s.append(", containing ");
        push_decimal(self.affected_files_size / (1024 * 1024), &mut s);
        s.append(" MiB.");
        proof {
            assert(s@ =~= result_display(*self));
        }
        s
    }
}

/// The report line for a result: the affected entry count, and the affected
/// bytes in whole mebibytes, rounded down.
pub open spec fn result_display(r: RotireResult) -> Seq<char> {
    "Affected files "@ + dec_digits(r.affected_files as int) + ", containing "@ + dec_digits(
        r.affected_files_size as int / (1024int * 1024),
    ) + " MiB."@
}

/// The conditions that abort a whole run. Per-entry failures are not among
/// them: those are reported to the caller and the run goes on.
#[derive(Clone, Copy, Debug, PartialEq, Eq, Structural)]
pub enum RotireError {
    /// A run was invoked while another run on the same engine was already
    /// in progress.
    ConcurrentRun,
    /// The archive could not be finalized.
    ArchiveFinalizeFailed,
}

impl RotireError {
    /// A human-readable description of the failure.
    pub fn message(&self) -> (r: &'static str)
        ensures
            *self == RotireError::ConcurrentRun ==> r@ == "Can't start another run while one is already running."@,
            *self == RotireError::ArchiveFinalizeFailed ==> r@ == "The archive could not be finalized."@,
    {
        match self {
            RotireError::ConcurrentRun => "Can't start another run while one is already running.",
            RotireError::ArchiveFinalizeFailed => "The archive could not be finalized.",
        }
    }
}

/// The total size in bytes of a sequence of entries.
pub open spec fn total_size(files: Seq<RotireFile>) -> int
    decreases files.len(),
{
    if files.len() == 0 {
        0
    } else {
        total_size(files.drop_last()) + files.last().size
    }
}

/// A prefix never holds more bytes than the whole sequence.
pub proof fn lemma_total_size_take(files: Seq<RotireFile>, i: int)
    requires
        0 <= i <= files.len(),
    ensures
        0 <= total_size(files.take(i)) <= total_size(files),
    decreases files.len(),
{
    if files.len() == 0 {
        assert(files.take(i) =~= files);
    } else if i == files.len() {
        assert(files.take(i) =~= files);
        lemma_total_size_take(files.drop_last(), i - 1);
    } else {
        assert(files.take(i) =~= files.drop_last().take(i));
        lemma_total_size_take(files.drop_last(), i);
    }
}

/// Whether a rotate set fits the run's accounting: no more entries than the
/// affected-files counter can count, and no more bytes in total than the
/// byte accumulator can hold.
pub fn totals_fit(files: &Vec<RotireFile>) -> (r: bool)
    ensures
        r == (files@.len() <= i32::MAX && total_size(files@) <= u64::MAX),
{
    let mut sum: u64 = 0;
    let mut i: usize = 0;
    while i < files.len()
        invariant
            i <= files@.len(),
            sum == total_size(files@.take(i as int)),
        decreases files@.len() - i,
    {
        proof {
            assert(files@.take(i + 1).drop_last() =~= files@.take(i as int));
            assert(files@.take(i + 1).last() == files@[i as int]);
        }
        let size = files[i].size;
        if sum > u64::MAX - size {
            proof {
                lemma_total_size_take(files@, i + 1);
            }
            return false;
        }
        sum = sum + size;
        i = i + 1;
    }
    proof {
        assert(files@.take(files@.len() as int) =~= files@);
    }
    files.len() <= i32::MAX as usize
}

} // verus!
