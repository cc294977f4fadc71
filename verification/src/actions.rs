//! The disposition actions a run applies to its rotate set: deleting the
//! entries, or archiving them and then deleting them, each optionally as a
//! dry run that mutates nothing but reports the same totals.
//!
//! The engine itself touches no files. For a real Delete run the caller
//! removes the files first and reports which removals succeeded; for a real
//! Archive run the caller reads the files and hands their bytes in, and
//! afterwards removes exactly the entries that were archived. The totals
//! count only the entries that were actually processed.

use vstd::prelude::*;
use crate::archive::{
    archive_members, archived_members, targz_encoding, targz_finalizes, ArchiveWriter,
};
use crate::model::{lemma_total_size_take, total_size, RotireError, RotireFile, RotireResult};

verus! {

/// The kind of disposition a run applies to its rotate set.
#[derive(Clone, Copy, Debug, PartialEq, Eq, Structural)]
pub enum ActionType {
    /// Delete the rotate-set entries.
    Delete,
    /// Pack the rotate-set entries into one archive, then delete them.
    Archive,
}

/// The disposition a run applies, together with the dry-run switch.
#[derive(Clone, Copy, Debug, PartialEq, Eq, Structural)]
pub struct Action {
    /// The kind of disposition to apply.
    pub action_type: ActionType,
    /// When set, nothing is mutated: the run only reports what it would do.
    pub dry_run: bool,
}

impl Action {
    /// Builds an action of the given kind.
    pub fn new(action_type: ActionType, dry_run: bool) -> (a: Action)
        ensures
            a.action_type == action_type,
            a.dry_run == dry_run,
    {
        Action { action_type, dry_run }
    }
}

impl Default for Action {
    /// The default disposition: a real Archive run.
    fn default() -> (a: Action)
        ensures
            a.action_type == ActionType::Archive,
            a.dry_run == false,
    {
        Action { action_type: ActionType::Archive, dry_run: false }
    }
}

/// What the caller's filesystem work produced for the rotate set, in the
/// rotate set's order.
pub enum ActionInput {
    /// A dry run needs nothing from the filesystem.
    DryRun,
    /// For a real Delete run: whether each entry could be removed.
    Removed(Vec<bool>),
    /// For a real Archive run: each entry's bytes, or nothing where the
    /// entry could not be opened.
    Contents(Vec<Option<Vec<u8>>>),
}

/// Whether the input fits the action and covers every rotate-set entry.
pub open spec fn input_matches(a: Action, files: Seq<RotireFile>, input: ActionInput) -> bool {
    if a.dry_run {
        input is DryRun
    } else {
        match a.action_type {
            ActionType::Delete => input matches ActionInput::Removed(removed) && removed@.len()
                == files.len(),
            ActionType::Archive => input matches ActionInput::Contents(contents) && contents@.len()
                == files.len(),
        }
    }
}

/// What a run hands back: the totals, and for a real Archive run the
/// finished archive bytes together with the entries that are in them and
/// must now be removed.
pub struct RotationOutcome {
    /// The aggregated totals of the run.
    pub result: RotireResult,
    /// The finished `.tar.gz` bytes, for a real Archive run.
    pub archive: Option<Vec<u8>>,
    /// Which rotate-set entries were archived, for a real Archive run;
    /// empty otherwise.
    pub appended: Vec<bool>,
}

/// How many entries the per-entry success flags count.
pub open spec fn counted_count(flags: Seq<bool>) -> int
    decreases flags.len(),
{
    if flags.len() == 0 {
        0
    } else {
        counted_count(flags.drop_last()) + if flags.last() {
            1int
        } else {
            0int
        }
    }
}

/// The total size of the entries the per-entry success flags count.
pub open spec fn counted_size(files: Seq<RotireFile>, flags: Seq<bool>) -> int
    decreases files.len(),
{
    if files.len() == 0 {
        0
    } else {
        counted_size(files.drop_last(), flags.drop_last()) + if flags.len() == files.len()
            && flags.last() {
            files.last().size as int
        } else {
            0int
        }
    }
}

/// The count never exceeds the number of flags.
proof fn lemma_counted_count_bound(flags: Seq<bool>)
    ensures
        0 <= counted_count(flags) <= flags.len(),
    decreases flags.len(),
{
    if flags.len() != 0 {
        lemma_counted_count_bound(flags.drop_last());
    }
}

/// The counted size never exceeds the total size.
proof fn lemma_counted_size_bound(files: Seq<RotireFile>, flags: Seq<bool>)
    ensures
        0 <= counted_size(files, flags) <= total_size(files),
    decreases files.len(),
{
    if files.len() != 0 {
        lemma_counted_size_bound(files.drop_last(), flags.drop_last());
    }
}

/// The only way a real Archive run fails: some choice of per-entry flags,
/// consistent with which entries could be opened, yields a member list
/// whose stream cannot be finalized. A run that fails for any other reason
/// cannot meet a contract that demands this.
pub open spec fn finalize_failure_witnessed(
    files: Seq<RotireFile>,
    contents: Seq<Option<Vec<u8>>>,
) -> bool {
    exists|flags: Seq<bool>|
        flags.len() == files.len() && (forall|i: int|
            0 <= i < flags.len() ==> (#[trigger] flags[i] ==> contents[i] is Some))
            && !targz_finalizes(#[trigger] archived_members(files, contents, flags))
}

/// The archive holds exactly as many members as the run counts: each entry
/// marked appended contributes one member, every other entry contributes
/// nothing.
pub proof fn lemma_archive_count_matches(
    files: Seq<RotireFile>,
    contents: Seq<Option<Vec<u8>>>,
    appended: Seq<bool>,
)
    requires
        contents.len() == files.len(),
        appended.len() == files.len(),
        forall|i: int| 0 <= i < files.len() ==> (#[trigger] appended[i] ==> contents[i] is Some),
    ensures
        archived_members(files, contents, appended).len() == counted_count(appended),
    decreases files.len(),
{
    if files.len() != 0 {
        lemma_archive_count_matches(files.drop_last(), contents.drop_last(), appended.drop_last());
    }
}

/// No archived entry is lost: every rotate-set entry marked appended stands
/// in the archive's members under its own name with its own bytes.
pub proof fn lemma_archived_entry_is_a_member(
    files: Seq<RotireFile>,
    contents: Seq<Option<Vec<u8>>>,
    appended: Seq<bool>,
    i: int,
)
    requires
        contents.len() == files.len(),
        appended.len() == files.len(),
        0 <= i < files.len(),
        appended[i],
        contents[i] is Some,
    ensures
        archived_members(files, contents, appended).contains(
            (files[i].name@, contents[i]->Some_0@),
        ),
    decreases files.len(),
{
    let members = archived_members(files, contents, appended);
    let rest = archived_members(files.drop_last(), contents.drop_last(), appended.drop_last());
    if i == files.len() - 1 {
        assert(members[members.len() - 1] == (files[i].name@, contents[i]->Some_0@));
    } else {
        lemma_archived_entry_is_a_member(
            files.drop_last(),
            contents.drop_last(),
            appended.drop_last(),
            i,
        );
        let k = choose|k: int|
            0 <= k < rest.len() && rest[k] == (files[i].name@, contents[i]->Some_0@);
        assert(members[k] == (files[i].name@, contents[i]->Some_0@));
    }
}

/// Dry-run and real-run totals agree: where every rotate-set entry was
/// processed successfully, the totals counted from the per-entry outcomes
/// equal the totals a dry run reports for the same entries.
pub proof fn lemma_dry_run_totals_match(files: Seq<RotireFile>, processed: Seq<bool>)
    requires
        processed.len() == files.len(),
        forall|i: int| 0 <= i < processed.len() ==> processed[i],
    ensures
        counted_count(processed) == files.len(),
        counted_size(files, processed) == total_size(files),
    decreases files.len(),
{
    if files.len() != 0 {
        lemma_dry_run_totals_match(files.drop_last(), processed.drop_last());
    }
}

/// A dry run walks the rotate set and accumulates the totals exactly as the
/// real action would if every entry were processed, mutating nothing.
pub fn dry_run_action(files: &Vec<RotireFile>) -> (r: RotireResult)
    requires
        files@.len() <= i32::MAX,
        total_size(files@) <= u64::MAX,
    ensures
        r.affected_files == files@.len(),
        r.affected_files_size == total_size(files@),
{
    let mut result = RotireResult::new();
    let mut i: usize = 0;
    while i < files.len()
        invariant
            i <= files@.len(),
            files@.len() <= i32::MAX,
            total_size(files@) <= u64::MAX,
            result.affected_files == i,
            result.affected_files_size == total_size(files@.take(i as int)),
        decreases files@.len() - i,
    {
        proof {
            assert(files@.take(i + 1).drop_last() =~= files@.take(i as int));
            assert(files@.take(i + 1).last() == files@[i as int]);
            lemma_total_size_take(files@, i + 1);
        }
        result.inc_affected_files_size(files[i].size);
        result.inc_affected_files();
        i = i + 1;
    }
    proof {
        assert(files@.take(files@.len() as int) =~= files@);
    }
    result
}

/// The totals of a real Delete run, counting exactly the entries whose
/// removal the caller reports as successful; a failed removal is reported
/// and skipped, and the run goes on.
pub fn delete_files_action(files: &Vec<RotireFile>, removed: &Vec<bool>) -> (r: RotireResult)
    requires
        removed@.len() == files@.len(),
        files@.len() <= i32::MAX,
        total_size(files@) <= u64::MAX,
    ensures
        r.affected_files == counted_count(removed@),
        r.affected_files_size == counted_size(files@, removed@),
{
    let mut result = RotireResult::new();
    let mut i: usize = 0;
    while i < files.len()
        invariant
            i <= files@.len(),
            removed@.len() == files@.len(),
            files@.len() <= i32::MAX,
            total_size(files@) <= u64::MAX,
            result.affected_files == counted_count(removed@.take(i as int)),
            result.affected_files_size == counted_size(files@.take(i as int), removed@.take(i as int)),
        decreases files@.len() - i,
    {
        proof {
            assert(files@.take(i + 1).drop_last() =~= files@.take(i as int));
            assert(removed@.take(i + 1).drop_last() =~= removed@.take(i as int));
            lemma_counted_count_bound(removed@.take(i as int));
            lemma_counted_size_bound(files@.take(i + 1), removed@.take(i + 1));
            lemma_total_size_take(files@, i + 1);
            lemma_counted_size_bound(files@.take(i as int), removed@.take(i as int));
        }
        if removed[i] {
            result.inc_affected_files_size(files[i].size);
            result.inc_affected_files();
        }
        i = i + 1;
    }
    proof {
        assert(files@.take(files@.len() as int) =~= files@);
        assert(removed@.take(removed@.len() as int) =~= removed@);
    }
    result
}

/// A real Archive run over the rotate set: every entry whose bytes the
/// caller could read is appended to one fresh in-memory archive under its
/// base file name; an entry that could not be opened, or whose append
/// failed, is skipped and not counted. The archive is finalized exactly
/// once; a finalization failure is fatal to the run. The entries marked
/// `appended` are in the archive and are the ones to remove from disk.
pub fn archive_files_action(files: &Vec<RotireFile>, contents: &Vec<Option<Vec<u8>>>) -> (r: Result<
    RotationOutcome,
    RotireError,
>)
    requires
        contents@.len() == files@.len(),
        files@.len() <= i32::MAX,
        total_size(files@) <= u64::MAX,
    ensures
        r matches Ok(out) ==> {
            &&& out.appended@.len() == files@.len()
            &&& forall|i: int|
                0 <= i < files@.len() ==> (#[trigger] out.appended@[i] ==> contents@[i] is Some)
            &&& out.result.affected_files == counted_count(out.appended@)
            &&& out.result.affected_files_size == counted_size(files@, out.appended@)
            &&& out.archive matches Some(bytes) && bytes@ == targz_encoding(
                archived_members(files@, contents@, out.appended@),
            )
        },
        r matches Err(e) ==> e == RotireError::ArchiveFinalizeFailed
            && finalize_failure_witnessed(files@, contents@),
{
    let mut result = RotireResult::new();
    let mut writer = ArchiveWriter::new();
    let mut appended: Vec<bool> = Vec::new();
    let mut i: usize = 0;
    while i < files.len()
        invariant
            i <= files@.len(),
            contents@.len() == files@.len(),
            files@.len() <= i32::MAX,
            total_size(files@) <= u64::MAX,
            appended@.len() == i,
            forall|k: int| 0 <= k < i ==> (#[trigger] appended@[k] ==> contents@[k] is Some),
            result.affected_files == counted_count(appended@),
            result.affected_files_size == counted_size(files@.take(i as int), appended@),
            archive_members(writer) == archived_members(
                files@.take(i as int),
                contents@.take(i as int),
                appended@,
            ),
        decreases files@.len() - i,
    {
        let ghost prev_appended = appended@;
        proof {
            assert(files@.take(i + 1).drop_last() =~= files@.take(i as int));
            assert(contents@.take(i + 1).drop_last() =~= contents@.take(i as int));
            lemma_counted_count_bound(appended@);
            lemma_counted_size_bound(files@.take(i as int), appended@);
            lemma_total_size_take(files@, i + 1);
        }
        let ok: bool = match &contents[i] {
            Some(data) => writer.append(&files[i].name, data),
            None => false,
        };
        if ok {
            result.inc_affected_files_size(files[i].size);
            result.inc_affected_files();
        }
        appended.push(ok);
        proof {
            assert(appended@.drop_last() =~= prev_appended);
            assert(counted_count(appended@) == counted_count(prev_appended) + if ok {
                1int
            } else {
                0int
            });
            assert(counted_size(files@.take(i + 1), appended@) == counted_size(
                files@.take(i as int),
                prev_appended,
            ) + if ok {
                files@[i as int].size as int
            } else {
                0int
            });
            assert(archive_members(writer) == archived_members(
                files@.take(i + 1),
                contents@.take(i + 1),
                appended@,
            ));
        }
        i = i + 1;
    }
    proof {
        assert(files@.take(files@.len() as int) =~= files@);
        assert(contents@.take(contents@.len() as int) =~= contents@);
    }
    let ghost final_flags = appended@;
    match writer.finish() {
        Some(bytes) => Ok(
            RotationOutcome { result, archive: Some(bytes), appended },
        ),
        None => {
            proof {
                assert(final_flags.len() == files@.len());
                assert(!targz_finalizes(archived_members(files@, contents@, final_flags)));
            }
            Err(RotireError::ArchiveFinalizeFailed)
        },
    }
}

/// Everything executing an action promises of its outcome, branch by branch:
/// a dry run reports every entry; a real Delete run reports exactly the
/// removals the caller reported as successful; a real Archive run reports
/// exactly the entries it archived, hands back the archive bytes holding
/// them, or fails because the archive could not be finalized.
pub open spec fn execute_post(
    a: Action,
    files: Seq<RotireFile>,
    input: ActionInput,
    r: Result<RotationOutcome, RotireError>,
) -> bool {
    &&& a.dry_run ==> (r matches Ok(out) && {
        &&& out.result.affected_files == files.len()
        &&& out.result.affected_files_size == total_size(files)
        &&& out.archive is None
        &&& out.appended@.len() == 0
    })
    &&& !a.dry_run && a.action_type == ActionType::Delete ==> (r matches Ok(out) && (
    input matches ActionInput::Removed(removed) && {
        &&& out.result.affected_files == counted_count(removed@)
        &&& out.result.affected_files_size == counted_size(files, removed@)
        &&& out.archive is None
        &&& out.appended@.len() == 0
    }))
    &&& !a.dry_run && a.action_type == ActionType::Archive ==> (input matches ActionInput::Contents(
        contents,
    ) && {
        &&& r matches Ok(out) ==> {
            &&& out.appended@.len() == files.len()
            &&& forall|i: int|
                0 <= i < files.len() ==> (#[trigger] out.appended@[i] ==> contents@[i] is Some)
            &&& out.result.affected_files == counted_count(out.appended@)
            &&& out.result.affected_files_size == counted_size(files, out.appended@)
            &&& out.archive matches Some(bytes) && bytes@ == targz_encoding(
                archived_members(files, contents@, out.appended@),
            )
        }
        &&& r matches Err(e) ==> e == RotireError::ArchiveFinalizeFailed
            && finalize_failure_witnessed(files, contents@)
    })
}

impl Action {
    /// Applies this action to the rotate set, given what the caller's
    /// filesystem work produced for it, and aggregates the totals. Only the
    /// entries actually processed are counted: every entry on a dry run,
    /// the successfully removed ones on a real Delete run, the archived
    /// ones on a real Archive run.
    pub fn execute(&self, files: &Vec<RotireFile>, input: ActionInput) -> (r: Result<
        RotationOutcome,
        RotireError,
    >)
        requires
            input_matches(*self, files@, input),
            files@.len() <= i32::MAX,
            total_size(files@) <= u64::MAX,
        ensures
            execute_post(*self, files@, input, r),
    {
        if self.dry_run {
            let result = dry_run_action(files);
            Ok(RotationOutcome { result, archive: None, appended: Vec::new() })
        } else {
            match self.action_type {
                ActionType::Delete => {
                    match input {
                        ActionInput::Removed(removed) => {
                            let result = delete_files_action(files, &removed);
                            Ok(RotationOutcome { result, archive: None, appended: Vec::new() })
                        },
                        _ => vstd::pervasive::unreached(),
                    }
                },
                ActionType::Archive => {
                    match input {
                        ActionInput::Contents(contents) => archive_files_action(files, &contents),
                        _ => vstd::pervasive::unreached(),
                    }
                },
            }
        }
    }
}

} // verus!
