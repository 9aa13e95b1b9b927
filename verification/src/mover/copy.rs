//! Copying a directory tree, file by file.

use vstd::prelude::*;
use vstd::string::*;
use vstd::utf8::is_ascii_chars;

use super::{Mover, OsFailure};
use crate::text::{
    ascii_lower, contains, contains_text, equal_but_for_case, law_case_is_folded,
    law_contained_text_has_sides, one_letter, same_but_for_case,
};

verus! {

/// How a tree is copied.
#[derive(Clone, Copy, PartialEq, Eq, Structural, Debug)]
pub enum CopyMode {
    /// File after file.
    Sequential,
    /// By workers that take their files from a queue.
    Parallel { workers: usize, queue: usize },
}

/// The length of the queue for a number of workers: 256 files for each, and at least 256.
pub open spec fn queue_length(workers: usize) -> int {
    if workers == 0 {
        256
    } else if workers * 256 > usize::MAX {
        usize::MAX as int
    } else {
        workers * 256
    }
}

/// How a tree is copied with a number of workers.
pub open spec fn copy_mode(parallelism: usize) -> CopyMode {
    if parallelism <= 1 {
        CopyMode::Sequential
    } else {
        CopyMode::Parallel { workers: parallelism, queue: queue_length(parallelism) as usize }
    }
}

impl Mover {
    /// The length of the queue for `workers` workers.
    pub fn queue_capacity(workers: usize) -> (r: usize)
        ensures
            r == queue_length(workers),
    {
        if workers == 0 {
            256
        } else if workers > usize::MAX / 256 {
            usize::MAX
        } else {
            workers * 256
        }
    }

    /// How a tree is copied with the given number of workers: more than one work in parallel.
    pub fn copy_dir_all_auto(parallelism: usize) -> (r: CopyMode)
        ensures
            r == copy_mode(parallelism),
    {
        if parallelism <= 1 {
            CopyMode::Sequential
        } else {
            CopyMode::Parallel { workers: parallelism, queue: Mover::queue_capacity(parallelism) }
        }
    }
}

/// The lower case of a text, as `str::to_lowercase` gives it.
pub uninterp spec fn lowercase(text: Seq<char>) -> Seq<char>;

/// A text with its ASCII letters in lower case.
pub open spec fn ascii_lowercase(text: Seq<char>) -> Seq<char> {
    text.map_values(|c: char| ascii_lower(c))
}

/// `str::to_lowercase`: the lower case of a text by the rules of Unicode. What these
/// rules make of a text is only named, but for a text of ASCII characters, in which the
/// letters `A` to `Z` become `a` to `z` and nothing else changes.
#[verifier::external_body]
fn to_lowercase(text: &str) -> (r: String)
    ensures
        r@ == lowercase(text@),
        is_ascii_chars(text@) ==> r@ == ascii_lowercase(text@),
{
    text.to_lowercase()
}

/// Whether a locked file can be left out of a copy: it is the lock file of a LevelDB
/// database, which is made anew when the database is opened. `lower` is its path in
/// lower case.
pub open spec fn is_leveldb_lock(file_name: Option<&str>, lower: Seq<char>) -> bool {
    &&& file_name is Some
    &&& same_but_for_case(file_name->0@, "LOCK"@)
    &&& contains(lower, "\\leveldb\\"@)
}

impl Mover {
    /// Whether a locked file can be left out of a copy, by its name and its path in lower case.
    pub fn is_lock_in_leveldb(file_name: Option<&str>, lower: &str) -> (r: bool)
        ensures
            r == is_leveldb_lock(file_name, lower@),
    {
        match file_name {
            Some(name) => equal_but_for_case(name, "LOCK") && contains_text(
                lower,
                "\\leveldb\\",
            ),
            None => false,
        }
    }

    /// Whether a locked file can be left out of a copy, by its name and its path.
    pub fn is_safe_to_skip_on_lock(file_name: Option<&str>, path: &str) -> (r: bool)
        ensures
            r == is_leveldb_lock(file_name, lowercase(path@)),
            is_ascii_chars(path@) ==> r == is_leveldb_lock(file_name, ascii_lowercase(path@)),
    {
        let lower = to_lowercase(path);
        Mover::is_lock_in_leveldb(file_name, lower.as_str())
    }
}

/// How often a file is copied before its failure counts.
pub const COPY_TRIES: u32 = 3;

/// The pause before a file is copied again, in milliseconds.
pub const COPY_PAUSE_MS: u64 = 300;

/// A file to copy.
#[derive(Clone, Copy, PartialEq, Eq, Structural, Debug)]
pub struct FileJob {
    /// Its length.
    pub size: u64,
    /// When it was last changed, in seconds.
    pub modified: u64,
    /// Whether it can be left out if it is locked.
    pub skippable: bool,
}

/// What stands where a file is copied to.
#[derive(Clone, Copy, PartialEq, Eq, Structural, Debug)]
pub struct TargetFile {
    pub is_file: bool,
    pub size: u64,
    pub modified: u64,
}

/// What became of a file.
#[derive(Clone, Copy, PartialEq, Eq, Structural, Debug)]
pub enum FileOutcome {
    /// The same file was there already.
    UpToDate,
    Copied,
    /// It was locked and left out.
    Skipped,
}

/// The work that is due.
#[derive(Debug)]
pub enum FileStep {
    /// What stands where the file is copied to? `None` where that cannot be told.
    ProbeTarget,
    /// Copy the file.
    Copy { attempt: u32 },
    /// Pause before the next attempt.
    Pause { attempt: u32 },
    /// Report the file's length as progress.
    Report { outcome: FileOutcome },
    /// Nothing.
    Finished(Result<FileOutcome, OsFailure>),
}

/// What came of the work.
#[derive(Debug)]
pub enum FileReply {
    Done,
    Failed(OsFailure),
    Target(Option<TargetFile>),
}

impl FileStep {
    /// Whether `reply` is an answer to the work of this step.
    pub open spec fn accepts(self, reply: FileReply) -> bool {
        match self {
            FileStep::ProbeTarget => reply is Target,
            FileStep::Copy { .. } => reply is Done || reply is Failed,
            FileStep::Pause { .. } | FileStep::Report { .. } => reply is Done,
            FileStep::Finished(_) => false,
        }
    }

    /// Whether a step can occur: its attempt is in range.
    pub open spec fn in_range(self) -> bool {
        match self {
            FileStep::Copy { attempt } => attempt < COPY_TRIES,
            FileStep::Pause { attempt } => 1 <= attempt < COPY_TRIES,
            _ => true,
        }
    }
}

/// Whether what stands at the target is the file already: a file of the same length,
/// changed in the same second.
pub open spec fn is_same_file(job: FileJob, target: Option<TargetFile>) -> bool {
    target == Some(TargetFile { is_file: true, size: job.size, modified: job.modified })
}

/// Whether a failure can come from a lock: a sharing violation, a lock violation, or
/// denied access.
pub open spec fn may_be_locked(failure: OsFailure) -> bool {
    failure.code == Some(32i32) || failure.code == Some(33i32) || failure.code == Some(5i32)
}

/// The step that follows `step` when its work came to `reply`.
pub open spec fn file_next(job: FileJob, step: FileStep, reply: FileReply) -> FileStep {
    match step {
        FileStep::ProbeTarget => if is_same_file(job, reply->Target_0) {
            FileStep::Report { outcome: FileOutcome::UpToDate }
        } else {
            FileStep::Copy { attempt: 0 }
        },
        FileStep::Copy { attempt } => match reply {
            FileReply::Failed(failure) => if may_be_locked(failure) && job.skippable {
                FileStep::Report { outcome: FileOutcome::Skipped }
            } else if may_be_locked(failure) && attempt + 1 < COPY_TRIES {
                FileStep::Pause { attempt: (attempt + 1) as u32 }
            } else {
                FileStep::Finished(Err(failure))
            },
            _ => FileStep::Finished(Ok(FileOutcome::Copied)),
        },
        FileStep::Pause { attempt } => FileStep::Copy { attempt },
        FileStep::Report { outcome } => FileStep::Finished(Ok(outcome)),
        FileStep::Finished(result) => FileStep::Finished(result),
    }
}

fn looks_locked(failure: &OsFailure) -> (r: bool)
    ensures
        r == may_be_locked(*failure),
{
    match failure.code {
        Some(code) => code == 32 || code == 33 || code == 5,
        None => false,
    }
}

impl FileJob {
    /// Whether what stands at the target is the file already.
    pub fn is_up_to_date(&self, target: Option<TargetFile>) -> (r: bool)
        ensures
            r == is_same_file(*self, target),
    {
        match target {
            Some(there) => there.is_file && there.size == self.size && there.modified
                == self.modified,
            None => false,
        }
    }

    /// The step with which the work begins.
    pub fn start(&self) -> (r: FileStep)
        ensures
            r == FileStep::ProbeTarget,
            r == file_run(*self, Seq::empty()),
            r.in_range(),
    {
        FileStep::ProbeTarget
    }

    /// Takes what came of the work of `step` to the next step.
    pub fn next(&self, step: FileStep, reply: FileReply) -> (r: FileStep)
        requires
            step.in_range(),
            step.accepts(reply),
        ensures
            r == file_next(*self, step, reply),
            r.in_range(),
    {
        match (step, reply) {
            (FileStep::ProbeTarget, FileReply::Target(target)) => {
                if self.is_up_to_date(target) {
                    FileStep::Report { outcome: FileOutcome::UpToDate }
                } else {
                    FileStep::Copy { attempt: 0 }
                }
            },
            (FileStep::Copy { attempt }, FileReply::Failed(failure)) => {
                if !looks_locked(&failure) {
                    FileStep::Finished(Err(failure))
                } else if self.skippable {
                    FileStep::Report { outcome: FileOutcome::Skipped }
                } else if attempt + 1 < COPY_TRIES {
                    FileStep::Pause { attempt: attempt + 1 }
                } else {
                    FileStep::Finished(Err(failure))
                }
            },
            (FileStep::Copy { .. }, _) => FileStep::Finished(Ok(FileOutcome::Copied)),
            (FileStep::Pause { attempt }, _) => FileStep::Copy { attempt },
            (FileStep::Report { outcome }, _) => FileStep::Finished(Ok(outcome)),
            (step, _) => step,
        }
    }
}

/// The step that is reached from the start by `replies`.
pub open spec fn file_run(job: FileJob, replies: Seq<FileReply>) -> FileStep
    decreases replies.len(),
{
    if replies.len() == 0 {
        FileStep::ProbeTarget
    } else {
        file_next(job, file_run(job, replies.drop_last()), replies.last())
    }
}

/// Whether each of `replies` answers the work that was due.
pub open spec fn file_answers(job: FileJob, replies: Seq<FileReply>) -> bool
    decreases replies.len(),
{
    replies.len() == 0 || {
        &&& file_answers(job, replies.drop_last())
        &&& file_run(job, replies.drop_last()).accepts(replies.last())
    }
}

/// How many of the replies came from copying the file.
pub open spec fn copies_made(job: FileJob, replies: Seq<FileReply>) -> nat
    decreases replies.len(),
{
    if replies.len() == 0 {
        0
    } else {
        copies_made(job, replies.drop_last()) + if file_run(job, replies.drop_last()) is Copy {
            1nat
        } else {
            0nat
        }
    }
}

/// A file is copied at most three times: once for each attempt that was counted.
pub proof fn law_file_tries_are_bounded(job: FileJob, replies: Seq<FileReply>)
    requires
        file_answers(job, replies),
    ensures
        copies_made(job, replies) <= COPY_TRIES,
        file_run(job, replies).in_range(),
        match file_run(job, replies) {
            FileStep::ProbeTarget => copies_made(job, replies) == 0,
            FileStep::Copy { attempt } | FileStep::Pause { attempt } => copies_made(job, replies)
                == attempt,
            _ => true,
        },
    decreases replies.len(),
{
    if replies.len() > 0 {
        law_file_tries_are_bounded(job, replies.drop_last());
    }
}

/// A file that counts as done is at the target, or was left out as a locked file that may
/// be: it was there already, or the last copy worked, or a copy failed for a lock.
pub proof fn law_file_outcome_is_true(job: FileJob, replies: Seq<FileReply>)
    requires
        file_answers(job, replies),
        file_run(job, replies) matches FileStep::Finished(Ok(_)),
    ensures
        match file_run(job, replies)->Finished_0->Ok_0 {
            FileOutcome::UpToDate => is_same_file(job, replies[0]->Target_0),
            FileOutcome::Copied => replies.last() is Done && file_run(job, replies.drop_last())
                is Copy,
            FileOutcome::Skipped => job.skippable && exists|i: int|
                0 <= i < replies.len() && (#[trigger] replies[i]) is Failed && may_be_locked(
                    replies[i]->Failed_0,
                ),
        },
{
    let before = replies.drop_last();
    match file_run(job, before) {
        FileStep::Report { outcome } => {
            let earlier = before.drop_last();
            assert(before.last() == replies[replies.len() - 2]);
            if outcome == FileOutcome::UpToDate {
                lemma_probe_is_first(job, earlier);
            }
        },
        _ => {
            assert(file_run(job, before) is Copy);
        },
    }
}

proof fn lemma_probe_is_first(job: FileJob, replies: Seq<FileReply>)
    requires
        file_answers(job, replies),
        file_run(job, replies) is ProbeTarget,
    ensures
        replies.len() == 0,
{
}

/// How often the file's length was reported as progress.
pub open spec fn reports_made(job: FileJob, replies: Seq<FileReply>) -> nat
    decreases replies.len(),
{
    if replies.len() == 0 {
        0
    } else {
        reports_made(job, replies.drop_last()) + if file_run(job, replies.drop_last()) is Report {
            1nat
        } else {
            0nat
        }
    }
}

/// A file that was not copied counts as progress all the same: its length is reported
/// exactly once if it was there already or was left out, and not at all if it was copied,
/// where the bytes are reported as they are written.
pub proof fn law_file_is_reported_once(job: FileJob, replies: Seq<FileReply>)
    requires
        file_answers(job, replies),
    ensures
        match file_run(job, replies) {
            FileStep::Finished(Ok(FileOutcome::UpToDate))
            | FileStep::Finished(Ok(FileOutcome::Skipped)) => reports_made(job, replies) == 1,
            _ => reports_made(job, replies) == 0,
        },
        file_run(job, replies) matches FileStep::Report { outcome } ==> outcome
            != FileOutcome::Copied,
    decreases replies.len(),
{
    if replies.len() > 0 {
        law_file_is_reported_once(job, replies.drop_last());
    }
}

/// Whether a file of the job's very length and its very time of change was found.
pub open spec fn found_twin(job: FileJob, reply: FileReply) -> bool {
    match reply {
        FileReply::Target(Some(there)) => {
            &&& there.is_file
            &&& there.size == job.size
            &&& there.modified == job.modified
        },
        _ => false,
    }
}

/// A file counts as there already exactly if a file of its very length and its very time of
/// change stands at the target. Whatever else stands there, also one that was changed later or
/// earlier, the file is copied.
pub proof fn law_up_to_date_is_exact(job: FileJob, there: TargetFile)
    ensures
        there.is_file && there.size == job.size && there.modified == job.modified ==> file_next(
            job,
            FileStep::ProbeTarget,
            FileReply::Target(Some(there)),
        ) == (FileStep::Report { outcome: FileOutcome::UpToDate }),
        !there.is_file || there.size != job.size || there.modified != job.modified ==> file_next(
            job,
            FileStep::ProbeTarget,
            FileReply::Target(Some(there)),
        ) == (FileStep::Copy { attempt: 0 }),
        file_next(job, FileStep::ProbeTarget, FileReply::Target(None)) == (FileStep::Copy {
            attempt: 0,
        }),
{
}

/// A file ends as there already exactly if a file of its very length and its very time of
/// change was found at the target.
pub proof fn law_file_ends_up_to_date(job: FileJob, replies: Seq<FileReply>)
    requires
        file_answers(job, replies),
        file_run(job, replies) is Finished,
    ensures
        (file_run(job, replies) == FileStep::Finished(Ok(FileOutcome::UpToDate))) == found_twin(
            job,
            replies[0],
        ),
{
    lemma_probe_decides(job, replies);
}

proof fn lemma_probe_decides(job: FileJob, replies: Seq<FileReply>)
    requires
        file_answers(job, replies),
        replies.len() > 0,
    ensures
        ({
            let same = found_twin(job, replies[0]);
            match file_run(job, replies) {
                FileStep::ProbeTarget => false,
                FileStep::Report { outcome } => same == (outcome == FileOutcome::UpToDate),
                FileStep::Finished(Ok(outcome)) => same == (outcome == FileOutcome::UpToDate),
                _ => !same,
            }
        }),
    decreases replies.len(),
{
    let shorter = replies.drop_last();
    if shorter.len() > 0 {
        lemma_probe_decides(job, shorter);
        assert(shorter[0] == replies[0]);
    } else {
        assert(file_run(job, shorter) is ProbeTarget);
        assert(replies.last() == replies[0]);
    }
}

/// Whether the code of a failure is that of denied access, of a sharing violation or of a lock
/// violation.
pub open spec fn has_lock_code(failure: OsFailure) -> bool {
    failure.code matches Some(code) && (code == 5 || code == 32 || code == 33)
}

/// No step is due without its cause: a file is left out only where that is allowed and a lock
/// may be why it cannot be copied, it is tried again only for a lock and at most twice, and a
/// failure that is told is that of the last copy.
pub proof fn law_file_step_has_cause(job: FileJob, step: FileStep, reply: FileReply)
    requires
        step.accepts(reply),
        step.in_range(),
    ensures
        match file_next(job, step, reply) {
            FileStep::ProbeTarget => false,
            FileStep::Copy { attempt } => if attempt == 0 {
                step is ProbeTarget && !found_twin(job, reply)
            } else {
                step == FileStep::Pause { attempt }
            },
            FileStep::Pause { attempt } => {
                &&& 1 <= attempt <= 2
                &&& step == FileStep::Copy { attempt: (attempt - 1) as u32 }
                &&& reply matches FileReply::Failed(failure) && has_lock_code(failure)
                &&& !job.skippable
            },
            FileStep::Report { outcome } => match outcome {
                FileOutcome::UpToDate => step is ProbeTarget && found_twin(job, reply),
                FileOutcome::Copied => step == FileStep::Report { outcome },
                FileOutcome::Skipped => {
                    &&& step is Copy
                    &&& reply matches FileReply::Failed(failure) && has_lock_code(failure)
                    &&& job.skippable
                },
            },
            FileStep::Finished(Ok(outcome)) => {
                ||| step is Copy && reply is Done && outcome == FileOutcome::Copied
                ||| step == FileStep::Report { outcome }
            },
            FileStep::Finished(Err(failure)) => {
                &&& step matches FileStep::Copy { attempt } && (!has_lock_code(failure) || (
                !job.skippable && attempt == 2))
                &&& reply == FileReply::Failed(failure)
            },
        },
{
}

/// The step that a file reaches when nothing like it stands at the target and its copies come
/// to `copies`.
pub open spec fn copies_lead_to(
    job: FileJob,
    attempt: u32,
    copies: Seq<Result<(), OsFailure>>,
) -> FileStep
    decreases copies.len(),
{
    let step = FileStep::Copy { attempt };
    if copies.len() == 0 {
        step
    } else {
        let next = file_next(
            job,
            step,
            match copies[0] {
                Ok(_) => FileReply::Done,
                Err(failure) => FileReply::Failed(failure),
            },
        );
        match next {
            FileStep::Pause { attempt: _ } => match file_next(job, next, FileReply::Done) {
                FileStep::Copy { attempt: next_attempt } => copies_lead_to(
                    job,
                    next_attempt,
                    copies.skip(1),
                ),
                other => other,
            },
            FileStep::Report { .. } => file_next(job, next, FileReply::Done),
            other => other,
        }
    }
}

/// A file that is locked for a while is copied all the same: the first of three copies that
/// works, or fails for another reason than a lock, decides; a lock that stays is the failure,
/// but for a file that may be left out, which is left out at its first lock.
pub proof fn law_three_copies_decide(
    job: FileJob,
    first: Result<(), OsFailure>,
    second: Result<(), OsFailure>,
    third: Result<(), OsFailure>,
)
    ensures
        copies_lead_to(job, 0, seq![first, second, third]) == FileStep::Finished(
            match (first, second, third) {
                (Ok(_), _, _) => Ok(FileOutcome::Copied),
                (Err(failure), _, _) if !has_lock_code(failure) => Err(failure),
                (Err(_), _, _) if job.skippable => Ok(FileOutcome::Skipped),
                (_, Ok(_), _) => Ok(FileOutcome::Copied),
                (_, Err(failure), _) if !has_lock_code(failure) => Err(failure),
                (_, _, Ok(_)) => Ok(FileOutcome::Copied),
                (_, _, Err(failure)) => Err(failure),
            },
        ),
{
    let all = seq![first, second, third];
    assert(all.skip(1) =~= seq![second, third]);
    assert(all.skip(1).skip(1) =~= seq![third]);
    reveal_with_fuel(copies_lead_to, 4);
}

/// The queue has room for 256 files of each worker, and for 256 files if there is no worker;
/// where a length cannot count so many, it is the greatest length.
pub proof fn law_queue_has_room(workers: usize)
    ensures
        queue_length(workers) >= 256,
        queue_length(workers) <= usize::MAX,
        workers >= 1 ==> queue_length(workers) <= 256 * workers,
        workers == 0 ==> queue_length(workers) == queue_length(1),
        queue_length(workers) < 256 * workers ==> queue_length(workers) == usize::MAX,
        256 * workers <= usize::MAX && workers >= 1 ==> queue_length(workers) == 256 * workers,
{
}

/// With two workers or more a tree is copied in parallel, by all of them, over a queue with
/// room for 256 files of each; with fewer it is copied file after file.
pub proof fn law_more_workers_work_in_parallel(parallelism: usize)
    ensures
        copy_mode(parallelism) is Parallel <==> parallelism >= 2,
        copy_mode(parallelism) matches CopyMode::Parallel { workers, queue } ==> workers
            == parallelism && (queue == 256 * parallelism || (queue == usize::MAX && 256
            * parallelism > usize::MAX)),
{
}

/// Whether a text is the name LOCK, in whatever case.
pub open spec fn says_lock(name: Seq<char>) -> bool {
    &&& name.len() == 4
    &&& name[0] == 'L' || name[0] == 'l'
    &&& name[1] == 'O' || name[1] == 'o'
    &&& name[2] == 'C' || name[2] == 'c'
    &&& name[3] == 'K' || name[3] == 'k'
}

/// A locked file is left out only if it is named LOCK, in whatever case, and its path holds
/// a directory leveldb.
pub proof fn law_only_leveldb_locks_are_left_out(file_name: Option<&str>, lower: Seq<char>)
    requires
        is_leveldb_lock(file_name, lower),
    ensures
        file_name is Some,
        says_lock(file_name->0@),
        exists|at: int|
            0 <= at <= lower.len() - 9 && lower == #[trigger] lower.take(at) + "\\leveldb\\"@
                + lower.skip(at + 9),
{
    reveal_strlit("LOCK");
    reveal_strlit("\\leveldb\\");
    law_case_is_folded(file_name->0@, "LOCK"@);
    assert("\\leveldb\\"@.len() == 9);
    law_contained_text_has_sides(lower, lower, "\\leveldb\\"@, lower);
    let name = file_name->0@;
    assert(one_letter(name[0], 'L') && one_letter(name[1], 'O') && one_letter(name[2], 'C')
        && one_letter(name[3], 'K'));
}

/// Each file that is named LOCK, in whatever case, in a path that holds a directory leveldb
/// can be left out.
pub proof fn law_leveldb_locks_can_be_left_out(
    file_name: Option<&str>,
    before: Seq<char>,
    after: Seq<char>,
)
    requires
        file_name is Some,
        says_lock(file_name->0@),
    ensures
        is_leveldb_lock(file_name, before + "\\leveldb\\"@ + after),
{
    reveal_strlit("LOCK");
    let name = file_name->0@;
    law_contained_text_has_sides(before, before, "\\leveldb\\"@, after);
    assert forall|i: int| 0 <= i < name.len() implies one_letter(#[trigger] name[i], "LOCK"@[i]) by {
        assert(i == 0 || i == 1 || i == 2 || i == 3);
    }
    law_case_is_folded(name, "LOCK"@);
}

} // verus!
