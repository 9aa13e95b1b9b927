//! The workers that copy the files of a queue.

use vstd::prelude::*;

use super::walk::CopyError;

verus! {

/// The work that is due for one worker.
#[derive(Debug)]
pub enum WorkerStep {
    /// Take a file from the queue.
    Receive,
    /// Has any worker failed?
    CheckFailed,
    /// Wait as long as the work is paused.
    WaitWhilePaused,
    /// Create the directory the file goes to; failures do not matter.
    MakeParent,
    /// Copy the file.
    CopyFile,
    /// Mark the work as failed, and put the error down if it is the first.
    RaiseFailure { error: CopyError },
    /// Nothing.
    Finished,
}

/// What came of the work.
#[derive(Debug)]
pub enum WorkerReply {
    Done,
    Failed(CopyError),
    Answer(bool),
    /// There was a file in the queue.
    Task,
    /// The queue is empty and no file will come.
    Closed,
}

impl WorkerStep {
    /// Whether `reply` is an answer to the work of this step.
    pub open spec fn accepts(self, reply: WorkerReply) -> bool {
        match self {
            WorkerStep::Receive => reply is Task || reply is Closed,
            WorkerStep::CheckFailed => reply is Answer,
            WorkerStep::CopyFile => reply is Done || reply is Failed,
            WorkerStep::WaitWhilePaused
            | WorkerStep::MakeParent
            | WorkerStep::RaiseFailure { .. } => reply is Done,
            WorkerStep::Finished => false,
        }
    }

    /// The step that follows this one when its work came to `reply`.
    pub open spec fn after(self, reply: WorkerReply) -> WorkerStep {
        match self {
            WorkerStep::Receive => if reply is Task {
                WorkerStep::CheckFailed
            } else {
                WorkerStep::Finished
            },
            WorkerStep::CheckFailed => if reply == WorkerReply::Answer(true) {
                WorkerStep::Finished
            } else {
                WorkerStep::WaitWhilePaused
            },
            WorkerStep::WaitWhilePaused => WorkerStep::MakeParent,
            WorkerStep::MakeParent => WorkerStep::CopyFile,
            WorkerStep::CopyFile => match reply {
                WorkerReply::Failed(error) => WorkerStep::RaiseFailure { error },
                _ => WorkerStep::Receive,
            },
            WorkerStep::RaiseFailure { .. } | WorkerStep::Finished => WorkerStep::Finished,
        }
    }

    /// The step with which a worker begins.
    pub fn start() -> (r: WorkerStep)
        ensures
            r == WorkerStep::Receive,
    {
        WorkerStep::Receive
    }

    /// Takes what came of the work to the next step.
    pub fn next(self, reply: WorkerReply) -> (r: WorkerStep)
        requires
            self.accepts(reply),
        ensures
            r == self.after(reply),
    {
        match (self, reply) {
            (WorkerStep::Receive, WorkerReply::Task) => WorkerStep::CheckFailed,
            (WorkerStep::CheckFailed, WorkerReply::Answer(failed)) => {
                if failed {
                    WorkerStep::Finished
                } else {
                    WorkerStep::WaitWhilePaused
                }
            },
            (WorkerStep::WaitWhilePaused, _) => WorkerStep::MakeParent,
            (WorkerStep::MakeParent, _) => WorkerStep::CopyFile,
            (WorkerStep::CopyFile, WorkerReply::Failed(error)) => WorkerStep::RaiseFailure {
                error,
            },
            (WorkerStep::CopyFile, _) => WorkerStep::Receive,
            _ => WorkerStep::Finished,
        }
    }
}

/// What is put down of the errors of all workers, in the order in which they were raised.
pub open spec fn first_error(errors: Seq<CopyError>) -> Option<CopyError> {
    if errors.len() == 0 {
        None
    } else {
        Some(errors[0])
    }
}

/// What is put down when an error is raised: it is, if it is the first.
pub open spec fn kept_error(slot: Option<CopyError>, error: CopyError) -> Option<CopyError> {
    match slot {
        Some(earlier) => Some(earlier),
        None => Some(error),
    }
}

/// What copying with workers comes to, by what the walk came to and the error that was put
/// down.
pub open spec fn workers_result(
    walked: Result<(), CopyError>,
    slot: Option<CopyError>,
) -> Result<(), CopyError> {
    match (walked, slot) {
        (Err(error), _) => Err(error),
        (Ok(()), Some(error)) => Err(error),
        (Ok(()), None) => Ok(()),
    }
}

/// Puts an error down if it is the first.
pub fn keep_first(slot: Option<CopyError>, error: CopyError) -> (r: Option<CopyError>)
    ensures
        r == kept_error(slot, error),
{
    match slot {
        Some(earlier) => Some(earlier),
        None => Some(error),
    }
}

/// However many errors are raised, the first one stays.
pub proof fn law_first_error_stays(errors: Seq<CopyError>, error: CopyError)
    ensures
        first_error(errors.push(error)) == match first_error(errors) {
            Some(earlier) => Some(earlier),
            None => Some(error),
        },
{
}

/// What copying with workers comes to: the error of the walk, else the first error of a
/// worker, else success.
pub fn parallel_result(walked: Result<(), CopyError>, slot: Option<CopyError>) -> (r: Result<
    (),
    CopyError,
>)
    ensures
        r == workers_result(walked, slot),
{
    match walked {
        Err(error) => Err(error),
        Ok(()) => match slot {
            Some(error) => Err(error),
            None => Ok(()),
        },
    }
}

/// A worker whose copy failed raises that failure and takes no other file.
pub proof fn law_failed_worker_stops(reply: WorkerReply)
    requires
        reply is Failed,
    ensures
        WorkerStep::CopyFile.after(reply) == (WorkerStep::RaiseFailure {
            error: reply->Failed_0,
        }),
        WorkerStep::CopyFile.after(reply).after(WorkerReply::Done) == WorkerStep::Finished,
{
}

/// No step of a worker is due without its cause: a file is copied only when it was taken from
/// the queue, no worker had failed, the pause was over and its directory was made; a failure
/// that is raised is that of the copy; and a worker ends only when no file will come, or upon
/// a failure.
pub proof fn law_worker_step_has_cause(step: WorkerStep, reply: WorkerReply)
    requires
        step.accepts(reply),
    ensures
        match step.after(reply) {
            WorkerStep::Receive => step is CopyFile && reply is Done,
            WorkerStep::CheckFailed => step is Receive && reply is Task,
            WorkerStep::WaitWhilePaused => step is CheckFailed && reply == WorkerReply::Answer(
                false,
            ),
            WorkerStep::MakeParent => step is WaitWhilePaused,
            WorkerStep::CopyFile => step is MakeParent,
            WorkerStep::RaiseFailure { error } => step is CopyFile && reply
                == WorkerReply::Failed(error),
            WorkerStep::Finished => {
                ||| step is Receive && reply is Closed
                ||| step is CheckFailed && reply == WorkerReply::Answer(true)
                ||| step is RaiseFailure
            },
        },
{
}

/// What is put down when the errors were raised one after the other.
pub open spec fn put_down(errors: Seq<CopyError>) -> Option<CopyError>
    decreases errors.len(),
{
    if errors.len() == 0 {
        None
    } else {
        kept_error(put_down(errors.drop_last()), errors.last())
    }
}

/// Of all errors that are raised, the first is the one that was put down.
pub proof fn law_first_error_is_put_down(errors: Seq<CopyError>)
    requires
        errors.len() > 0,
    ensures
        put_down(errors) == Some(errors[0]),
        put_down(errors) == first_error(errors),
    decreases errors.len(),
{
    if errors.len() > 1 {
        law_first_error_is_put_down(errors.drop_last());
    } else {
        assert(put_down(errors.drop_last()) is None);
    }
}

/// Copying with workers succeeds exactly if the walk succeeded and no error was put down; the
/// error of the walk goes before that of a worker.
pub proof fn law_parallel_result_is_exact(walked: Result<(), CopyError>, slot: Option<CopyError>)
    ensures
        workers_result(walked, slot) is Ok <==> walked is Ok && slot is None,
        walked is Err ==> workers_result(walked, slot) == walked,
        walked is Ok && slot is Some ==> workers_result(walked, slot) == Err::<(), CopyError>(
            slot->0,
        ),
{
}

} // verus!
