//! Bringing a moved folder back to where it was.

use std::path::PathBuf;

use vstd::prelude::*;
use vstd::string::*;

use super::migrate::{
    concludes, copied, law_forgotten_move_leaves_no_record, law_move_keeps_folder, move_history,
    move_run, Batch, MoveDisk, MoveError, MoveJob, MoveReply, MoveStep, Moved,
};
use super::{Mover, OsFailure, PathKind, Slot};
use crate::history::{without_id, MigrationRecord};
use crate::text::{contains, law_contained_text_has_sides};

verus! {

/// How to bring a folder back.
#[derive(Clone, Copy, PartialEq, Eq, Structural, Debug)]
pub struct RestoreJob {
    /// Whether the folder's old path has a parent.
    pub has_parent: bool,
    /// Whether processes that hold the folder may be ended.
    pub auto_kill: bool,
}

/// Why a folder was not brought back.
#[derive(Debug)]
pub enum RestoreError {
    TargetMissing,
    /// The junction could not be removed.
    LinkNotRemoved(OsFailure),
    /// A real directory stands in the folder's old place.
    SourceOccupied,
    ParentNotCreated,
    PartialNotCreated,
    CopyFailed,
    PartialNotRenamed,
}

/// The work that is due.
#[derive(Debug)]
pub enum RestoreStep {
    /// Does the target exist?
    FindTarget,
    /// Which processes hold the folder's old place? An error counts as none.
    FindLockers,
    /// End these processes; failures do not matter.
    Kill { pids: Vec<u32> },
    /// What is in the folder's old place?
    ProbeSource,
    /// Remove the junction.
    RemoveLink,
    /// Does the parent of the old place exist?
    FindParent,
    /// Create the parent.
    CreateParent,
    /// Rename the target to the old place.
    RenameBack,
    /// Is there a partial copy of an earlier attempt?
    ProbePartial,
    /// Remove the partial copy; failures do not matter.
    RemovePartial,
    /// Create the directory for the partial copy.
    CreatePartial,
    /// Copy the target to it.
    CopyToPartial,
    /// Remove the partial copy after a failure; failures do not matter.
    DropPartial,
    /// Rename the complete copy to the old place.
    RenamePartial,
    /// Remove the target; failures do not matter.
    RemoveTarget,
    /// Take the folder's record out of the history.
    ForgetRecord,
    /// Nothing.
    Finished(Result<(), RestoreError>),
}

/// What is in the folder's old place.
#[derive(Clone, Copy, PartialEq, Eq, Structural, Debug)]
pub enum SourceKind {
    /// A link, and what it leads to exists.
    Link,
    /// Something that is no link.
    Plain(PathKind),
}

/// What came of the work.
#[derive(Debug)]
pub enum RestoreReply {
    Done,
    Failed(OsFailure),
    Answer(bool),
    Source(SourceKind),
    Pids(Vec<u32>),
}

impl RestoreStep {
    /// Whether `reply` is an answer to the work of this step.
    pub open spec fn accepts(self, reply: RestoreReply) -> bool {
        match self {
            RestoreStep::FindTarget | RestoreStep::FindParent | RestoreStep::ProbePartial => reply
                is Answer,
            RestoreStep::FindLockers => reply is Pids,
            RestoreStep::ProbeSource => reply is Source,
            RestoreStep::RemoveLink
            | RestoreStep::CreateParent
            | RestoreStep::RenameBack
            | RestoreStep::CreatePartial
            | RestoreStep::CopyToPartial
            | RestoreStep::RenamePartial => reply is Done || reply is Failed,
            RestoreStep::Kill { .. }
            | RestoreStep::RemovePartial
            | RestoreStep::DropPartial
            | RestoreStep::RemoveTarget
            | RestoreStep::ForgetRecord => reply is Done,
            RestoreStep::Finished(_) => false,
        }
    }
}

/// The step once the old place is free.
pub open spec fn place_is_free(job: RestoreJob) -> RestoreStep {
    if job.has_parent {
        RestoreStep::FindParent
    } else {
        RestoreStep::RenameBack
    }
}

/// The step that follows `step` when its work came to `reply`.
pub open spec fn restore_next(
    job: RestoreJob,
    step: RestoreStep,
    reply: RestoreReply,
) -> RestoreStep {
    let worked = reply is Done;
    let fail = |error: RestoreError| RestoreStep::Finished(Err(error));
    match step {
        RestoreStep::FindTarget => if reply == RestoreReply::Answer(false) {
            fail(RestoreError::TargetMissing)
        } else if job.auto_kill {
            RestoreStep::FindLockers
        } else {
            RestoreStep::ProbeSource
        },
        RestoreStep::FindLockers => RestoreStep::Kill { pids: reply->Pids_0 },
        RestoreStep::Kill { .. } => RestoreStep::ProbeSource,
        RestoreStep::ProbeSource => match reply->Source_0 {
            SourceKind::Link => RestoreStep::RemoveLink,
            SourceKind::Plain(PathKind::Directory) => fail(RestoreError::SourceOccupied),
            SourceKind::Plain(_) => place_is_free(job),
        },
        RestoreStep::RemoveLink => match reply {
            RestoreReply::Failed(failure) => fail(RestoreError::LinkNotRemoved(failure)),
            _ => place_is_free(job),
        },
        RestoreStep::FindParent => if reply == RestoreReply::Answer(true) {
            RestoreStep::RenameBack
        } else {
            RestoreStep::CreateParent
        },
        RestoreStep::CreateParent => if worked {
            RestoreStep::RenameBack
        } else {
            fail(RestoreError::ParentNotCreated)
        },
        RestoreStep::RenameBack => if worked {
            RestoreStep::ForgetRecord
        } else {
            RestoreStep::ProbePartial
        },
        RestoreStep::ProbePartial => if reply == RestoreReply::Answer(true) {
            RestoreStep::RemovePartial
        } else {
            RestoreStep::CreatePartial
        },
        RestoreStep::RemovePartial => RestoreStep::CreatePartial,
        RestoreStep::CreatePartial => if worked {
            RestoreStep::CopyToPartial
        } else {
            fail(RestoreError::PartialNotCreated)
        },
        RestoreStep::CopyToPartial => if worked {
            RestoreStep::RenamePartial
        } else {
            RestoreStep::DropPartial
        },
        RestoreStep::DropPartial => fail(RestoreError::CopyFailed),
        RestoreStep::RenamePartial => if worked {
            RestoreStep::RemoveTarget
        } else {
            fail(RestoreError::PartialNotRenamed)
        },
        RestoreStep::RemoveTarget => RestoreStep::ForgetRecord,
        RestoreStep::ForgetRecord => RestoreStep::Finished(Ok(())),
        RestoreStep::Finished(result) => RestoreStep::Finished(result),
    }
}

impl Mover {
    /// Begins to bring a folder back: the job, and its first step.
    pub fn restore_migration(has_parent: bool, auto_kill: bool) -> (r: (RestoreJob, RestoreStep))
        ensures
            r.0 == (RestoreJob { has_parent, auto_kill }),
            r.1 == RestoreStep::FindTarget,
            r.1 == restore_run(r.0, Seq::empty()),
    {
        (RestoreJob { has_parent, auto_kill }, RestoreStep::FindTarget)
    }
}

impl RestoreJob {
    fn free(&self) -> (r: RestoreStep)
        ensures
            r == place_is_free(*self),
    {
        if self.has_parent {
            RestoreStep::FindParent
        } else {
            RestoreStep::RenameBack
        }
    }

    /// Takes what came of the work of `step` to the next step.
    pub fn next(&self, step: RestoreStep, reply: RestoreReply) -> (r: RestoreStep)
        requires
            step.accepts(reply),
        ensures
            r == restore_next(*self, step, reply),
    {
        match (step, reply) {
            (RestoreStep::FindTarget, RestoreReply::Answer(there)) => {
                if !there {
                    RestoreStep::Finished(Err(RestoreError::TargetMissing))
                } else if self.auto_kill {
                    RestoreStep::FindLockers
                } else {
                    RestoreStep::ProbeSource
                }
            },
            (RestoreStep::FindLockers, RestoreReply::Pids(pids)) => RestoreStep::Kill { pids },
            (RestoreStep::Kill { .. }, _) => RestoreStep::ProbeSource,
            (RestoreStep::ProbeSource, RestoreReply::Source(kind)) => match kind {
                SourceKind::Link => RestoreStep::RemoveLink,
                SourceKind::Plain(PathKind::Directory) => RestoreStep::Finished(
                    Err(RestoreError::SourceOccupied),
                ),
                SourceKind::Plain(_) => self.free(),
            },
            (RestoreStep::RemoveLink, RestoreReply::Failed(failure)) => RestoreStep::Finished(
                Err(RestoreError::LinkNotRemoved(failure)),
            ),
            (RestoreStep::RemoveLink, _) => self.free(),
            (RestoreStep::FindParent, RestoreReply::Answer(there)) => {
                if there {
                    RestoreStep::RenameBack
                } else {
                    RestoreStep::CreateParent
                }
            },
            (RestoreStep::CreateParent, RestoreReply::Done) => RestoreStep::RenameBack,
            (RestoreStep::CreateParent, _) => RestoreStep::Finished(
                Err(RestoreError::ParentNotCreated),
            ),
            (RestoreStep::RenameBack, RestoreReply::Done) => RestoreStep::ForgetRecord,
            (RestoreStep::RenameBack, _) => RestoreStep::ProbePartial,
            (RestoreStep::ProbePartial, RestoreReply::Answer(there)) => {
                if there {
                    RestoreStep::RemovePartial
                } else {
                    RestoreStep::CreatePartial
                }
            },
            (RestoreStep::RemovePartial, _) => RestoreStep::CreatePartial,
            (RestoreStep::CreatePartial, RestoreReply::Done) => RestoreStep::CopyToPartial,
            (RestoreStep::CreatePartial, _) => RestoreStep::Finished(
                Err(RestoreError::PartialNotCreated),
            ),
            (RestoreStep::CopyToPartial, RestoreReply::Done) => RestoreStep::RenamePartial,
            (RestoreStep::CopyToPartial, _) => RestoreStep::DropPartial,
            (RestoreStep::DropPartial, _) => RestoreStep::Finished(Err(RestoreError::CopyFailed)),
            (RestoreStep::RenamePartial, RestoreReply::Done) => RestoreStep::RemoveTarget,
            (RestoreStep::RenamePartial, _) => RestoreStep::Finished(
                Err(RestoreError::PartialNotRenamed),
            ),
            (RestoreStep::RemoveTarget, _) => RestoreStep::ForgetRecord,
            (RestoreStep::ForgetRecord, _) => RestoreStep::Finished(Ok(())),
            (step, _) => step,
        }
    }
}

/// Whether the last part of a path can be cut at the dot at position `at`: it is the last
/// dot, and it does not begin the name.
pub open spec fn is_last_dot(name: Seq<char>, at: int) -> bool {
    &&& 0 < at < name.len()
    &&& name[at] == '.'
    &&& forall|i: int| at < i < name.len() ==> name[i] != '.'
}

/// A file name without its extension: what stands before the last dot, or all of it
/// where it has no dot or only one at its beginning.
pub open spec fn file_stem(name: Seq<char>) -> Seq<char> {
    if exists|at: int| is_last_dot(name, at) {
        name.take(choose|at: int| is_last_dot(name, at))
    } else {
        name
    }
}

/// The name of the directory for the partial copy of a folder that is brought back: its
/// extension, where it has one, gives way.
pub open spec fn partial_restore_name(name: Seq<char>) -> Seq<char> {
    file_stem(name) + ".partial_restore"@
}

impl RestoreJob {
    /// The name of the directory for the partial copy of the folder `name`, which is the
    /// last part of a path.
    pub fn partial_file_name(name: &str) -> (r: String)
        ensures
            r@ == partial_restore_name(name@),
    {
        let chars = crate::text::chars_of(name);
        let mut at: usize = chars.len();
        while at > 0
            invariant
                at <= chars@.len(),
                chars@ == name@,
                forall|i: int| at <= i < name@.len() ==> name@[i] != '.',
            ensures
                at == 0 || is_last_dot(name@, at - 1) || (at == 1 && name@.len() > 0 && name@[0]
                    == '.'),
                at <= chars@.len(),
                forall|i: int| at <= i < name@.len() ==> name@[i] != '.',
            decreases at,
        {
            if chars[at - 1] == '.' {
                break;
            }
            at -= 1;
        }
        if at > 1 {
            let ghost dot = at - 1;
            assert(is_last_dot(name@, dot));
            assert(forall|k: int| is_last_dot(name@, k) ==> k == dot);
            let stem = name.substring_char(0, at - 1);
            assert(stem@ =~= file_stem(name@));
            stem.to_owned().concat(".partial_restore")
        } else {
            assert(forall|k: int| !is_last_dot(name@, k));
            name.to_owned().concat(".partial_restore")
        }
    }
}

/// What a user is told of an error; `source` and `target` are the folder's paths.
pub open spec fn restore_message(
    error: RestoreError,
    source: Seq<char>,
    target: Seq<char>,
) -> Seq<char> {
    match error {
        RestoreError::TargetMissing => "移动目标文件 "@ + target
            + " 已经不存在，无法自动还原。建议直接移除失效快捷方式"@,
        RestoreError::LinkNotRemoved(failure) => "解除原来的连接失败: "@ + failure.text@,
        RestoreError::SourceOccupied => "还原位置 "@ + source
            + " 已包含非链接目录，为保护数据取消还原。请先手动清理"@,
        RestoreError::ParentNotCreated => "无法创建原路径父目录"@,
        RestoreError::PartialNotCreated => "无法创建临时还原目录"@,
        RestoreError::CopyFailed => "文件复制回原路径失败"@,
        RestoreError::PartialNotRenamed => "整理被还原的目录失败"@,
    }
}

impl RestoreError {
    /// What a user is told of the error; `source` and `target` are the folder's paths.
    pub fn message(&self, source: &str, target: &str) -> (r: String)
        ensures
            r@ == restore_message(*self, source@, target@),
    {
        match self {
            RestoreError::TargetMissing => {
                let mut r = "移动目标文件 ".to_owned();
                r.append(target);
                r.append(" 已经不存在，无法自动还原。建议直接移除失效快捷方式");
                r
            },
            RestoreError::LinkNotRemoved(failure) => "解除原来的连接失败: ".to_owned().concat(
                failure.text.as_str(),
            ),
            RestoreError::SourceOccupied => {
                let mut r = "还原位置 ".to_owned();
                r.append(source);
                r.append(" 已包含非链接目录，为保护数据取消还原。请先手动清理");
                r
            },
            RestoreError::ParentNotCreated => "无法创建原路径父目录".to_owned(),
            RestoreError::PartialNotCreated => "无法创建临时还原目录".to_owned(),
            RestoreError::CopyFailed => "文件复制回原路径失败".to_owned(),
            RestoreError::PartialNotRenamed => "整理被还原的目录失败".to_owned(),
        }
    }
}

/// The step that is reached from the start by `replies`.
pub open spec fn restore_run(job: RestoreJob, replies: Seq<RestoreReply>) -> RestoreStep
    decreases replies.len(),
{
    if replies.len() == 0 {
        RestoreStep::FindTarget
    } else {
        restore_next(job, restore_run(job, replies.drop_last()), replies.last())
    }
}

/// Whether each of `replies` answers the work that was due.
pub open spec fn restore_answers(job: RestoreJob, replies: Seq<RestoreReply>) -> bool
    decreases replies.len(),
{
    replies.len() == 0 || {
        &&& restore_answers(job, replies.drop_last())
        &&& restore_run(job, replies.drop_last()).accepts(replies.last())
    }
}

/// The places that the work touches.
pub struct RestoreDisk {
    /// The folder's old place.
    pub source: Slot,
    pub target: Slot,
    pub partial: Slot,
}

/// What the work of `step` can do to the disk when it came to `reply`.
///
/// A rename moves the whole folder or nothing, a copy that worked is complete and one
/// that failed is not, removing a directory may stop half way, and a link is removed
/// without touching what it leads to.
pub open spec fn restore_effect(
    step: RestoreStep,
    reply: RestoreReply,
    before: RestoreDisk,
    after: RestoreDisk,
) -> bool {
    let worked = reply is Done;
    let gone = |slot: Slot| slot is Empty || slot is Debris;
    match step {
        RestoreStep::ProbeSource => {
            &&& after == before
            &&& reply->Source_0 == SourceKind::Link ==> before.source is Link
            &&& before.source is Tree ==> reply->Source_0 == SourceKind::Plain(PathKind::Directory)
        },
        RestoreStep::RemoveLink => after == if worked {
            RestoreDisk { source: Slot::Empty, ..before }
        } else {
            before
        },
        RestoreStep::RemovePartial | RestoreStep::CreatePartial | RestoreStep::DropPartial => {
            &&& after == RestoreDisk { partial: after.partial, ..before }
            &&& gone(after.partial)
        },
        RestoreStep::CopyToPartial => after == RestoreDisk {
            partial: copied(before.target, worked),
            ..before
        },
        RestoreStep::RenameBack => after == if worked {
            RestoreDisk { source: before.target, target: Slot::Empty, ..before }
        } else {
            before
        },
        RestoreStep::RenamePartial => after == if worked {
            RestoreDisk { source: before.partial, partial: Slot::Empty, ..before }
        } else {
            before
        },
        RestoreStep::RemoveTarget => {
            &&& after == RestoreDisk { target: after.target, ..before }
            &&& gone(after.target)
        },
        _ => after == before,
    }
}

/// Whether the disk can have gone through `disks` while the work came to `replies`.
pub open spec fn restore_history(
    job: RestoreJob,
    replies: Seq<RestoreReply>,
    disks: Seq<RestoreDisk>,
) -> bool {
    &&& disks.len() == replies.len() + 1
    &&& restore_answers(job, replies)
    &&& forall|i: int|
        0 <= i < replies.len() ==> restore_effect(
            restore_run(job, replies.take(i)),
            replies[i],
            disks[i],
            #[trigger] disks[i + 1],
        )
}

/// Where the folder is while `step` is due, if the target held all of it at the start.
pub open spec fn restore_keeps(step: RestoreStep, disk: RestoreDisk) -> bool {
    match step {
        RestoreStep::RemoveTarget => disk.source is Tree,
        RestoreStep::ForgetRecord | RestoreStep::Finished(Ok(_)) => {
            &&& disk.source is Tree
            &&& disk.target is Empty || disk.target is Debris
        },
        RestoreStep::RenamePartial => disk.target is Tree && disk.partial is Tree,
        _ => disk.target is Tree,
    }
}

proof fn lemma_shorter_history(
    job: RestoreJob,
    replies: Seq<RestoreReply>,
    disks: Seq<RestoreDisk>,
)
    requires
        restore_history(job, replies, disks),
        replies.len() > 0,
    ensures
        restore_history(job, replies.drop_last(), disks.drop_last()),
{
    let shorter = replies.drop_last();
    assert forall|i: int| 0 <= i < shorter.len() implies restore_effect(
        restore_run(job, shorter.take(i)),
        shorter[i],
        disks.drop_last()[i],
        #[trigger] disks.drop_last()[i + 1],
    ) by {
        assert(shorter.take(i) =~= replies.take(i));
        assert(disks[i + 1] == disks.drop_last()[i + 1]);
    }
}

/// However the work goes, the folder is never lost: the target holds all of it until all
/// of it is back in its old place. When the work ends well, it is back, and at the target
/// stands nothing, or what could not be removed of it; when it ends in an error, the target
/// still holds all of it.
pub proof fn law_restore_keeps_folder(
    job: RestoreJob,
    replies: Seq<RestoreReply>,
    disks: Seq<RestoreDisk>,
)
    requires
        restore_history(job, replies, disks),
        disks[0].target is Tree,
    ensures
        restore_keeps(restore_run(job, replies), disks.last()),
        disks.last().source is Tree || disks.last().target is Tree,
    decreases replies.len(),
{
    if replies.len() > 0 {
        let shorter = replies.drop_last();
        let n = shorter.len() as int;
        lemma_shorter_history(job, replies, disks);
        law_restore_keeps_folder(job, shorter, disks.drop_last());
        assert(replies.take(n) =~= shorter);
        assert(disks[n + 1] == disks.last());
        assert(disks.drop_last().last() == disks[n]);
    }
}

/// When bringing a folder back ends in an error, the target is as it was, whatever it was.
pub proof fn law_restore_error_spares_target(
    job: RestoreJob,
    replies: Seq<RestoreReply>,
    disks: Seq<RestoreDisk>,
)
    requires
        restore_history(job, replies, disks),
    ensures
        !target_may_be_gone(restore_run(job, replies)) ==> disks.last().target == disks[0].target,
        restore_run(job, replies) matches RestoreStep::Finished(Err(_)) ==> disks.last().target
            == disks[0].target,
    decreases replies.len(),
{
    if replies.len() > 0 {
        let shorter = replies.drop_last();
        let n = shorter.len() as int;
        lemma_shorter_history(job, replies, disks);
        law_restore_error_spares_target(job, shorter, disks.drop_last());
        assert(replies.take(n) =~= shorter);
        assert(disks[n + 1] == disks.last());
        assert(disks.drop_last().last() == disks[n]);
    }
}

/// Whether the folder is back while `step` is due, so that the target may be gone.
pub open spec fn target_may_be_gone(step: RestoreStep) -> bool {
    match step {
        RestoreStep::ForgetRecord | RestoreStep::Finished(Ok(_)) => true,
        _ => false,
    }
}

/// Bringing a folder back undoes its move: if it was moved and linked, and then brought back,
/// all of it stands in its old place again, and at the target stands nothing, or what could
/// not be removed of it. Once its record is forgotten, the history is as it was before the
/// move, if no earlier record has the id that was drawn.
pub proof fn law_restore_undoes_move(
    move_job: MoveJob,
    move_replies: Seq<MoveReply>,
    move_disks: Seq<MoveDisk>,
    result: Result<Moved, MoveError>,
    source: PathBuf,
    target: PathBuf,
    batch: Batch,
    records: Seq<MigrationRecord>,
    outcome: Result<(u64, MigrationRecord), MoveError>,
    stored: Seq<MigrationRecord>,
    job: RestoreJob,
    replies: Seq<RestoreReply>,
    disks: Seq<RestoreDisk>,
)
    requires
        move_history(move_job, move_replies, move_disks),
        move_disks[0].source is Tree,
        move_run(move_job, move_replies) == MoveStep::Finished(result),
        result is Ok,
        concludes(move_job, result, source, target, batch, records, outcome, stored),
        restore_history(job, replies, disks),
        disks[0].source == move_disks.last().source,
        disks[0].target == move_disks.last().target,
        restore_run(job, replies) matches RestoreStep::Finished(Ok(_)),
    ensures
        disks[0].source is Link,
        disks.last().source is Tree,
        disks.last().target is Empty || disks.last().target is Debris,
        (forall|i: int|
            0 <= i < records.len() ==> (#[trigger] records[i]).id@ != (outcome->Ok_0).1.id@)
            ==> without_id(stored, (outcome->Ok_0).1.id@) == records,
{
    law_move_keeps_folder(move_job, move_replies, move_disks);
    law_restore_keeps_folder(job, replies, disks);
    if forall|i: int|
        0 <= i < records.len() ==> (#[trigger] records[i]).id@ != (outcome->Ok_0).1.id@ {
        law_forgotten_move_leaves_no_record(
            move_job,
            result,
            source,
            target,
            batch,
            records,
            outcome,
            stored,
        );
    }
}

/// What is removed from the folder's old place is a link, and nothing else.
pub proof fn law_restore_removes_only_links(
    job: RestoreJob,
    replies: Seq<RestoreReply>,
    disks: Seq<RestoreDisk>,
)
    requires
        restore_history(job, replies, disks),
        restore_run(job, replies) is RemoveLink,
    ensures
        disks.last().source is Link,
{
    let shorter = replies.drop_last();
    let n = shorter.len() as int;
    assert(replies.take(n) =~= shorter);
    assert(disks[n + 1] == disks.last());
    assert(restore_run(job, shorter) is ProbeSource);
}

/// Whether nothing was done on the disk yet while `step` is due.
pub open spec fn is_looking(step: RestoreStep) -> bool {
    match step {
        RestoreStep::FindTarget
        | RestoreStep::FindLockers
        | RestoreStep::Kill { .. }
        | RestoreStep::ProbeSource => true,
        _ => false,
    }
}

proof fn lemma_looking_touches_nothing(
    job: RestoreJob,
    replies: Seq<RestoreReply>,
    disks: Seq<RestoreDisk>,
)
    requires
        restore_history(job, replies, disks),
        is_looking(restore_run(job, replies)),
    ensures
        disks.last() == disks[0],
    decreases replies.len(),
{
    if replies.len() > 0 {
        let shorter = replies.drop_last();
        let n = shorter.len() as int;
        lemma_shorter_history(job, replies, disks);
        lemma_looking_touches_nothing(job, shorter, disks.drop_last());
        assert(replies.take(n) =~= shorter);
        assert(disks[n + 1] == disks.last());
        assert(disks.drop_last().last() == disks[n]);
    }
}

/// Any real directory in the folder's old place is spared: once the question what is there was
/// answered with one, the work has ended in an error, and nothing on the disk was touched.
pub proof fn law_restore_spares_directories(
    job: RestoreJob,
    replies: Seq<RestoreReply>,
    disks: Seq<RestoreDisk>,
    i: int,
)
    requires
        restore_history(job, replies, disks),
        0 <= i < replies.len(),
        restore_run(job, replies.take(i)) is ProbeSource,
        replies[i] == RestoreReply::Source(SourceKind::Plain(PathKind::Directory)),
    ensures
        i == replies.len() - 1,
        restore_run(job, replies) == RestoreStep::Finished(Err(RestoreError::SourceOccupied)),
        disks.last() == disks[0],
    decreases replies.len(),
{
    let shorter = replies.drop_last();
    let n = shorter.len() as int;
    lemma_shorter_history(job, replies, disks);
    assert(replies.take(n) =~= shorter);
    assert(disks[n + 1] == disks.last());
    assert(disks.drop_last().last() == disks[n]);
    if i < n {
        assert(shorter.take(i) =~= replies.take(i));
        law_restore_spares_directories(job, shorter, disks.drop_last(), i);
    } else {
        lemma_looking_touches_nothing(job, shorter, disks.drop_last());
    }
}

/// If the folder itself stands in its old place, nothing on the disk is touched, and the work
/// ends in an error.
pub proof fn law_restore_spares_folder(
    job: RestoreJob,
    replies: Seq<RestoreReply>,
    disks: Seq<RestoreDisk>,
)
    requires
        restore_history(job, replies, disks),
        disks[0].source is Tree,
    ensures
        disks.last() == disks[0],
        match restore_run(job, replies) {
            RestoreStep::Finished(Err(error)) => error is TargetMissing || error is SourceOccupied,
            step => is_looking(step),
        },
    decreases replies.len(),
{
    if replies.len() > 0 {
        let shorter = replies.drop_last();
        let n = shorter.len() as int;
        lemma_shorter_history(job, replies, disks);
        law_restore_spares_folder(job, shorter, disks.drop_last());
        assert(replies.take(n) =~= shorter);
        assert(disks[n + 1] == disks.last());
        assert(disks.drop_last().last() == disks[n]);
    }
}

/// The record of a folder is taken out of the history only when the folder is back.
pub proof fn law_restore_forgets_last(
    job: RestoreJob,
    replies: Seq<RestoreReply>,
    disks: Seq<RestoreDisk>,
)
    requires
        restore_history(job, replies, disks),
        disks[0].target is Tree,
        restore_run(job, replies) is ForgetRecord,
    ensures
        disks.last().source is Tree,
{
    law_restore_keeps_folder(job, replies, disks);
}

/// Processes are looked for and ended only where the job allows it.
pub proof fn law_restore_kills_only_where_allowed(job: RestoreJob, replies: Seq<RestoreReply>)
    requires
        restore_answers(job, replies),
        !job.auto_kill,
    ensures
        !(restore_run(job, replies) is FindLockers),
        !(restore_run(job, replies) is Kill),
    decreases replies.len(),
{
    if replies.len() > 0 {
        law_restore_kills_only_where_allowed(job, replies.drop_last());
    }
}

/// A bound on the steps that are still to come.
pub open spec fn restore_work_left(step: RestoreStep) -> nat {
    match step {
        RestoreStep::FindTarget => 16,
        RestoreStep::FindLockers => 15,
        RestoreStep::Kill { .. } => 14,
        RestoreStep::ProbeSource => 13,
        RestoreStep::RemoveLink => 12,
        RestoreStep::FindParent => 11,
        RestoreStep::CreateParent => 10,
        RestoreStep::RenameBack => 9,
        RestoreStep::ProbePartial => 8,
        RestoreStep::RemovePartial => 7,
        RestoreStep::CreatePartial => 6,
        RestoreStep::CopyToPartial => 5,
        RestoreStep::RenamePartial => 4,
        RestoreStep::RemoveTarget => 3,
        RestoreStep::DropPartial | RestoreStep::ForgetRecord => 1,
        RestoreStep::Finished(_) => 0,
    }
}

/// The work always comes to an end: every reply brings it nearer.
pub proof fn law_restore_ends(job: RestoreJob, step: RestoreStep, reply: RestoreReply)
    requires
        step.accepts(reply),
    ensures
        restore_work_left(restore_next(job, step, reply)) < restore_work_left(step),
        restore_work_left(step) <= 16,
{
}

/// Every step has its cause: it is due only after the work that leads to it came to what leads
/// to it. What a failure was does not matter, but for the one that is told.
pub proof fn law_restore_step_has_cause(job: RestoreJob, step: RestoreStep, reply: RestoreReply)
    requires
        step.accepts(reply),
    ensures
        match restore_next(job, step, reply) {
            RestoreStep::FindTarget => false,
            RestoreStep::FindLockers => {
                step is FindTarget && reply == RestoreReply::Answer(true) && job.auto_kill
            },
            RestoreStep::Kill { pids } => step is FindLockers && reply == RestoreReply::Pids(pids),
            RestoreStep::ProbeSource => {
                ||| step is Kill
                ||| step is FindTarget && reply == RestoreReply::Answer(true) && !job.auto_kill
            },
            RestoreStep::RemoveLink => {
                step is ProbeSource && reply == RestoreReply::Source(SourceKind::Link)
            },
            RestoreStep::FindParent => job.has_parent && old_place_is_free(step, reply),
            RestoreStep::CreateParent => {
                step is FindParent && reply == RestoreReply::Answer(false)
            },
            RestoreStep::RenameBack => {
                ||| !job.has_parent && old_place_is_free(step, reply)
                ||| step is FindParent && reply == RestoreReply::Answer(true)
                ||| step is CreateParent && reply is Done
            },
            RestoreStep::ProbePartial => step is RenameBack && reply is Failed,
            RestoreStep::RemovePartial => {
                step is ProbePartial && reply == RestoreReply::Answer(true)
            },
            RestoreStep::CreatePartial => {
                ||| step is RemovePartial
                ||| step is ProbePartial && reply == RestoreReply::Answer(false)
            },
            RestoreStep::CopyToPartial => step is CreatePartial && reply is Done,
            RestoreStep::DropPartial => step is CopyToPartial && reply is Failed,
            RestoreStep::RenamePartial => step is CopyToPartial && reply is Done,
            RestoreStep::RemoveTarget => step is RenamePartial && reply is Done,
            RestoreStep::ForgetRecord => {
                ||| step is RenameBack && reply is Done
                ||| step is RemoveTarget
            },
            RestoreStep::Finished(Ok(())) => step is ForgetRecord,
            RestoreStep::Finished(Err(RestoreError::TargetMissing)) => {
                step is FindTarget && reply == RestoreReply::Answer(false)
            },
            RestoreStep::Finished(Err(RestoreError::LinkNotRemoved(failure))) => {
                step is RemoveLink && reply == RestoreReply::Failed(failure)
            },
            RestoreStep::Finished(Err(RestoreError::SourceOccupied)) => {
                step is ProbeSource && reply == RestoreReply::Source(
                    SourceKind::Plain(PathKind::Directory),
                )
            },
            RestoreStep::Finished(Err(RestoreError::ParentNotCreated)) => {
                step is CreateParent && reply is Failed
            },
            RestoreStep::Finished(Err(RestoreError::PartialNotCreated)) => {
                step is CreatePartial && reply is Failed
            },
            RestoreStep::Finished(Err(RestoreError::CopyFailed)) => step is DropPartial,
            RestoreStep::Finished(Err(RestoreError::PartialNotRenamed)) => {
                step is RenamePartial && reply is Failed
            },
        },
{
}

/// Whether the work of `step` came to a free old place: the link there was removed, or no
/// directory was found there.
pub open spec fn old_place_is_free(step: RestoreStep, reply: RestoreReply) -> bool {
    ||| step is RemoveLink && reply is Done
    ||| step is ProbeSource && (reply == RestoreReply::Source(SourceKind::Plain(PathKind::Missing))
        || reply == RestoreReply::Source(SourceKind::Plain(PathKind::Other)))
}

/// How the disk takes each piece of work, should it come to it.
pub struct RestoreWorld {
    pub target_exists: bool,
    pub lockers: Vec<u32>,
    pub source: SourceKind,
    pub link_removed: Result<(), OsFailure>,
    pub parent_exists: bool,
    pub parent_created: Result<(), OsFailure>,
    pub renamed: Result<(), OsFailure>,
    pub partial_exists: bool,
    pub partial_created: Result<(), OsFailure>,
    pub copied: Result<(), OsFailure>,
    pub partial_renamed: Result<(), OsFailure>,
}

/// What a piece of work that can fail comes to.
pub open spec fn work_reply(work: Result<(), OsFailure>) -> RestoreReply {
    match work {
        Ok(()) => RestoreReply::Done,
        Err(failure) => RestoreReply::Failed(failure),
    }
}

/// What the work of `step` comes to in a world.
pub open spec fn world_reply(world: RestoreWorld, step: RestoreStep) -> RestoreReply {
    match step {
        RestoreStep::FindTarget => RestoreReply::Answer(world.target_exists),
        RestoreStep::FindLockers => RestoreReply::Pids(world.lockers),
        RestoreStep::ProbeSource => RestoreReply::Source(world.source),
        RestoreStep::RemoveLink => work_reply(world.link_removed),
        RestoreStep::FindParent => RestoreReply::Answer(world.parent_exists),
        RestoreStep::CreateParent => work_reply(world.parent_created),
        RestoreStep::RenameBack => work_reply(world.renamed),
        RestoreStep::ProbePartial => RestoreReply::Answer(world.partial_exists),
        RestoreStep::CreatePartial => work_reply(world.partial_created),
        RestoreStep::CopyToPartial => work_reply(world.copied),
        RestoreStep::RenamePartial => work_reply(world.partial_renamed),
        _ => RestoreReply::Done,
    }
}

/// The step that is reached in a world from `step` on after `n` pieces of work.
pub open spec fn restore_from(
    job: RestoreJob,
    world: RestoreWorld,
    step: RestoreStep,
    n: nat,
) -> RestoreStep
    decreases n,
{
    if n == 0 || step is Finished {
        step
    } else {
        restore_from(
            job,
            world,
            restore_next(job, step, world_reply(world, step)),
            (n - 1) as nat,
        )
    }
}

/// The step that is reached in a world after `n` pieces of work.
pub open spec fn restore_play(job: RestoreJob, world: RestoreWorld, n: nat) -> RestoreStep {
    restore_from(job, world, RestoreStep::FindTarget, n)
}

/// Whether the old place can be made free for the folder.
pub open spec fn can_be_freed(world: RestoreWorld) -> bool {
    match world.source {
        SourceKind::Link => world.link_removed is Ok,
        SourceKind::Plain(PathKind::Directory) => false,
        SourceKind::Plain(_) => true,
    }
}

/// Whether the old place has a directory around it, or can be given one.
pub open spec fn has_room(job: RestoreJob, world: RestoreWorld) -> bool {
    !job.has_parent || world.parent_exists || world.parent_created is Ok
}

/// What bringing a folder back comes to from the rename on.
spec fn end_of_transfer(world: RestoreWorld) -> Result<(), RestoreError> {
    if world.renamed is Ok {
        Ok(())
    } else if world.partial_created is Err {
        Err(RestoreError::PartialNotCreated)
    } else if world.copied is Err {
        Err(RestoreError::CopyFailed)
    } else if world.partial_renamed is Err {
        Err(RestoreError::PartialNotRenamed)
    } else {
        Ok(())
    }
}

/// What bringing a folder back comes to from the question on what is in its old place.
spec fn end_of_work(job: RestoreJob, world: RestoreWorld) -> Result<(), RestoreError> {
    if world.source == SourceKind::Plain(PathKind::Directory) {
        Err(RestoreError::SourceOccupied)
    } else if world.source is Link && world.link_removed is Err {
        Err(RestoreError::LinkNotRemoved(world.link_removed->Err_0))
    } else if !has_room(job, world) {
        Err(RestoreError::ParentNotCreated)
    } else {
        end_of_transfer(world)
    }
}

proof fn lemma_transfer_ends(job: RestoreJob, world: RestoreWorld, n: nat)
    requires
        n >= 9,
    ensures
        restore_from(job, world, RestoreStep::RenameBack, n) == RestoreStep::Finished(
            end_of_transfer(world),
        ),
{
    reveal_with_fuel(restore_from, 10);
}

proof fn lemma_work_ends(job: RestoreJob, world: RestoreWorld, n: nat)
    requires
        n >= 13,
    ensures
        restore_from(job, world, RestoreStep::ProbeSource, n) == RestoreStep::Finished(
            end_of_work(job, world),
        ),
{
    reveal_with_fuel(restore_from, 5);
    lemma_transfer_ends(job, world, (n - 1) as nat);
    lemma_transfer_ends(job, world, (n - 2) as nat);
    lemma_transfer_ends(job, world, (n - 3) as nat);
    lemma_transfer_ends(job, world, (n - 4) as nat);
}

proof fn lemma_play_ends(job: RestoreJob, world: RestoreWorld)
    ensures
        restore_play(job, world, 16) == RestoreStep::Finished(
            if !world.target_exists {
                Err(RestoreError::TargetMissing)
            } else {
                end_of_work(job, world)
            },
        ),
{
    reveal_with_fuel(restore_from, 4);
    lemma_work_ends(job, world, 15);
    lemma_work_ends(job, world, 13);
}

/// A folder is brought back whenever it can be: it is at the target, its old place can be made
/// free and has a directory around it, and it gets there by one of the ways, whatever the other
/// comes to. In particular no failure of the rename, such as one to another drive, keeps it
/// from being copied back. And it is brought back only then.
pub proof fn law_restore_succeeds_whenever_it_can(job: RestoreJob, world: RestoreWorld)
    ensures
        restore_play(job, world, 16) is Finished,
        restore_play(job, world, 16)->Finished_0 is Ok <==> {
            &&& world.target_exists
            &&& can_be_freed(world)
            &&& has_room(job, world)
            &&& world.renamed is Ok || (world.partial_created is Ok && world.copied is Ok
                && world.partial_renamed is Ok)
        },
{
    lemma_play_ends(job, world);
}

/// An error of bringing a folder back names what failed: the first thing on the way that could
/// not be had.
pub proof fn law_restore_error_names_what_failed(job: RestoreJob, world: RestoreWorld)
    ensures
        restore_play(job, world, 16)->Finished_0 matches Err(error) ==> match error {
            RestoreError::TargetMissing => !world.target_exists,
            RestoreError::SourceOccupied => world.target_exists && world.source
                == SourceKind::Plain(PathKind::Directory),
            RestoreError::LinkNotRemoved(failure) => {
                &&& world.target_exists
                &&& world.source is Link
                &&& world.link_removed == Err::<(), OsFailure>(failure)
            },
            RestoreError::ParentNotCreated => {
                &&& world.target_exists && can_be_freed(world)
                &&& job.has_parent && !world.parent_exists && world.parent_created is Err
            },
            RestoreError::PartialNotCreated => {
                &&& world.target_exists && can_be_freed(world) && has_room(job, world)
                &&& world.renamed is Err && world.partial_created is Err
            },
            RestoreError::CopyFailed => {
                &&& world.target_exists && can_be_freed(world) && has_room(job, world)
                &&& world.renamed is Err && world.partial_created is Ok && world.copied is Err
            },
            RestoreError::PartialNotRenamed => {
                &&& world.target_exists && can_be_freed(world) && has_room(job, world)
                &&& world.renamed is Err && world.partial_created is Ok && world.copied is Ok
                &&& world.partial_renamed is Err
            },
        },
{
    lemma_play_ends(job, world);
}

/// Processes are ended exactly where that is allowed and the folder is there to be brought
/// back, and they are those that were found.
pub proof fn law_restore_ends_lockers_where_allowed(job: RestoreJob, world: RestoreWorld)
    ensures
        restore_play(job, world, 2) is Kill <==> world.target_exists && job.auto_kill,
        restore_play(job, world, 2) matches RestoreStep::Kill { pids } ==> pids == world.lockers,
{
    reveal_with_fuel(restore_from, 3);
}

/// An extension gives way to the ending of the partial copy.
pub proof fn law_extension_gives_way(stem: Seq<char>, extension: Seq<char>)
    requires
        stem.len() > 0,
        !extension.contains('.'),
    ensures
        partial_restore_name(stem + seq!['.'] + extension) == stem + ".partial_restore"@,
{
    let name = stem + seq!['.'] + extension;
    let dot = stem.len() as int;
    assert forall|i: int| dot < i < name.len() implies name[i] != '.' by {
        assert(name[i] == extension[i - dot - 1]);
        assert(extension.contains(extension[i - dot - 1]));
    }
    assert(name[dot] == '.');
    assert(is_last_dot(name, dot));
    assert forall|k: int| is_last_dot(name, k) implies k == dot by {
        if k < dot {
            assert(name[dot] != '.');
        }
    }
    assert(name.take(dot) =~= stem);
}

/// A name without a dot, or with only one at its beginning, is kept whole before the ending of
/// the partial copy.
pub proof fn law_name_without_extension_is_kept(name: Seq<char>)
    requires
        forall|i: int| 0 < i < name.len() ==> name[i] != '.',
    ensures
        partial_restore_name(name) == name + ".partial_restore"@,
{
}

/// What a user is told of an error holds the path it is about, or the system's message.
pub proof fn law_restore_message_tells_all(
    error: RestoreError,
    source: Seq<char>,
    target: Seq<char>,
)
    ensures
        error is TargetMissing ==> contains(restore_message(error, source, target), target),
        error is SourceOccupied ==> contains(restore_message(error, source, target), source),
        error is LinkNotRemoved ==> contains(
            restore_message(error, source, target),
            error->LinkNotRemoved_0.text@,
        ),
{
    let told = restore_message(error, source, target);
    let none = Seq::<char>::empty();
    match error {
        RestoreError::TargetMissing => {
            law_contained_text_has_sides(
                told,
                "移动目标文件 "@,
                target,
                " 已经不存在，无法自动还原。建议直接移除失效快捷方式"@,
            );
        },
        RestoreError::SourceOccupied => {
            law_contained_text_has_sides(
                told,
                "还原位置 "@,
                source,
                " 已包含非链接目录，为保护数据取消还原。请先手动清理"@,
            );
        },
        RestoreError::LinkNotRemoved(failure) => {
            let a = "解除原来的连接失败: "@;
            assert(told =~= a + failure.text@ + none);
            law_contained_text_has_sides(told, a, failure.text@, none);
        },
        _ => {},
    }
}

} // verus!
