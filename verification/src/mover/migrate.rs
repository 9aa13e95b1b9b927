//! Moving a folder below the target root and linking it back.
//!
//! Where the target exists already, the folder is copied over it. Otherwise a plain
//! rename is tried first; if that fails, the folder is copied to a directory of its
//! own beside the target, which is renamed when it is complete.

use std::path::PathBuf;

use vstd::prelude::*;
use vstd::string::*;

use super::children::{
    child_history, child_run, law_no_child_is_lost, law_unlinked_children_stay, ChildReply,
};
use super::link::{law_placing_keeps_folder, link_message, placing, LinkDisk, LinkError};
use super::{Mover, OsFailure, PathKind, Slot};
use crate::history::{
    fresh_record_id, is_record_id, law_remove_undoes_add, without_id, HistoryManager,
    MigrationRecord,
};
use crate::text::{
    append_decimal, append_signed, contains, decimal, law_contained_text_has_sides,
    signed_decimal,
};

verus! {

/// What to move.
#[derive(Debug)]
pub struct MoveJob {
    /// The folder's name, or `None` where its path has none.
    pub name: Option<String>,
}

/// Why a folder was not moved, or not linked.
#[derive(Debug)]
pub enum MoveError {
    SourceMissing,
    InvalidSource,
    RootNotDirectory,
    RootNotCreated(OsFailure),
    TargetNotDirectory,
    /// Copying over an existing target failed.
    IncrementalCopy,
    /// The folder was copied, but not replaced by a junction.
    Link(LinkError),
    /// The folder was copied, and not itself but some of its directories were replaced.
    ChildrenLinked { cause: LinkError, linked: usize, total: usize },
    /// The folder was renamed, but the junction failed; the rename was taken back
    /// as far as that was possible.
    JunctionFailed(String),
    PartialNotCreated,
    CopyFailed,
    PartialNotRenamed,
}

/// A folder that was moved and linked.
#[derive(Clone, Copy, PartialEq, Eq, Structural, Debug)]
pub struct Moved {
    /// The bytes in a backup that could not be removed.
    pub left_behind: u64,
    /// The bytes in the target.
    pub size_bytes: u64,
    /// The time, in seconds.
    pub timestamp: u64,
}

/// The work that is due.
#[derive(Debug)]
pub enum MoveStep {
    /// Does the folder exist?
    FindSource,
    /// What is at the target root?
    ProbeRoot,
    /// Create the target root.
    CreateRoot,
    /// What is at the target?
    ProbeTarget,
    /// Is there a partial copy of an earlier attempt?
    ProbePartial { onto_target: bool },
    /// Remove the partial copy; failures do not matter.
    RemovePartial { onto_target: bool },
    /// Copy the folder over the target.
    CopyToTarget,
    /// Rename the folder to the target.
    RenameToTarget,
    /// Create the junction in the place of the renamed folder.
    JunctionAfterRename,
    /// Rename the target back.
    RenameBack { cause: String },
    /// Copy the target back.
    CopyBack { cause: String },
    /// Remove the target that was copied back; failures do not matter.
    RemoveCopied { cause: String },
    /// Create the directory for the partial copy.
    CreatePartial,
    /// Copy the folder to it.
    CopyToPartial,
    /// Remove the partial copy after a failure; failures do not matter.
    DropPartial,
    /// Rename the complete copy to the target.
    RenamePartial,
    /// Replace the folder by a junction to the target.
    PlaceJunction,
    /// Replace the directories in the folder by junctions, each on its own.
    LinkChildren { error: LinkError },
    /// How many bytes does the target hold, and what is the time?
    Measure { left_behind: u64 },
    /// Nothing.
    Finished(Result<Moved, MoveError>),
}

/// What came of the work.
#[derive(Debug)]
pub enum MoveReply {
    Done,
    Failed(OsFailure),
    Answer(bool),
    Kind(PathKind),
    Placed(Result<u64, LinkError>),
    Children { linked: usize, total: usize },
    Measured { size_bytes: u64, now: u64 },
}

impl MoveStep {
    /// Whether `reply` is an answer to the work of this step.
    pub open spec fn accepts(self, reply: MoveReply) -> bool {
        match self {
            MoveStep::FindSource | MoveStep::ProbePartial { .. } => reply is Answer,
            MoveStep::ProbeRoot | MoveStep::ProbeTarget => reply is Kind,
            MoveStep::CreateRoot
            | MoveStep::CopyToTarget
            | MoveStep::RenameToTarget
            | MoveStep::JunctionAfterRename
            | MoveStep::RenameBack { .. }
            | MoveStep::CopyBack { .. }
            | MoveStep::CreatePartial
            | MoveStep::CopyToPartial
            | MoveStep::RenamePartial => reply is Done || reply is Failed,
            MoveStep::RemovePartial { .. }
            | MoveStep::RemoveCopied { .. }
            | MoveStep::DropPartial => reply is Done,
            MoveStep::PlaceJunction => reply is Placed,
            MoveStep::LinkChildren { .. } => reply is Children,
            MoveStep::Measure { .. } => reply is Measured,
            MoveStep::Finished(_) => false,
        }
    }
}

/// The step once the way is clear: onto an existing target, or to a new one.
pub open spec fn begin_transfer(onto_target: bool) -> MoveStep {
    if onto_target {
        MoveStep::CopyToTarget
    } else {
        MoveStep::RenameToTarget
    }
}

/// The step that follows `step` when its work came to `reply`.
pub open spec fn move_next(job: MoveJob, step: MoveStep, reply: MoveReply) -> MoveStep {
    let worked = reply is Done;
    let fail = |error: MoveError| MoveStep::Finished(Err(error));
    match step {
        MoveStep::FindSource => if reply == MoveReply::Answer(false) {
            fail(MoveError::SourceMissing)
        } else if job.name is None {
            fail(MoveError::InvalidSource)
        } else {
            MoveStep::ProbeRoot
        },
        MoveStep::ProbeRoot => match reply->Kind_0 {
            PathKind::Directory => MoveStep::ProbeTarget,
            PathKind::Missing => MoveStep::CreateRoot,
            PathKind::Other => fail(MoveError::RootNotDirectory),
        },
        MoveStep::CreateRoot => match reply {
            MoveReply::Failed(failure) => fail(MoveError::RootNotCreated(failure)),
            _ => MoveStep::ProbeTarget,
        },
        MoveStep::ProbeTarget => match reply->Kind_0 {
            PathKind::Directory => MoveStep::ProbePartial { onto_target: true },
            PathKind::Missing => MoveStep::ProbePartial { onto_target: false },
            PathKind::Other => fail(MoveError::TargetNotDirectory),
        },
        MoveStep::ProbePartial { onto_target } => if reply == MoveReply::Answer(true) {
            MoveStep::RemovePartial { onto_target }
        } else {
            begin_transfer(onto_target)
        },
        MoveStep::RemovePartial { onto_target } => begin_transfer(onto_target),
        MoveStep::CopyToTarget => if worked {
            MoveStep::PlaceJunction
        } else {
            fail(MoveError::IncrementalCopy)
        },
        MoveStep::RenameToTarget => if worked {
            MoveStep::JunctionAfterRename
        } else {
            MoveStep::CreatePartial
        },
        MoveStep::JunctionAfterRename => match reply {
            MoveReply::Failed(failure) => MoveStep::RenameBack { cause: failure.text },
            _ => MoveStep::Measure { left_behind: 0 },
        },
        MoveStep::RenameBack { cause } => if worked {
            fail(MoveError::JunctionFailed(cause))
        } else {
            MoveStep::CopyBack { cause }
        },
        MoveStep::CopyBack { cause } => if worked {
            MoveStep::RemoveCopied { cause }
        } else {
            fail(MoveError::JunctionFailed(cause))
        },
        MoveStep::RemoveCopied { cause } => fail(MoveError::JunctionFailed(cause)),
        MoveStep::CreatePartial => if worked {
            MoveStep::CopyToPartial
        } else {
            fail(MoveError::PartialNotCreated)
        },
        MoveStep::CopyToPartial => if worked {
            MoveStep::RenamePartial
        } else {
            MoveStep::DropPartial
        },
        MoveStep::DropPartial => fail(MoveError::CopyFailed),
        MoveStep::RenamePartial => if worked {
            MoveStep::PlaceJunction
        } else {
            fail(MoveError::PartialNotRenamed)
        },
        MoveStep::PlaceJunction => match reply->Placed_0 {
            Ok(left_behind) => MoveStep::Measure { left_behind },
            Err(error) => MoveStep::LinkChildren { error },
        },
        MoveStep::LinkChildren { error } => if reply->linked > 0 {
            fail(
                MoveError::ChildrenLinked {
                    cause: error,
                    linked: reply->linked,
                    total: reply->total,
                },
            )
        } else {
            fail(MoveError::Link(error))
        },
        MoveStep::Measure { left_behind } => MoveStep::Finished(
            Ok(
                Moved {
                    left_behind,
                    size_bytes: reply->size_bytes,
                    timestamp: reply->now,
                },
            ),
        ),
        MoveStep::Finished(result) => MoveStep::Finished(result),
    }
}

fn transfer(onto_target: bool) -> (r: MoveStep)
    ensures
        r == begin_transfer(onto_target),
{
    if onto_target {
        MoveStep::CopyToTarget
    } else {
        MoveStep::RenameToTarget
    }
}

impl Mover {
    /// Begins to move the folder `name` and to link it back: the job, and its first step.
    pub fn move_and_link(name: Option<String>) -> (r: (MoveJob, MoveStep))
        ensures
            r.0 == (MoveJob { name }),
            r.1 == MoveStep::FindSource,
            r.1 == move_run(r.0, Seq::empty()),
    {
        (MoveJob { name }, MoveStep::FindSource)
    }
}

impl MoveJob {
    /// Takes what came of the work of `step` to the next step.
    pub fn next(&self, step: MoveStep, reply: MoveReply) -> (r: MoveStep)
        requires
            step.accepts(reply),
        ensures
            r == move_next(*self, step, reply),
    {
        match (step, reply) {
            (MoveStep::FindSource, MoveReply::Answer(there)) => {
                if !there {
                    MoveStep::Finished(Err(MoveError::SourceMissing))
                } else if self.name.is_none() {
                    MoveStep::Finished(Err(MoveError::InvalidSource))
                } else {
                    MoveStep::ProbeRoot
                }
            },
            (MoveStep::ProbeRoot, MoveReply::Kind(kind)) => match kind {
                PathKind::Directory => MoveStep::ProbeTarget,
                PathKind::Missing => MoveStep::CreateRoot,
                PathKind::Other => MoveStep::Finished(Err(MoveError::RootNotDirectory)),
            },
            (MoveStep::CreateRoot, MoveReply::Failed(failure)) => MoveStep::Finished(
                Err(MoveError::RootNotCreated(failure)),
            ),
            (MoveStep::CreateRoot, _) => MoveStep::ProbeTarget,
            (MoveStep::ProbeTarget, MoveReply::Kind(kind)) => match kind {
                PathKind::Directory => MoveStep::ProbePartial { onto_target: true },
                PathKind::Missing => MoveStep::ProbePartial { onto_target: false },
                PathKind::Other => MoveStep::Finished(Err(MoveError::TargetNotDirectory)),
            },
            (MoveStep::ProbePartial { onto_target }, MoveReply::Answer(there)) => {
                if there {
                    MoveStep::RemovePartial { onto_target }
                } else {
                    transfer(onto_target)
                }
            },
            (MoveStep::RemovePartial { onto_target }, _) => transfer(onto_target),
            (MoveStep::CopyToTarget, MoveReply::Done) => MoveStep::PlaceJunction,
            (MoveStep::CopyToTarget, _) => MoveStep::Finished(Err(MoveError::IncrementalCopy)),
            (MoveStep::RenameToTarget, MoveReply::Done) => MoveStep::JunctionAfterRename,
            (MoveStep::RenameToTarget, _) => MoveStep::CreatePartial,
            (MoveStep::JunctionAfterRename, MoveReply::Failed(failure)) => MoveStep::RenameBack {
                cause: failure.text,
            },
            (MoveStep::JunctionAfterRename, _) => MoveStep::Measure { left_behind: 0 },
            (MoveStep::RenameBack { cause }, MoveReply::Done) => MoveStep::Finished(
                Err(MoveError::JunctionFailed(cause)),
            ),
            (MoveStep::RenameBack { cause }, _) => MoveStep::CopyBack { cause },
            (MoveStep::CopyBack { cause }, MoveReply::Done) => MoveStep::RemoveCopied { cause },
            (MoveStep::CopyBack { cause }, _) => MoveStep::Finished(
                Err(MoveError::JunctionFailed(cause)),
            ),
            (MoveStep::RemoveCopied { cause }, _) => MoveStep::Finished(
                Err(MoveError::JunctionFailed(cause)),
            ),
            (MoveStep::CreatePartial, MoveReply::Done) => MoveStep::CopyToPartial,
            (MoveStep::CreatePartial, _) => MoveStep::Finished(Err(MoveError::PartialNotCreated)),
            (MoveStep::CopyToPartial, MoveReply::Done) => MoveStep::RenamePartial,
            (MoveStep::CopyToPartial, _) => MoveStep::DropPartial,
            (MoveStep::DropPartial, _) => MoveStep::Finished(Err(MoveError::CopyFailed)),
            (MoveStep::RenamePartial, MoveReply::Done) => MoveStep::PlaceJunction,
            (MoveStep::RenamePartial, _) => MoveStep::Finished(Err(MoveError::PartialNotRenamed)),
            (MoveStep::PlaceJunction, MoveReply::Placed(result)) => match result {
                Ok(left_behind) => MoveStep::Measure { left_behind },
                Err(error) => MoveStep::LinkChildren { error },
            },
            (MoveStep::LinkChildren { error }, MoveReply::Children { linked, total }) => {
                if linked > 0 {
                    MoveStep::Finished(
                        Err(MoveError::ChildrenLinked { cause: error, linked, total }),
                    )
                } else {
                    MoveStep::Finished(Err(MoveError::Link(error)))
                }
            },
            (MoveStep::Measure { left_behind }, MoveReply::Measured { size_bytes, now }) => {
                MoveStep::Finished(Ok(Moved { left_behind, size_bytes, timestamp: now }))
            },
            (step, _) => step,
        }
    }
}

/// The name of the directory for a partial copy.
pub open spec fn partial_name(name: Seq<char>) -> Seq<char> {
    name + ".partial"@
}

impl MoveJob {
    /// The name of the directory for the partial copy.
    pub fn partial_file_name(&self) -> (r: String)
        requires
            self.name is Some,
        ensures
            r@ == partial_name(self.name->0@),
    {
        match &self.name {
            Some(name) => name.clone().concat(".partial"),
            None => String::new(),
        }
    }
}

/// The paths of a move, as they are shown in messages.
pub struct PathTexts {
    pub source: String,
    pub target: String,
    pub target_root: String,
}

/// What a user is told of an error.
pub open spec fn move_message(error: MoveError, paths: PathTexts) -> Seq<char> {
    match error {
        MoveError::SourceMissing => "源路径不存在: "@ + paths.source@,
        MoveError::InvalidSource => "无效的源路径"@,
        MoveError::RootNotDirectory => "目标根目录不是文件夹："@ + paths.target_root@
            + "\n建议：\n- 请选择一个新的目标根目录（例如 D:\\WindowsClear\\AppData）\n- 或者删除/更名该路径后再重试"@,
        MoveError::RootNotCreated(failure) => "无法创建目标根目录："@ + paths.target_root@
            + "\n系统错误："@ + failure.text@ + " (os error "@ + signed_decimal(
            match failure.code {
                Some(code) => code as int,
                None => 0,
            },
        )
            + ")\n建议：\n- 确认目标盘符存在且可写（例如 D: / G:）\n- 尝试手动创建该目录看是否报权限\n- 检查是否被安全软件/受控文件夹访问拦截\n- 避免把目标根目录放在受保护目录下（建议 D:\\WindowsClear\\AppData）"@,
        MoveError::TargetNotDirectory => "目标路径已存在且不是目录: "@ + paths.target@,
        MoveError::IncrementalCopy => "增量复制失败"@,
        MoveError::Link(cause) => link_message(cause),
        MoveError::ChildrenLinked { cause, linked, total } => "根目录创建软链接失败（"@
            + link_message(cause) + "），但已对 "@ + decimal(linked as nat) + "/"@ + decimal(
            total as nat,
        ) + " 个子目录创建软链接（见日志）"@,
        MoveError::JunctionFailed(cause) => "创建链接失败: "@ + cause@
            + "。已尝试恢复文件。"@,
        MoveError::PartialNotCreated => "无法创建临时目标目录"@,
        MoveError::CopyFailed => "文件复制失败"@,
        MoveError::PartialNotRenamed => "整理目标目录失败"@,
    }
}

impl MoveError {
    /// What a user is told of the error.
    pub fn message(&self, paths: &PathTexts) -> (r: String)
        ensures
            r@ == move_message(*self, *paths),
    {
        match self {
            MoveError::SourceMissing => "源路径不存在: ".to_owned().concat(
                paths.source.as_str(),
            ),
            MoveError::InvalidSource => "无效的源路径".to_owned(),
            MoveError::RootNotDirectory => {
                let mut r = "目标根目录不是文件夹：".to_owned();
                r.append(paths.target_root.as_str());
                r.append(
                    "\n建议：\n- 请选择一个新的目标根目录（例如 D:\\WindowsClear\\AppData）\n- 或者删除/更名该路径后再重试",
                );
                r
            },
            MoveError::RootNotCreated(failure) => {
                let code: i32 = match failure.code {
                    Some(code) => code,
                    None => 0,
                };
                let mut r = "无法创建目标根目录：".to_owned();
                r.append(paths.target_root.as_str());
                r.append("\n系统错误：");
                r.append(failure.text.as_str());
                r.append(" (os error ");
                append_signed(&mut r, code);
                r.append(
                    ")\n建议：\n- 确认目标盘符存在且可写（例如 D: / G:）\n- 尝试手动创建该目录看是否报权限\n- 检查是否被安全软件/受控文件夹访问拦截\n- 避免把目标根目录放在受保护目录下（建议 D:\\WindowsClear\\AppData）",
                );
                r
            },
            MoveError::TargetNotDirectory => "目标路径已存在且不是目录: ".to_owned().concat(
                paths.target.as_str(),
            ),
            MoveError::IncrementalCopy => "增量复制失败".to_owned(),
            MoveError::Link(cause) => cause.message(),
            MoveError::ChildrenLinked { cause, linked, total } => {
                let mut r = "根目录创建软链接失败（".to_owned();
                let cause_text = cause.message();
                r.append(cause_text.as_str());
                r.append("），但已对 ");
                append_decimal(&mut r, *linked as u64);
                r.append("/");
                append_decimal(&mut r, *total as u64);
                r.append(" 个子目录创建软链接（见日志）");
                r
            },
            MoveError::JunctionFailed(cause) => {
                let mut r = "创建链接失败: ".to_owned();
                r.append(cause.as_str());
                r.append("。已尝试恢复文件。");
                r
            },
            MoveError::PartialNotCreated => "无法创建临时目标目录".to_owned(),
            MoveError::CopyFailed => "文件复制失败".to_owned(),
            MoveError::PartialNotRenamed => "整理目标目录失败".to_owned(),
        }
    }
}

/// A batch of folders that are moved together.
#[derive(Debug)]
pub struct Batch {
    pub id: String,
    pub timestamp: u64,
}

impl Clone for Batch {
    fn clone(&self) -> (r: Batch)
        ensures
            r == *self,
    {
        Batch { id: self.id.clone(), timestamp: self.timestamp }
    }
}

impl Batch {
    /// A batch that begins at the time `timestamp`, under a fresh id.
    pub fn begin(timestamp: u64) -> (r: Batch)
        ensures
            is_record_id(r.id@),
            r.timestamp == timestamp,
    {
        Batch { id: fresh_record_id(), timestamp }
    }
}

/// Whether `record` tells of the folder that was moved from `source` to `target`, in every
/// point but its id.
pub open spec fn records_move(
    record: MigrationRecord,
    job: MoveJob,
    moved: Moved,
    source: PathBuf,
    target: PathBuf,
    batch: Batch,
) -> bool {
    &&& record.name == job.name->0
    &&& record.source_path == source
    &&& record.target_path == target
    &&& record.size_bytes == moved.size_bytes
    &&& record.timestamp == moved.timestamp
    &&& record.batch_id == Some(batch.id)
    &&& record.batch_timestamp == Some(batch.timestamp)
}

impl Mover {
    /// The record of a folder that was moved, under the id `id`.
    pub fn record_with_id(
        id: String,
        job: MoveJob,
        moved: Moved,
        source: PathBuf,
        target: PathBuf,
        batch: Batch,
    ) -> (r: MigrationRecord)
        requires
            job.name is Some,
        ensures
            r.id == id,
            records_move(r, job, moved, source, target, batch),
    {
        let name = match job.name {
            Some(name) => name,
            None => String::new(),
        };
        MigrationRecord {
            id,
            name,
            source_path: source,
            target_path: target,
            size_bytes: moved.size_bytes,
            timestamp: moved.timestamp,
            batch_id: Some(batch.id),
            batch_timestamp: Some(batch.timestamp),
        }
    }
}

/// What a move comes to, and what it makes of the history: a folder that was moved is
/// recorded, as the last of the records; one that was not leaves the records as they were.
pub open spec fn concludes(
    job: MoveJob,
    result: Result<Moved, MoveError>,
    source: PathBuf,
    target: PathBuf,
    batch: Batch,
    records: Seq<MigrationRecord>,
    outcome: Result<(u64, MigrationRecord), MoveError>,
    stored: Seq<MigrationRecord>,
) -> bool {
    match result {
        Ok(moved) => {
            &&& outcome matches Ok((left_behind, record))
            &&& left_behind == moved.left_behind
            &&& records_move(record, job, moved, source, target, batch)
            &&& stored == records.push(record)
        },
        Err(error) => {
            &&& outcome == Err::<(u64, MigrationRecord), MoveError>(error)
            &&& stored == records
        },
    }
}

impl Mover {
    /// What a move comes to, with the records to store; its record has the id `id`.
    pub fn conclude_with_id(
        id: String,
        job: MoveJob,
        result: Result<Moved, MoveError>,
        source: PathBuf,
        target: PathBuf,
        batch: Batch,
        records: Vec<MigrationRecord>,
    ) -> (r: (Result<(u64, MigrationRecord), MoveError>, Vec<MigrationRecord>))
        requires
            result is Ok ==> job.name is Some,
        ensures
            concludes(job, result, source, target, batch, records@, r.0, r.1@),
            r.0 matches Ok((_, record)) ==> record.id == id,
    {
        match result {
            Ok(moved) => {
                let record = Mover::record_with_id(id, job, moved, source, target, batch);
                let stored = HistoryManager::add_record(records, record.clone());
                (Ok((moved.left_behind, record)), stored)
            },
            Err(error) => (Err(error), records),
        }
    }

    /// What a move comes to, with the records to store; its record has a fresh id, which is only
    /// drawn for a folder that was moved.
    pub fn conclude(
        job: MoveJob,
        result: Result<Moved, MoveError>,
        source: PathBuf,
        target: PathBuf,
        batch: Batch,
        records: Vec<MigrationRecord>,
    ) -> (r: (Result<(u64, MigrationRecord), MoveError>, Vec<MigrationRecord>))
        requires
            result is Ok ==> job.name is Some,
        ensures
            concludes(job, result, source, target, batch, records@, r.0, r.1@),
            r.0 matches Ok((_, record)) ==> is_record_id(record.id@),
    {
        match result {
            Ok(moved) => {
                let id = fresh_record_id();
                Mover::conclude_with_id(id, job, Ok(moved), source, target, batch, records)
            },
            Err(error) => (Err(error), records),
        }
    }
}

/// The step that is reached from the start by `replies`.
pub open spec fn move_run(job: MoveJob, replies: Seq<MoveReply>) -> MoveStep
    decreases replies.len(),
{
    if replies.len() == 0 {
        MoveStep::FindSource
    } else {
        move_next(job, move_run(job, replies.drop_last()), replies.last())
    }
}

/// Whether each of `replies` answers the work that was due.
pub open spec fn move_answers(job: MoveJob, replies: Seq<MoveReply>) -> bool
    decreases replies.len(),
{
    replies.len() == 0 || {
        &&& move_answers(job, replies.drop_last())
        &&& move_run(job, replies.drop_last()).accepts(replies.last())
    }
}

/// The places that the work touches.
pub struct MoveDisk {
    pub source: Slot,
    pub target: Slot,
    pub partial: Slot,
    /// The place to which the folder is renamed while it is replaced by a junction.
    pub backup: Slot,
    /// The directories in the folder that were to be replaced one by one, and their backups.
    pub children: Seq<LinkDisk>,
}

/// What a copy makes of the place it goes to.
pub open spec fn copied(from: Slot, worked: bool) -> Slot {
    if worked && from is Tree {
        Slot::Tree
    } else {
        Slot::Debris
    }
}

/// Whether replacing the directories in a folder can make `after` of the folder's own place,
/// which was `before`, and `children` of the directories, with the given numbers told. The
/// folder is as it was if each of these directories still stands in its place.
pub open spec fn linking_children(
    before: Slot,
    linked: usize,
    total: usize,
    after: Slot,
    children: Seq<LinkDisk>,
) -> bool {
    exists|replies: Seq<ChildReply>, found: Seq<LinkDisk>|
        {
            &&& #[trigger] child_history(replies, found, children)
            &&& child_run(replies) is Finished
            &&& child_run(replies).tally().linked == linked
            &&& child_run(replies).tally().total == total
            &&& (forall|k: int|
                0 <= k < children.len() ==> (#[trigger] children[k]).source is Tree)
                ==> after == before
        }
}

/// What the work of `step` can do to the disk when it came to `reply`.
///
/// A rename moves the whole folder or nothing, a copy that worked is complete and one
/// that failed is not, and removing a directory may stop half way.
pub open spec fn move_effect(
    step: MoveStep,
    reply: MoveReply,
    before: MoveDisk,
    after: MoveDisk,
) -> bool {
    let worked = reply is Done;
    let gone = |slot: Slot| slot is Empty || slot is Debris;
    match step {
        MoveStep::RemovePartial { .. } | MoveStep::CreatePartial | MoveStep::DropPartial => {
            &&& after == MoveDisk { partial: after.partial, ..before }
            &&& gone(after.partial)
        },
        MoveStep::CopyToTarget => after == MoveDisk {
            target: copied(before.source, worked),
            ..before
        },
        MoveStep::CopyToPartial => after == MoveDisk {
            partial: copied(before.source, worked),
            ..before
        },
        MoveStep::CopyBack { .. } => after == MoveDisk {
            source: copied(before.target, worked),
            ..before
        },
        MoveStep::RenameToTarget => after == if worked {
            MoveDisk { source: Slot::Empty, target: before.source, ..before }
        } else {
            before
        },
        MoveStep::RenamePartial => after == if worked {
            MoveDisk { partial: Slot::Empty, target: before.partial, ..before }
        } else {
            before
        },
        MoveStep::RenameBack { .. } => after == if worked {
            MoveDisk { source: before.target, target: Slot::Empty, ..before }
        } else {
            before
        },
        MoveStep::JunctionAfterRename => {
            &&& after == MoveDisk { source: after.source, ..before }
            &&& if worked {
                after.source is Link
            } else {
                gone(after.source)
            }
        },
        MoveStep::RemoveCopied { .. } => {
            &&& after == MoveDisk { target: after.target, ..before }
            &&& gone(after.target)
        },
        MoveStep::PlaceJunction => {
            &&& after == MoveDisk { source: after.source, backup: after.backup, ..before }
            &&& placing(
                LinkDisk { source: before.source, backup: before.backup },
                reply->Placed_0,
                LinkDisk { source: after.source, backup: after.backup },
            )
        },
        MoveStep::LinkChildren { .. } => {
            &&& after == MoveDisk { source: after.source, children: after.children, ..before }
            &&& linking_children(
                before.source,
                reply->linked,
                reply->total,
                after.source,
                after.children,
            )
        },
        _ => after == before,
    }
}

/// Whether the disk can have gone through `disks` while the work came to `replies`.
pub open spec fn move_history(
    job: MoveJob,
    replies: Seq<MoveReply>,
    disks: Seq<MoveDisk>,
) -> bool {
    &&& disks.len() == replies.len() + 1
    &&& move_answers(job, replies)
    &&& forall|i: int|
        0 <= i < replies.len() ==> move_effect(
            move_run(job, replies.take(i)),
            replies[i],
            disks[i],
            #[trigger] disks[i + 1],
        )
}

/// Where the folder is when it could not be replaced by a junction, for the given reason.
pub open spec fn stays_after(error: LinkError, disk: MoveDisk) -> bool {
    if error is RestoreFailed {
        disk.backup is Tree
    } else {
        disk.source is Tree
    }
}

/// Whether a directory of the folder is left in its backup.
pub open spec fn some_child_is_stranded(disk: MoveDisk) -> bool {
    exists|k: int|
        0 <= k < disk.children.len() && !((#[trigger] disk.children[k]).source is Tree)
            && disk.children[k].backup is Tree
}

/// Whether none of the directories that were to be replaced is lost: each stands in its place
/// or whole in its backup, or a junction to its copy stands in its place.
pub open spec fn no_child_is_lost(disk: MoveDisk) -> bool {
    forall|k: int|
        0 <= k < disk.children.len() ==> (#[trigger] disk.children[k]).source is Tree
            || disk.children[k].source is Link || disk.children[k].backup is Tree
}

/// Where the folder is while `step` is due, if it stood in its place at the start.
pub open spec fn move_keeps(step: MoveStep, disk: MoveDisk) -> bool {
    match step {
        MoveStep::JunctionAfterRename
        | MoveStep::RenameBack { .. }
        | MoveStep::CopyBack { .. } => disk.target is Tree,
        MoveStep::LinkChildren { error } => disk.target is Tree && stays_after(error, disk),
        MoveStep::RenamePartial => disk.source is Tree && disk.partial is Tree,
        MoveStep::PlaceJunction => disk.source is Tree && disk.target is Tree,
        MoveStep::Measure { .. } | MoveStep::Finished(Ok(_)) => disk.source is Link
            && disk.target is Tree,
        MoveStep::Finished(Err(error)) => match error {
            MoveError::JunctionFailed(_) => disk.source is Tree || disk.target is Tree,
            MoveError::Link(cause) => {
                &&& disk.target is Tree
                &&& stays_after(cause, disk) || (!(cause is RestoreFailed)
                    && some_child_is_stranded(disk))
                &&& no_child_is_lost(disk)
            },
            MoveError::ChildrenLinked { cause, .. } => {
                &&& disk.target is Tree
                &&& cause is RestoreFailed ==> disk.backup is Tree
                &&& no_child_is_lost(disk)
            },
            _ => disk.source is Tree,
        },
        _ => disk.source is Tree,
    }
}

proof fn lemma_shorter_history(job: MoveJob, replies: Seq<MoveReply>, disks: Seq<MoveDisk>)
    requires
        move_history(job, replies, disks),
        replies.len() > 0,
    ensures
        move_history(job, replies.drop_last(), disks.drop_last()),
{
    let shorter = replies.drop_last();
    assert forall|i: int| 0 <= i < shorter.len() implies move_effect(
        move_run(job, shorter.take(i)),
        shorter[i],
        disks.drop_last()[i],
        #[trigger] disks.drop_last()[i + 1],
    ) by {
        assert(shorter.take(i) =~= replies.take(i));
        assert(disks[i + 1] == disks.drop_last()[i + 1]);
    }
}

/// However the work goes, the folder is never lost: at every moment all of it stands in
/// its own place or at the target. When the work ends well, the target holds all of it
/// and the junction stands in its place. When it ends in an error before the folder was
/// copied or renamed, the folder stands untouched in its place. When the folder was copied but
/// could not be replaced, it still stands in its place, or whole in its backup if it could not
/// be brought back from there; where its directories were then replaced one by one, none of
/// them is lost, and if none was replaced the folder is as it was but for directories that are
/// left in their backups.
pub proof fn law_move_keeps_folder(job: MoveJob, replies: Seq<MoveReply>, disks: Seq<MoveDisk>)
    requires
        move_history(job, replies, disks),
        disks[0].source is Tree,
    ensures
        move_keeps(move_run(job, replies), disks.last()),
        disks.last().source is Tree || disks.last().target is Tree,
    decreases replies.len(),
{
    if replies.len() > 0 {
        let shorter = replies.drop_last();
        let n = shorter.len() as int;
        lemma_shorter_history(job, replies, disks);
        law_move_keeps_folder(job, shorter, disks.drop_last());
        assert(replies.take(n) =~= shorter);
        assert(disks[n + 1] == disks.last());
        assert(disks.drop_last().last() == disks[n]);
        let before = disks[n];
        let after = disks.last();
        if move_run(job, shorter) is PlaceJunction {
            law_placing_keeps_folder(
                LinkDisk { source: before.source, backup: before.backup },
                replies.last()->Placed_0,
                LinkDisk { source: after.source, backup: after.backup },
            );
        } else if move_run(job, shorter) is LinkChildren {
            lemma_children_are_kept(before, replies.last(), after);
        }
    }
}

proof fn lemma_children_are_kept(before: MoveDisk, reply: MoveReply, after: MoveDisk)
    requires
        linking_children(before.source, reply->linked, reply->total, after.source, after.children),
    ensures
        no_child_is_lost(after),
        reply->linked == 0 ==> after.source == before.source || some_child_is_stranded(after),
{
    let (replies, found) = choose|r: Seq<ChildReply>, f: Seq<LinkDisk>|
        {
            &&& #[trigger] child_history(r, f, after.children)
            &&& child_run(r) is Finished
            &&& child_run(r).tally().linked == reply->linked
            &&& child_run(r).tally().total == reply->total
            &&& (forall|k: int|
                0 <= k < after.children.len() ==> (#[trigger] after.children[k]).source is Tree)
                ==> after.source == before.source
        };
    law_no_child_is_lost(replies, found, after.children);
    if reply->linked == 0 {
        law_unlinked_children_stay(replies, found, after.children);
    }
}

/// When the junction fails after a plain rename, the rename is taken back: if the last work
/// of taking it back was done, all of the folder stands in its place again.
pub proof fn law_move_rolls_back(job: MoveJob, replies: Seq<MoveReply>, disks: Seq<MoveDisk>)
    requires
        move_history(job, replies, disks),
        disks[0].source is Tree,
        move_run(job, replies) matches MoveStep::Finished(Err(MoveError::JunctionFailed(_))),
        replies.len() > 0,
        replies.last() is Done,
    ensures
        disks.last().source is Tree,
{
    let shorter = replies.drop_last();
    let n = shorter.len() as int;
    lemma_shorter_history(job, replies, disks);
    law_move_keeps_folder(job, shorter, disks.drop_last());
    assert(replies.take(n) =~= shorter);
    assert(disks[n + 1] == disks.last());
    assert(disks.drop_last().last() == disks[n]);
}

/// Whether the target has not been touched while `step` is due.
pub open spec fn target_is_untouched(step: MoveStep) -> bool {
    match step {
        MoveStep::FindSource
        | MoveStep::ProbeRoot
        | MoveStep::CreateRoot
        | MoveStep::ProbeTarget
        | MoveStep::ProbePartial { .. }
        | MoveStep::RemovePartial { .. }
        | MoveStep::CopyToTarget
        | MoveStep::RenameToTarget
        | MoveStep::CreatePartial
        | MoveStep::CopyToPartial
        | MoveStep::DropPartial
        | MoveStep::RenamePartial => true,
        MoveStep::Finished(Err(error)) => match error {
            MoveError::SourceMissing
            | MoveError::InvalidSource
            | MoveError::RootNotDirectory
            | MoveError::RootNotCreated(_)
            | MoveError::TargetNotDirectory
            | MoveError::PartialNotCreated
            | MoveError::CopyFailed
            | MoveError::PartialNotRenamed => true,
            _ => false,
        },
        _ => false,
    }
}

/// A copy that fails half way leaves no trace at a target that is new: the target is only
/// made when the folder is renamed or its copy is complete. Nor does any error before that
/// touch it.
pub proof fn law_move_makes_target_last(
    job: MoveJob,
    replies: Seq<MoveReply>,
    disks: Seq<MoveDisk>,
)
    requires
        move_history(job, replies, disks),
        target_is_untouched(move_run(job, replies)),
    ensures
        disks.last().target == disks[0].target,
    decreases replies.len(),
{
    if replies.len() > 0 {
        let shorter = replies.drop_last();
        let n = shorter.len() as int;
        lemma_shorter_history(job, replies, disks);
        assert(replies.take(n) =~= shorter);
        assert(disks[n + 1] == disks.last());
        assert(disks.drop_last().last() == disks[n]);
        law_move_makes_target_last(job, shorter, disks.drop_last());
    }
}

/// No folder without a name gets past the first question, so the name is there for the
/// partial copy and for the record.
pub proof fn law_move_needs_name(job: MoveJob, replies: Seq<MoveReply>)
    requires
        move_answers(job, replies),
        job.name is None,
    ensures
        match move_run(job, replies) {
            MoveStep::FindSource => true,
            MoveStep::Finished(Err(error)) => error is SourceMissing || error is InvalidSource,
            _ => false,
        },
    decreases replies.len(),
{
    if replies.len() > 0 {
        law_move_needs_name(job, replies.drop_last());
    }
}

/// The history tells the truth: a move adds exactly one record if it ends well, and then the
/// target holds all of the folder and the junction stands; a move that ends in an error leaves
/// the history as it was. Whatever is recorded can be recorded, since the folder has a name.
pub proof fn law_move_is_recorded_on_success(
    job: MoveJob,
    replies: Seq<MoveReply>,
    disks: Seq<MoveDisk>,
    result: Result<Moved, MoveError>,
    source: PathBuf,
    target: PathBuf,
    batch: Batch,
    records: Seq<MigrationRecord>,
    outcome: Result<(u64, MigrationRecord), MoveError>,
    stored: Seq<MigrationRecord>,
)
    requires
        move_history(job, replies, disks),
        disks[0].source is Tree,
        move_run(job, replies) == MoveStep::Finished(result),
        concludes(job, result, source, target, batch, records, outcome, stored),
    ensures
        result is Ok ==> job.name is Some,
        outcome is Ok <==> result is Ok,
        outcome matches Ok((_, record)) ==> {
            &&& stored == records.push(record)
            &&& disks.last().source is Link
            &&& disks.last().target is Tree
        },
        outcome is Err ==> stored == records,
{
    law_move_keeps_folder(job, replies, disks);
    if job.name is None {
        law_move_needs_name(job, replies);
    }
}

/// Forgetting a moved folder undoes recording it, if no earlier record has its id.
pub proof fn law_forgotten_move_leaves_no_record(
    job: MoveJob,
    result: Result<Moved, MoveError>,
    source: PathBuf,
    target: PathBuf,
    batch: Batch,
    records: Seq<MigrationRecord>,
    outcome: Result<(u64, MigrationRecord), MoveError>,
    stored: Seq<MigrationRecord>,
)
    requires
        concludes(job, result, source, target, batch, records, outcome, stored),
        outcome is Ok,
        forall|i: int|
            0 <= i < records.len() ==> (#[trigger] records[i]).id@ != (outcome->Ok_0).1.id@,
    ensures
        without_id(stored, (outcome->Ok_0).1.id@) == records,
{
    law_remove_undoes_add(records, (outcome->Ok_0).1);
}

/// A bound on the steps that are still to come.
pub open spec fn move_work_left(step: MoveStep) -> nat {
    match step {
        MoveStep::FindSource => 13,
        MoveStep::ProbeRoot => 12,
        MoveStep::CreateRoot => 11,
        MoveStep::ProbeTarget => 10,
        MoveStep::ProbePartial { .. } => 9,
        MoveStep::RemovePartial { .. } => 8,
        MoveStep::CopyToTarget | MoveStep::RenameToTarget => 7,
        MoveStep::CreatePartial => 6,
        MoveStep::CopyToPartial => 5,
        MoveStep::RenamePartial | MoveStep::DropPartial | MoveStep::JunctionAfterRename => 4,
        MoveStep::PlaceJunction | MoveStep::RenameBack { .. } => 3,
        MoveStep::CopyBack { .. } => 2,
        MoveStep::LinkChildren { .. }
        | MoveStep::Measure { .. }
        | MoveStep::RemoveCopied { .. } => 1,
        MoveStep::Finished(_) => 0,
    }
}

/// The work always comes to an end: every reply brings it nearer.
pub proof fn law_move_ends(job: MoveJob, step: MoveStep, reply: MoveReply)
    requires
        step.accepts(reply),
    ensures
        move_work_left(move_next(job, step, reply)) < move_work_left(step),
        move_work_left(step) <= 13,
{
}

/// Every step has its cause: it is due only after the work that leads to it came to what leads
/// to it. What a failure was does not matter, but for the two whose text is told.
pub proof fn law_move_step_has_cause(job: MoveJob, step: MoveStep, reply: MoveReply)
    requires
        step.accepts(reply),
    ensures
        match move_next(job, step, reply) {
            MoveStep::FindSource => false,
            MoveStep::ProbeRoot => {
                step is FindSource && reply == MoveReply::Answer(true) && job.name is Some
            },
            MoveStep::CreateRoot => {
                step is ProbeRoot && reply == MoveReply::Kind(PathKind::Missing)
            },
            MoveStep::ProbeTarget => {
                ||| step is ProbeRoot && reply == MoveReply::Kind(PathKind::Directory)
                ||| step is CreateRoot && reply is Done
            },
            MoveStep::ProbePartial { onto_target: true } => {
                step is ProbeTarget && reply == MoveReply::Kind(PathKind::Directory)
            },
            MoveStep::ProbePartial { onto_target: false } => {
                step is ProbeTarget && reply == MoveReply::Kind(PathKind::Missing)
            },
            MoveStep::RemovePartial { onto_target } => {
                &&& step == MoveStep::ProbePartial { onto_target }
                &&& reply == MoveReply::Answer(true)
            },
            MoveStep::CopyToTarget => {
                ||| step == MoveStep::RemovePartial { onto_target: true }
                ||| step == (MoveStep::ProbePartial { onto_target: true }) && reply
                    == MoveReply::Answer(false)
            },
            MoveStep::RenameToTarget => {
                ||| step == MoveStep::RemovePartial { onto_target: false }
                ||| step == (MoveStep::ProbePartial { onto_target: false }) && reply
                    == MoveReply::Answer(false)
            },
            MoveStep::JunctionAfterRename => step is RenameToTarget && reply is Done,
            MoveStep::RenameBack { cause } => {
                step is JunctionAfterRename && reply is Failed && cause == reply->Failed_0.text
            },
            MoveStep::CopyBack { cause } => {
                step == MoveStep::RenameBack { cause } && reply is Failed
            },
            MoveStep::RemoveCopied { cause } => {
                step == MoveStep::CopyBack { cause } && reply is Done
            },
            MoveStep::CreatePartial => step is RenameToTarget && reply is Failed,
            MoveStep::CopyToPartial => step is CreatePartial && reply is Done,
            MoveStep::DropPartial => step is CopyToPartial && reply is Failed,
            MoveStep::RenamePartial => step is CopyToPartial && reply is Done,
            MoveStep::PlaceJunction => {
                (step is CopyToTarget || step is RenamePartial) && reply is Done
            },
            MoveStep::LinkChildren { error } => {
                step is PlaceJunction && reply == MoveReply::Placed(Err(error))
            },
            MoveStep::Measure { left_behind } => {
                ||| step is JunctionAfterRename && reply is Done && left_behind == 0
                ||| step is PlaceJunction && reply == MoveReply::Placed(Ok(left_behind))
            },
            MoveStep::Finished(Ok(moved)) => {
                &&& step == MoveStep::Measure { left_behind: moved.left_behind }
                &&& reply == MoveReply::Measured {
                    size_bytes: moved.size_bytes,
                    now: moved.timestamp,
                }
            },
            MoveStep::Finished(Err(MoveError::SourceMissing)) => {
                step is FindSource && reply == MoveReply::Answer(false)
            },
            MoveStep::Finished(Err(MoveError::InvalidSource)) => {
                step is FindSource && reply == MoveReply::Answer(true) && job.name is None
            },
            MoveStep::Finished(Err(MoveError::RootNotDirectory)) => {
                step is ProbeRoot && reply == MoveReply::Kind(PathKind::Other)
            },
            MoveStep::Finished(Err(MoveError::RootNotCreated(failure))) => {
                step is CreateRoot && reply == MoveReply::Failed(failure)
            },
            MoveStep::Finished(Err(MoveError::TargetNotDirectory)) => {
                step is ProbeTarget && reply == MoveReply::Kind(PathKind::Other)
            },
            MoveStep::Finished(Err(MoveError::IncrementalCopy)) => {
                step is CopyToTarget && reply is Failed
            },
            MoveStep::Finished(Err(MoveError::Link(error))) => {
                step == (MoveStep::LinkChildren { error }) && reply->linked == 0
            },
            MoveStep::Finished(Err(MoveError::ChildrenLinked { cause, linked, total })) => {
                &&& step == (MoveStep::LinkChildren { error: cause })
                &&& reply == MoveReply::Children { linked, total }
                &&& linked > 0
            },
            MoveStep::Finished(Err(MoveError::JunctionFailed(cause))) => {
                ||| step == (MoveStep::RenameBack { cause }) && reply is Done
                ||| step == (MoveStep::CopyBack { cause }) && reply is Failed
                ||| step == MoveStep::RemoveCopied { cause }
            },
            MoveStep::Finished(Err(MoveError::PartialNotCreated)) => {
                step is CreatePartial && reply is Failed
            },
            MoveStep::Finished(Err(MoveError::CopyFailed)) => step is DropPartial,
            MoveStep::Finished(Err(MoveError::PartialNotRenamed)) => {
                step is RenamePartial && reply is Failed
            },
        },
{
}

/// How the disk takes each piece of work, should it come to it.
pub struct MoveWorld {
    pub source_exists: bool,
    pub root: PathKind,
    pub root_created: Result<(), OsFailure>,
    pub target: PathKind,
    pub partial_exists: bool,
    pub copied_over: Result<(), OsFailure>,
    pub renamed: Result<(), OsFailure>,
    pub junction: Result<(), OsFailure>,
    pub renamed_back: Result<(), OsFailure>,
    pub copied_back: Result<(), OsFailure>,
    pub partial_created: Result<(), OsFailure>,
    pub copied: Result<(), OsFailure>,
    pub partial_renamed: Result<(), OsFailure>,
    pub placed: Result<u64, LinkError>,
    pub children_linked: usize,
    pub children_total: usize,
    pub size_bytes: u64,
    pub now: u64,
}

/// What a piece of work that can fail comes to.
pub open spec fn work_reply(work: Result<(), OsFailure>) -> MoveReply {
    match work {
        Ok(()) => MoveReply::Done,
        Err(failure) => MoveReply::Failed(failure),
    }
}

/// What the work of `step` comes to in a world.
pub open spec fn world_reply(world: MoveWorld, step: MoveStep) -> MoveReply {
    match step {
        MoveStep::FindSource => MoveReply::Answer(world.source_exists),
        MoveStep::ProbeRoot => MoveReply::Kind(world.root),
        MoveStep::CreateRoot => work_reply(world.root_created),
        MoveStep::ProbeTarget => MoveReply::Kind(world.target),
        MoveStep::ProbePartial { .. } => MoveReply::Answer(world.partial_exists),
        MoveStep::CopyToTarget => work_reply(world.copied_over),
        MoveStep::RenameToTarget => work_reply(world.renamed),
        MoveStep::JunctionAfterRename => work_reply(world.junction),
        MoveStep::RenameBack { .. } => work_reply(world.renamed_back),
        MoveStep::CopyBack { .. } => work_reply(world.copied_back),
        MoveStep::CreatePartial => work_reply(world.partial_created),
        MoveStep::CopyToPartial => work_reply(world.copied),
        MoveStep::RenamePartial => work_reply(world.partial_renamed),
        MoveStep::PlaceJunction => MoveReply::Placed(world.placed),
        MoveStep::LinkChildren { .. } => MoveReply::Children {
            linked: world.children_linked,
            total: world.children_total,
        },
        MoveStep::Measure { .. } => MoveReply::Measured {
            size_bytes: world.size_bytes,
            now: world.now,
        },
        _ => MoveReply::Done,
    }
}

/// The step that is reached in a world after `n` pieces of work.
pub open spec fn move_play(job: MoveJob, world: MoveWorld, n: nat) -> MoveStep
    decreases n,
{
    if n == 0 {
        MoveStep::FindSource
    } else {
        let step = move_play(job, world, (n - 1) as nat);
        if step is Finished {
            step
        } else {
            move_next(job, step, world_reply(world, step))
        }
    }
}

/// Whether a move gets as far as the transfer: the folder is there and has a name, and the
/// target root is a directory or can be made one.
pub open spec fn can_begin(job: MoveJob, world: MoveWorld) -> bool {
    &&& world.source_exists
    &&& job.name is Some
    &&& world.root is Directory || (world.root is Missing && world.root_created is Ok)
}

/// Whether all of the folder comes to a target of its own or onto one that is there, so that
/// only the junction is left to be made.
pub open spec fn is_transferred(world: MoveWorld) -> bool {
    match world.target {
        PathKind::Directory => world.copied_over is Ok,
        PathKind::Missing => world.renamed is Ok || (world.partial_created is Ok && world.copied
            is Ok && world.partial_renamed is Ok),
        PathKind::Other => false,
    }
}

/// Whether the folder is moved by a plain rename.
pub open spec fn is_renamed(world: MoveWorld) -> bool {
    world.target is Missing && world.renamed is Ok
}

/// A move succeeds whenever it can: the folder gets to the target by one of the ways, whatever
/// the others come to, and the junction is made. In particular no failure of the rename, such
/// as one to another drive, keeps a move from succeeding by way of a copy. And it succeeds
/// only then, with the bytes and the time that were measured.
pub proof fn law_move_succeeds_whenever_it_can(job: MoveJob, world: MoveWorld)
    ensures
        move_play(job, world, 13) is Finished,
        move_play(job, world, 13)->Finished_0 is Ok <==> {
            &&& can_begin(job, world)
            &&& is_transferred(world)
            &&& if is_renamed(world) {
                world.junction is Ok
            } else {
                world.placed is Ok
            }
        },
        move_play(job, world, 13)->Finished_0 matches Ok(moved) ==> {
            &&& moved.left_behind == if is_renamed(world) {
                0
            } else {
                world.placed->Ok_0
            }
            &&& moved.size_bytes == world.size_bytes
            &&& moved.timestamp == world.now
        },
{
    reveal_with_fuel(move_play, 14);
}

/// An error of a move names what failed: the first thing on the way that could not be had.
pub proof fn law_move_error_names_what_failed(job: MoveJob, world: MoveWorld)
    ensures
        move_play(job, world, 13)->Finished_0 matches Err(error) ==> match error {
            MoveError::SourceMissing => !world.source_exists,
            MoveError::InvalidSource => world.source_exists && job.name is None,
            MoveError::RootNotDirectory => world.source_exists && job.name is Some && world.root
                is Other,
            MoveError::RootNotCreated(failure) => {
                &&& world.source_exists && job.name is Some
                &&& world.root is Missing
                &&& world.root_created == Err::<(), OsFailure>(failure)
            },
            MoveError::TargetNotDirectory => can_begin(job, world) && world.target is Other,
            MoveError::IncrementalCopy => {
                can_begin(job, world) && world.target is Directory && world.copied_over is Err
            },
            MoveError::JunctionFailed(cause) => {
                &&& can_begin(job, world)
                &&& is_renamed(world)
                &&& world.junction is Err
                &&& cause == world.junction->Err_0.text
            },
            MoveError::PartialNotCreated => {
                &&& can_begin(job, world)
                &&& world.target is Missing && world.renamed is Err
                &&& world.partial_created is Err
            },
            MoveError::CopyFailed => {
                &&& can_begin(job, world)
                &&& world.target is Missing && world.renamed is Err
                &&& world.partial_created is Ok
                &&& world.copied is Err
            },
            MoveError::PartialNotRenamed => {
                &&& can_begin(job, world)
                &&& world.target is Missing && world.renamed is Err
                &&& world.partial_created is Ok && world.copied is Ok
                &&& world.partial_renamed is Err
            },
            MoveError::Link(cause) => {
                &&& can_begin(job, world) && is_transferred(world) && !is_renamed(world)
                &&& world.placed == Err::<u64, LinkError>(cause)
                &&& world.children_linked == 0
            },
            MoveError::ChildrenLinked { cause, linked, total } => {
                &&& can_begin(job, world) && is_transferred(world) && !is_renamed(world)
                &&& world.placed == Err::<u64, LinkError>(cause)
                &&& linked == world.children_linked && linked > 0
                &&& total == world.children_total
            },
        },
{
    reveal_with_fuel(move_play, 14);
}

/// The name of the directory for a partial copy is the folder's name with an ending, so it is
/// never the folder's own name, and differs from folder to folder.
pub proof fn law_partial_name_is_its_own(name: Seq<char>, other: Seq<char>)
    ensures
        partial_name(name).take(name.len() as int) == name,
        partial_name(name).skip(name.len() as int) == ".partial"@,
        partial_name(name) != name,
        partial_name(name) == partial_name(other) ==> name == other,
{
    reveal_strlit(".partial");
    assert(partial_name(name).take(name.len() as int) =~= name);
    assert(partial_name(name).skip(name.len() as int) =~= ".partial"@);
    assert(partial_name(name).len() == name.len() + 8);
    if partial_name(name) == partial_name(other) {
        assert(partial_name(other).len() == other.len() + 8);
        assert(partial_name(other).take(other.len() as int) =~= other);
    }
}

/// What a user is told of an error holds the path it is about, and the cause.
pub proof fn law_move_message_tells_all(error: MoveError, paths: PathTexts)
    ensures
        error is SourceMissing ==> contains(move_message(error, paths), paths.source@),
        error is TargetNotDirectory ==> contains(move_message(error, paths), paths.target@),
        error is RootNotDirectory ==> contains(move_message(error, paths), paths.target_root@),
        error is RootNotCreated ==> contains(move_message(error, paths), paths.target_root@)
            && contains(move_message(error, paths), error->RootNotCreated_0.text@) && contains(
            move_message(error, paths),
            " (os error "@ + signed_decimal(
                if error->RootNotCreated_0.code is Some {
                    error->RootNotCreated_0.code->0 as int
                } else {
                    0
                },
            ),
        ),
        error is Link ==> move_message(error, paths) == link_message(error->Link_0),
        error is ChildrenLinked ==> contains(
            move_message(error, paths),
            link_message(error->cause),
        ) && contains(
            move_message(error, paths),
            decimal(error->linked as nat) + "/"@ + decimal(error->total as nat),
        ),
        error is JunctionFailed ==> contains(move_message(error, paths), error->JunctionFailed_0@),
{
    let told = move_message(error, paths);
    let none = Seq::<char>::empty();
    match error {
        MoveError::SourceMissing => {
            let a = "源路径不存在: "@;
            assert(told =~= a + paths.source@ + none);
            law_contained_text_has_sides(told, a, paths.source@, none);
        },
        MoveError::TargetNotDirectory => {
            let a = "目标路径已存在且不是目录: "@;
            assert(told =~= a + paths.target@ + none);
            law_contained_text_has_sides(told, a, paths.target@, none);
        },
        MoveError::RootNotDirectory => {
            let a = "目标根目录不是文件夹："@;
            let root = paths.target_root@;
            let b =
                "\n建议：\n- 请选择一个新的目标根目录（例如 D:\\WindowsClear\\AppData）\n- 或者删除/更名该路径后再重试"@;
            law_contained_text_has_sides(told, a, root, b);
        },
        MoveError::RootNotCreated(failure) => {
            let a = "无法创建目标根目录："@;
            let b = "\n系统错误："@;
            let c = " (os error "@;
            let n = signed_decimal(
                match failure.code {
                    Some(code) => code as int,
                    None => 0,
                },
            );
            let d =
                ")\n建议：\n- 确认目标盘符存在且可写（例如 D: / G:）\n- 尝试手动创建该目录看是否报权限\n- 检查是否被安全软件/受控文件夹访问拦截\n- 避免把目标根目录放在受保护目录下（建议 D:\\WindowsClear\\AppData）"@;
            let root = paths.target_root@;
            let text = failure.text@;
            assert(told =~= a + root + (b + text + c + n + d));
            law_contained_text_has_sides(told, a, root, b + text + c + n + d);
            assert(told =~= (a + root + b) + text + (c + n + d));
            law_contained_text_has_sides(told, a + root + b, text, c + n + d);
            assert(told =~= (a + root + b + text) + (c + n) + d);
            law_contained_text_has_sides(told, a + root + b + text, c + n, d);
        },
        MoveError::ChildrenLinked { cause, linked, total } => {
            let a = "根目录创建软链接失败（"@;
            let m = link_message(cause);
            let b = "），但已对 "@;
            let n = decimal(linked as nat) + "/"@ + decimal(total as nat);
            let c = " 个子目录创建软链接（见日志）"@;
            assert(told =~= a + m + (b + n + c));
            law_contained_text_has_sides(told, a, m, b + n + c);
            assert(told =~= (a + m + b) + n + c);
            law_contained_text_has_sides(told, a + m + b, n, c);
        },
        MoveError::JunctionFailed(cause) => {
            law_contained_text_has_sides(told, "创建链接失败: "@, cause@, "。已尝试恢复文件。"@);
        },
        _ => {},
    }
}

/// A folder that was moved is recorded once, behind the records that were there, with its own
/// name, its paths, the size and the time that the move came to, and the batch it was moved
/// in; one that was not moved changes no record. What is told is what the move came to.
pub proof fn law_conclusion_is_exact(
    job: MoveJob,
    result: Result<Moved, MoveError>,
    source: PathBuf,
    target: PathBuf,
    batch: Batch,
    records: Seq<MigrationRecord>,
    outcome: Result<(u64, MigrationRecord), MoveError>,
    stored: Seq<MigrationRecord>,
)
    requires
        concludes(job, result, source, target, batch, records, outcome, stored),
        result is Ok ==> job.name is Some,
    ensures
        outcome is Ok <==> result is Ok,
        forall|i: int| 0 <= i < records.len() ==> i < stored.len() && #[trigger] stored[i]
            == records[i],
        result is Err ==> stored.len() == records.len() && outcome->Err_0 == result->Err_0,
        result is Ok ==> {
            let record = stored.last();
            &&& stored.len() == records.len() + 1
            &&& outcome->Ok_0.0 == result->Ok_0.left_behind
            &&& outcome->Ok_0.1 == record
            &&& job.name == Some(record.name)
            &&& record.source_path == source
            &&& record.target_path == target
            &&& record.size_bytes == result->Ok_0.size_bytes
            &&& record.timestamp == result->Ok_0.timestamp
            &&& record.batch_id == Some(batch.id)
            &&& record.batch_timestamp == Some(batch.timestamp)
        },
{
}

} // verus!
