//! Replacing a folder by a junction to its copy.
//!
//! The folder is first renamed to a backup. Only when that has worked is the
//! junction made, and only when the junction stands is the backup removed. If the
//! junction cannot be made, the backup is renamed back.

use vstd::prelude::*;
use vstd::string::*;

use super::{FailureKind, Mover, OsFailure, Slot};
use crate::text::{
    append_decimal, append_number_list, contains, decimal, law_contained_text_has_sides,
    law_decimal_reads_back, number_list, number_of,
};

verus! {

/// How often a rename is tried before it counts as failed.
pub const RENAME_TRIES: u32 = 3;

/// The last number that is tried for a backup name.
pub const LAST_BACKUP_INDEX: u32 = 999;

/// The pause after a failed rename, in milliseconds.
pub const RENAME_PAUSE_MS: u64 = 200;

/// The pause after ending processes, in milliseconds.
pub const KILL_PAUSE_MS: u64 = 300;

/// What to replace, and how.
#[derive(Debug)]
pub struct LinkJob {
    /// The folder's name, or `None` where its path has none.
    pub name: Option<String>,
    /// The time at which the work began, in seconds.
    pub stamp: u64,
    /// Whether the folder's path has a parent.
    pub has_parent: bool,
    /// Whether processes that hold the folder may be ended.
    pub auto_kill: bool,
}

/// The directory a backup goes to.
#[derive(Clone, Copy, PartialEq, Eq, Structural, Debug)]
pub enum BackupDir {
    /// The tool's own directory below the temporary directory.
    Temp,
    /// The directory that holds the folder itself.
    Parent,
}

/// A place for the backup: a directory, and the number in the backup's name.
#[derive(Clone, Copy, PartialEq, Eq, Structural, Debug)]
pub struct Backup {
    pub dir: BackupDir,
    pub index: u32,
}

/// The rounds in which the folder is renamed to its backup.
#[derive(Clone, Copy, PartialEq, Eq, Structural, Debug)]
pub enum Round {
    /// To the temporary directory.
    First,
    /// To the parent, after access was denied.
    Denied,
    /// To the same place again, after ending processes.
    Killed,
    /// To the parent, after the temporary directory proved to be on another device.
    Crossed,
}

/// Why a folder was not replaced.
#[derive(Debug)]
pub enum LinkError {
    /// The folder's path has no name, or no parent where one is needed.
    InvalidSource,
    /// The folder was a link already, and could not be linked anew.
    Relink,
    /// The folder could not be renamed to any backup.
    BackupFailed { detail: String, pids: Vec<u32> },
    /// The junction failed, and then the backup could not be renamed back.
    RestoreFailed,
    /// The junction failed; the folder is back in its place.
    Junction(String),
}

/// The work that is due.
#[derive(Debug)]
pub enum LinkStep {
    /// Create the backup directory; failures do not matter.
    MakeBackupRoot,
    /// Is the place for a backup taken?
    Probe { round: Round, index: u32 },
    /// Is the folder a link already?
    CheckSource { backup: Backup },
    /// Remove the link that stands for the folder; failures do not matter.
    DropOldLink,
    /// Create the junction again.
    Relink,
    /// Rename the folder to the backup.
    Rename { round: Round, backup: Backup, tries: u32 },
    /// Pause after a failed rename.
    PauseAfterRename { round: Round, backup: Backup, tries: u32, failure: OsFailure },
    /// Which processes hold the folder?
    FindLockers { backup: Backup, failure: OsFailure },
    /// End these processes; failures do not matter.
    Kill { backup: Backup, pids: Vec<u32> },
    /// Pause after ending processes.
    PauseAfterKill { backup: Backup },
    /// Which processes hold the folder? This goes into the error.
    NameLockers { failure: OsFailure },
    /// Create the junction.
    CreateJunction { backup: Backup },
    /// Remove the backup.
    RemoveBackup { backup: Backup },
    /// How many bytes are left in the backup?
    MeasureBackup { backup: Backup },
    /// Remove what stands in the folder's place; failures do not matter.
    ClearSource { backup: Backup, cause: String },
    /// Rename the backup back to the folder.
    RestoreSource { backup: Backup, cause: String },
    /// Nothing: the bytes that are left in the backup, or the error.
    Finished(Result<u64, LinkError>),
}

/// What came of the work.
#[derive(Debug)]
pub enum LinkReply {
    Done,
    Failed(OsFailure),
    Answer(bool),
    Pids(Vec<u32>),
    Size(u64),
}

impl LinkStep {
    /// Whether `reply` is an answer to the work of this step.
    pub open spec fn accepts(self, reply: LinkReply) -> bool {
        match self {
            LinkStep::Probe { .. } | LinkStep::CheckSource { .. } => reply is Answer,
            LinkStep::FindLockers { .. } | LinkStep::NameLockers { .. } => reply is Pids,
            LinkStep::MeasureBackup { .. } => reply is Size,
            LinkStep::Relink
            | LinkStep::Rename { .. }
            | LinkStep::CreateJunction { .. }
            | LinkStep::RemoveBackup { .. }
            | LinkStep::RestoreSource { .. } => reply is Done || reply is Failed,
            LinkStep::MakeBackupRoot
            | LinkStep::DropOldLink
            | LinkStep::PauseAfterRename { .. }
            | LinkStep::Kill { .. }
            | LinkStep::PauseAfterKill { .. }
            | LinkStep::ClearSource { .. } => reply is Done,
            LinkStep::Finished(_) => false,
        }
    }
}

/// The directory in which a round looks for a place.
pub open spec fn round_dir(round: Round) -> BackupDir {
    if round == Round::First {
        BackupDir::Temp
    } else {
        BackupDir::Parent
    }
}

/// Whether a failure means that access was denied.
pub open spec fn access_denied(failure: OsFailure) -> bool {
    failure.kind == FailureKind::PermissionDenied || failure.code == Some(5i32)
}

/// The step with which the work begins.
pub open spec fn link_start(job: LinkJob) -> LinkStep {
    if job.name is None {
        LinkStep::Finished(Err(LinkError::InvalidSource))
    } else {
        LinkStep::MakeBackupRoot
    }
}

/// The step once a place for the backup is chosen.
pub open spec fn with_place(round: Round, index: u32) -> LinkStep {
    let backup = Backup { dir: round_dir(round), index };
    if round == Round::First {
        LinkStep::CheckSource { backup }
    } else {
        LinkStep::Rename { round, backup, tries: 0 }
    }
}

/// The step when no rename has worked and no process is left to end.
pub open spec fn last_resort(job: LinkJob, failure: OsFailure) -> LinkStep {
    if failure.kind == FailureKind::CrossesDevices {
        if job.has_parent {
            LinkStep::Probe { round: Round::Crossed, index: 0 }
        } else {
            LinkStep::Finished(Err(LinkError::InvalidSource))
        }
    } else {
        LinkStep::NameLockers { failure }
    }
}

/// The step when all renames of a round have failed, the last one with `failure`.
pub open spec fn after_round(
    job: LinkJob,
    round: Round,
    backup: Backup,
    failure: OsFailure,
) -> LinkStep {
    match round {
        Round::First if access_denied(failure) && job.has_parent => LinkStep::Probe {
            round: Round::Denied,
            index: 0,
        },
        Round::First | Round::Denied => if job.auto_kill {
            LinkStep::FindLockers { backup, failure }
        } else {
            last_resort(job, failure)
        },
        Round::Killed => last_resort(job, failure),
        Round::Crossed => LinkStep::NameLockers { failure },
    }
}

/// The step that follows `step` when its work came to `reply`.
pub open spec fn link_next(job: LinkJob, step: LinkStep, reply: LinkReply) -> LinkStep {
    match step {
        LinkStep::MakeBackupRoot => LinkStep::Probe { round: Round::First, index: 0 },
        LinkStep::Probe { round, index } => if reply == LinkReply::Answer(false) {
            with_place(round, index)
        } else if index < LAST_BACKUP_INDEX {
            LinkStep::Probe { round, index: (index + 1) as u32 }
        } else {
            with_place(round, 0)
        },
        LinkStep::CheckSource { backup } => if reply == LinkReply::Answer(true) {
            LinkStep::DropOldLink
        } else {
            LinkStep::Rename { round: Round::First, backup, tries: 0 }
        },
        LinkStep::DropOldLink => LinkStep::Relink,
        LinkStep::Relink => LinkStep::Finished(
            if reply is Done {
                Ok(0)
            } else {
                Err(LinkError::Relink)
            },
        ),
        LinkStep::Rename { round, backup, tries } => match reply {
            LinkReply::Failed(failure) => if round == Round::First && failure.kind
                == FailureKind::CrossesDevices {
                after_round(job, round, backup, failure)
            } else {
                LinkStep::PauseAfterRename { round, backup, tries: (tries + 1) as u32, failure }
            },
            _ => LinkStep::CreateJunction { backup },
        },
        LinkStep::PauseAfterRename { round, backup, tries, failure } => if tries < RENAME_TRIES {
            LinkStep::Rename { round, backup, tries }
        } else {
            after_round(job, round, backup, failure)
        },
        LinkStep::FindLockers { backup, failure } => if reply->Pids_0@.len() == 0 {
            last_resort(job, failure)
        } else {
            LinkStep::Kill { backup, pids: reply->Pids_0 }
        },
        LinkStep::Kill { backup, pids } => LinkStep::PauseAfterKill { backup },
        LinkStep::PauseAfterKill { backup } => LinkStep::Rename {
            round: Round::Killed,
            backup,
            tries: 0,
        },
        LinkStep::NameLockers { failure } => LinkStep::Finished(
            Err(LinkError::BackupFailed { detail: failure.text, pids: reply->Pids_0 }),
        ),
        LinkStep::CreateJunction { backup } => match reply {
            LinkReply::Failed(failure) => LinkStep::ClearSource { backup, cause: failure.text },
            _ => LinkStep::RemoveBackup { backup },
        },
        LinkStep::RemoveBackup { backup } => if reply is Done {
            LinkStep::Finished(Ok(0))
        } else {
            LinkStep::MeasureBackup { backup }
        },
        LinkStep::MeasureBackup { backup } => LinkStep::Finished(Ok(reply->Size_0)),
        LinkStep::ClearSource { backup, cause } => LinkStep::RestoreSource { backup, cause },
        LinkStep::RestoreSource { backup, cause } => LinkStep::Finished(
            Err(
                if reply is Done {
                    LinkError::Junction(cause)
                } else {
                    LinkError::RestoreFailed
                },
            ),
        ),
        LinkStep::Finished(result) => LinkStep::Finished(result),
    }
}

/// Whether a step can occur: the number of a rename or of a place is in range.
pub open spec fn in_range(step: LinkStep) -> bool {
    match step {
        LinkStep::Probe { index, .. } => index <= LAST_BACKUP_INDEX,
        LinkStep::Rename { tries, .. } => tries < RENAME_TRIES,
        LinkStep::PauseAfterRename { tries, .. } => 1 <= tries <= RENAME_TRIES,
        _ => true,
    }
}

impl Round {
    /// The directory in which the round looks for a place.
    pub fn dir(self) -> (r: BackupDir)
        ensures
            r == round_dir(self),
    {
        if self == Round::First {
            BackupDir::Temp
        } else {
            BackupDir::Parent
        }
    }
}

fn place(round: Round, index: u32) -> (r: LinkStep)
    ensures
        r == with_place(round, index),
{
    let backup = Backup { dir: round.dir(), index };
    if round == Round::First {
        LinkStep::CheckSource { backup }
    } else {
        LinkStep::Rename { round, backup, tries: 0 }
    }
}

fn resort(job: &LinkJob, failure: OsFailure) -> (r: LinkStep)
    ensures
        r == last_resort(*job, failure),
{
    if failure.kind != FailureKind::CrossesDevices {
        LinkStep::NameLockers { failure }
    } else if job.has_parent {
        LinkStep::Probe { round: Round::Crossed, index: 0 }
    } else {
        LinkStep::Finished(Err(LinkError::InvalidSource))
    }
}

fn is_denied(failure: &OsFailure) -> (r: bool)
    ensures
        r == access_denied(*failure),
{
    if failure.kind == FailureKind::PermissionDenied {
        return true;
    }
    match failure.code {
        Some(code) => code == 5,
        None => false,
    }
}

fn give_up_round(job: &LinkJob, round: Round, backup: Backup, failure: OsFailure) -> (r: LinkStep)
    ensures
        r == after_round(*job, round, backup, failure),
{
    if round == Round::First && job.has_parent && is_denied(&failure) {
        return LinkStep::Probe { round: Round::Denied, index: 0 };
    }
    match round {
        Round::Crossed => LinkStep::NameLockers { failure },
        Round::Killed => resort(job, failure),
        _ => {
            if job.auto_kill {
                LinkStep::FindLockers { backup, failure }
            } else {
                resort(job, failure)
            }
        },
    }
}

/// Whether creating a junction comes to `result`, by whether the command could be run,
/// succeeded, and what it wrote.
pub open spec fn junction_comes_to(
    ran: Result<(bool, String), String>,
    result: Result<(), String>,
) -> bool {
    match ran {
        Err(text) => result == Err::<(), String>(text),
        Ok((success, output)) => if success {
            result is Ok
        } else {
            result matches Err(text) && text@ == "mklink 失败: "@ + output@
        },
    }
}

impl Mover {
    /// Begins to replace the folder `name` by a junction: the job, and its first step.
    pub fn place_junction_with_backup(
        name: Option<String>,
        stamp: u64,
        has_parent: bool,
        auto_kill: bool,
    ) -> (r: (LinkJob, LinkStep))
        ensures
            r.0 == (LinkJob { name, stamp, has_parent, auto_kill }),
            r.1 == link_start(r.0),
            r.1 == link_run(r.0, Seq::empty()),
            in_range(r.1),
    {
        let step = match &name {
            None => LinkStep::Finished(Err(LinkError::InvalidSource)),
            Some(_) => LinkStep::MakeBackupRoot,
        };
        (LinkJob { name, stamp, has_parent, auto_kill }, step)
    }

    /// What creating a junction comes to: `ran` tells whether the command succeeded and what
    /// it wrote to its error output, or why it could not be run.
    pub fn create_junction(ran: Result<(bool, String), String>) -> (r: Result<(), String>)
        ensures
            junction_comes_to(ran, r),
    {
        match ran {
            Err(text) => Err(text),
            Ok((success, output)) => {
                if success {
                    Ok(())
                } else {
                    Err("mklink 失败: ".to_owned().concat(output.as_str()))
                }
            },
        }
    }
}

impl LinkJob {
    /// Takes what came of the work of `step` to the next step.
    pub fn next(&self, step: LinkStep, reply: LinkReply) -> (r: LinkStep)
        requires
            in_range(step),
            step.accepts(reply),
        ensures
            r == link_next(*self, step, reply),
            in_range(r),
    {
        match (step, reply) {
            (LinkStep::MakeBackupRoot, _) => LinkStep::Probe { round: Round::First, index: 0 },
            (LinkStep::Probe { round, index }, LinkReply::Answer(taken)) => {
                if !taken {
                    place(round, index)
                } else if index < LAST_BACKUP_INDEX {
                    LinkStep::Probe { round, index: index + 1 }
                } else {
                    place(round, 0)
                }
            },
            (LinkStep::CheckSource { backup }, LinkReply::Answer(is_link)) => {
                if is_link {
                    LinkStep::DropOldLink
                } else {
                    LinkStep::Rename { round: Round::First, backup, tries: 0 }
                }
            },
            (LinkStep::DropOldLink, _) => LinkStep::Relink,
            (LinkStep::Relink, LinkReply::Done) => LinkStep::Finished(Ok(0)),
            (LinkStep::Relink, _) => LinkStep::Finished(Err(LinkError::Relink)),
            (LinkStep::Rename { round, backup, tries }, LinkReply::Failed(failure)) => {
                if round == Round::First && failure.kind == FailureKind::CrossesDevices {
                    give_up_round(self, round, backup, failure)
                } else {
                    LinkStep::PauseAfterRename { round, backup, tries: tries + 1, failure }
                }
            },
            (LinkStep::Rename { round: _, backup, tries: _ }, _) => LinkStep::CreateJunction {
                backup,
            },
            (LinkStep::PauseAfterRename { round, backup, tries, failure }, _) => {
                if tries < RENAME_TRIES {
                    LinkStep::Rename { round, backup, tries }
                } else {
                    give_up_round(self, round, backup, failure)
                }
            },
            (LinkStep::FindLockers { backup, failure }, LinkReply::Pids(pids)) => {
                if pids.len() == 0 {
                    resort(self, failure)
                } else {
                    LinkStep::Kill { backup, pids }
                }
            },
            (LinkStep::Kill { backup, pids: _ }, _) => LinkStep::PauseAfterKill { backup },
            (LinkStep::PauseAfterKill { backup }, _) => LinkStep::Rename {
                round: Round::Killed,
                backup,
                tries: 0,
            },
            (LinkStep::NameLockers { failure }, LinkReply::Pids(pids)) => LinkStep::Finished(
                Err(LinkError::BackupFailed { detail: failure.text, pids }),
            ),
            (LinkStep::CreateJunction { backup }, LinkReply::Failed(failure)) => {
                LinkStep::ClearSource { backup, cause: failure.text }
            },
            (LinkStep::CreateJunction { backup }, _) => LinkStep::RemoveBackup { backup },
            (LinkStep::RemoveBackup { backup: _ }, LinkReply::Done) => LinkStep::Finished(Ok(0)),
            (LinkStep::RemoveBackup { backup }, _) => LinkStep::MeasureBackup { backup },
            (LinkStep::MeasureBackup { backup: _ }, LinkReply::Size(left)) => LinkStep::Finished(
                Ok(left),
            ),
            (LinkStep::ClearSource { backup, cause }, _) => LinkStep::RestoreSource {
                backup,
                cause,
            },
            (LinkStep::RestoreSource { backup: _, cause }, LinkReply::Done) => LinkStep::Finished(
                Err(LinkError::Junction(cause)),
            ),
            (LinkStep::RestoreSource { .. }, _) => LinkStep::Finished(
                Err(LinkError::RestoreFailed),
            ),
            (step, _) => step,
        }
    }
}

/// The name of a backup: the folder's name, the time, and a number where it is not zero.
pub open spec fn backup_name(name: Seq<char>, stamp: u64, index: u32) -> Seq<char> {
    let first = name + ".windowsclear_bak_"@ + decimal(stamp as nat);
    if index == 0 {
        first
    } else {
        first + "_"@ + decimal(index as nat)
    }
}

impl LinkJob {
    /// The name of the backup with the number `index`.
    pub fn backup_file_name(&self, index: u32) -> (r: String)
        requires
            self.name is Some,
        ensures
            r@ == backup_name(self.name->0@, self.stamp, index),
    {
        let mut r = String::new();
        if let Some(name) = &self.name {
            r.append(name.as_str());
        }
        r.append(".windowsclear_bak_");
        append_decimal(&mut r, self.stamp);
        if index > 0 {
            r.append("_");
            append_decimal(&mut r, index as u64);
        }
        assert(r@ =~= backup_name(self.name->0@, self.stamp, index));
        r
    }
}

/// Two backups of one folder that were begun in the same second differ in their names
/// whenever they differ in their numbers.
pub proof fn law_backup_names_differ(name: Seq<char>, stamp: u64, i: u32, j: u32)
    requires
        i != j,
    ensures
        backup_name(name, stamp, i) != backup_name(name, stamp, j),
{
    reveal_strlit("_");
    let first = name + ".windowsclear_bak_"@ + decimal(stamp as nat);
    let n = first.len() as int;
    law_decimal_reads_back(i as nat);
    law_decimal_reads_back(j as nat);
    assert(i != 0 ==> backup_name(name, stamp, i).skip(n + 1) =~= decimal(i as nat));
    assert(j != 0 ==> backup_name(name, stamp, j).skip(n + 1) =~= decimal(j as nat));
}

/// What a user is told of an error.
pub open spec fn link_message(error: LinkError) -> Seq<char> {
    match error {
        LinkError::InvalidSource => "无效的源路径"@,
        LinkError::Relink => "创建链接失败"@,
        LinkError::BackupFailed { detail, pids } => "备份源目录失败: "@ + detail@
            + "。可能被占用，相关进程 PID: "@ + number_list(pids@),
        LinkError::RestoreFailed => "恢复源目录失败"@,
        LinkError::Junction(text) => text@,
    }
}

impl LinkError {
    /// What a user is told of the error.
    pub fn message(&self) -> (r: String)
        ensures
            r@ == link_message(*self),
    {
        match self {
            LinkError::InvalidSource => "无效的源路径".to_owned(),
            LinkError::Relink => "创建链接失败".to_owned(),
            LinkError::BackupFailed { detail, pids } => {
                let mut r = "备份源目录失败: ".to_owned();
                r.append(detail.as_str());
                r.append("。可能被占用，相关进程 PID: ");
                append_number_list(&mut r, pids);
                r
            },
            LinkError::RestoreFailed => "恢复源目录失败".to_owned(),
            LinkError::Junction(text) => text.clone(),
        }
    }
}

/// The step that is reached from the start by `replies`.
pub open spec fn link_run(job: LinkJob, replies: Seq<LinkReply>) -> LinkStep
    decreases replies.len(),
{
    if replies.len() == 0 {
        link_start(job)
    } else {
        link_next(job, link_run(job, replies.drop_last()), replies.last())
    }
}

/// Whether each of `replies` answers the work that was due.
pub open spec fn link_answers(job: LinkJob, replies: Seq<LinkReply>) -> bool
    decreases replies.len(),
{
    replies.len() == 0 || {
        &&& link_answers(job, replies.drop_last())
        &&& link_run(job, replies.drop_last()).accepts(replies.last())
    }
}

/// The places that the work touches.
pub struct LinkDisk {
    /// The folder's own place.
    pub source: Slot,
    /// The place to which the folder is renamed.
    pub backup: Slot,
}

/// What the work of `step` can do to the disk when it came to `reply`.
///
/// A rename moves the whole folder or nothing, a junction is only made where
/// nothing stands, and removing a directory may stop half way.
pub open spec fn link_effect(
    step: LinkStep,
    reply: LinkReply,
    before: LinkDisk,
    after: LinkDisk,
) -> bool {
    match step {
        LinkStep::CheckSource { .. } => after == before && reply == LinkReply::Answer(
            before.source is Link,
        ),
        LinkStep::DropOldLink => {
            &&& after.backup == before.backup
            &&& after.source == before.source || (before.source is Link && after.source is Empty)
        },
        LinkStep::Relink | LinkStep::CreateJunction { .. } => {
            &&& after.backup == before.backup
            &&& if reply is Done {
                before.source is Empty && after.source is Link
            } else {
                after.source == before.source || (before.source is Empty && after.source is Debris)
            }
        },
        LinkStep::Rename { .. } => if reply is Done {
            after == LinkDisk { source: Slot::Empty, backup: before.source }
        } else {
            after == before
        },
        LinkStep::RemoveBackup { .. } => {
            &&& after.source == before.source
            &&& after.backup is Empty || (reply is Failed && after.backup is Debris)
        },
        LinkStep::ClearSource { .. } => {
            &&& after.backup == before.backup
            &&& after.source is Empty || after.source is Debris
        },
        LinkStep::RestoreSource { .. } => if reply is Done {
            after == LinkDisk { source: before.backup, backup: Slot::Empty }
        } else {
            after == before
        },
        _ => after == before,
    }
}

/// Whether the disk can have gone through `disks` while the work came to `replies`.
pub open spec fn link_history(
    job: LinkJob,
    replies: Seq<LinkReply>,
    disks: Seq<LinkDisk>,
) -> bool {
    &&& disks.len() == replies.len() + 1
    &&& link_answers(job, replies)
    &&& forall|i: int|
        0 <= i < replies.len() ==> link_effect(
            link_run(job, replies.take(i)),
            replies[i],
            disks[i],
            #[trigger] disks[i + 1],
        )
}

/// Where the folder is while `step` is due, if a real directory stood there at the start.
pub open spec fn folder_kept(step: LinkStep, disk: LinkDisk) -> bool {
    match step {
        LinkStep::DropOldLink | LinkStep::Relink => false,
        LinkStep::CreateJunction { .. } => disk.source is Empty && disk.backup is Tree,
        LinkStep::RemoveBackup { .. } | LinkStep::MeasureBackup { .. } => disk.source is Link,
        LinkStep::ClearSource { .. } | LinkStep::RestoreSource { .. } => disk.backup is Tree,
        LinkStep::Finished(Ok(_)) => disk.source is Link,
        LinkStep::Finished(Err(LinkError::RestoreFailed)) => disk.backup is Tree,
        LinkStep::Finished(Err(LinkError::Junction(_))) => disk.source is Tree && disk.backup
            is Empty,
        _ => disk.source is Tree,
    }
}

proof fn lemma_shorter_history(job: LinkJob, replies: Seq<LinkReply>, disks: Seq<LinkDisk>)
    requires
        link_history(job, replies, disks),
        replies.len() > 0,
    ensures
        link_history(job, replies.drop_last(), disks.drop_last()),
{
    let shorter = replies.drop_last();
    assert forall|i: int| 0 <= i < shorter.len() implies link_effect(
        link_run(job, shorter.take(i)),
        shorter[i],
        disks.drop_last()[i],
        #[trigger] disks.drop_last()[i + 1],
    ) by {
        assert(shorter.take(i) =~= replies.take(i));
        assert(disks[i + 1] == disks.drop_last()[i + 1]);
    }
}

/// However the work goes, the folder is never lost: at every moment it stands in its
/// place or whole in its backup, or the junction to the copy stands in its place.
/// When the work ends well, the junction stands; when it ends in an error, the folder
/// is back in its place, or, if even that failed, whole in its backup. Where it was brought
/// back, no backup is left.
pub proof fn law_link_keeps_folder(job: LinkJob, replies: Seq<LinkReply>, disks: Seq<LinkDisk>)
    requires
        link_history(job, replies, disks),
        disks[0].source is Tree,
    ensures
        folder_kept(link_run(job, replies), disks.last()),
        disks.last().source is Tree || disks.last().backup is Tree || disks.last().source is Link,
    decreases replies.len(),
{
    if replies.len() > 0 {
        let shorter = replies.drop_last();
        let n = shorter.len() as int;
        lemma_shorter_history(job, replies, disks);
        law_link_keeps_folder(job, shorter, disks.drop_last());
        assert(replies.take(n) =~= shorter);
        assert(disks[n + 1] == disks.last());
        assert(disks.drop_last().last() == disks[n]);
    }
}

/// Whether replacing a folder by a junction can take the disk from `before` to `after`
/// with the given result.
pub open spec fn placing(
    before: LinkDisk,
    result: Result<u64, LinkError>,
    after: LinkDisk,
) -> bool {
    exists|job: LinkJob, replies: Seq<LinkReply>, disks: Seq<LinkDisk>|
        {
            &&& #[trigger] link_history(job, replies, disks)
            &&& disks[0] == before
            &&& disks.last() == after
            &&& link_run(job, replies) == LinkStep::Finished(result)
        }
}

/// Where a folder is once the attempt to replace it has come to its end: if it worked, the
/// junction stands; if it failed, the folder is back in its place, or, if even that failed,
/// whole in its backup.
pub proof fn law_placing_keeps_folder(
    before: LinkDisk,
    result: Result<u64, LinkError>,
    after: LinkDisk,
)
    requires
        placing(before, result, after),
        before.source is Tree,
    ensures
        match result {
            Ok(_) => after.source is Link,
            Err(LinkError::RestoreFailed) => after.backup is Tree,
            Err(LinkError::Junction(_)) => after.source is Tree && after.backup is Empty,
            Err(_) => after.source is Tree,
        },
{
    let (job, replies, disks) = choose|j: LinkJob, r: Seq<LinkReply>, d: Seq<LinkDisk>|
        {
            &&& #[trigger] link_history(j, r, d)
            &&& d[0] == before
            &&& d.last() == after
            &&& link_run(j, r) == LinkStep::Finished(result)
        };
    law_link_keeps_folder(job, replies, disks);
}

/// The backup is removed only while the junction stands.
pub proof fn law_link_backup_outlives_junction(
    job: LinkJob,
    replies: Seq<LinkReply>,
    disks: Seq<LinkDisk>,
)
    requires
        link_history(job, replies, disks),
        disks[0].source is Tree,
        link_run(job, replies) is RemoveBackup,
    ensures
        disks.last().source is Link,
{
    law_link_keeps_folder(job, replies, disks);
}

/// Where the work can be if a junction stood in the folder's place at the start.
pub open spec fn relinking(step: LinkStep, disk: LinkDisk) -> bool {
    match step {
        LinkStep::MakeBackupRoot | LinkStep::CheckSource { .. } | LinkStep::DropOldLink => {
            disk.source is Link
        },
        LinkStep::Probe { round, .. } => disk.source is Link && round == Round::First,
        LinkStep::Relink => disk.source is Link || disk.source is Empty,
        LinkStep::Finished(Ok(left)) => disk.source is Link && left == 0,
        LinkStep::Finished(Err(error)) => error is InvalidSource || error is Relink,
        _ => false,
    }
}

/// A junction that stands in the folder's place already is made anew, and nothing is renamed,
/// copied or backed up: when the work ends well, a junction stands there again and no bytes
/// are left behind.
pub proof fn law_link_is_made_anew(job: LinkJob, replies: Seq<LinkReply>, disks: Seq<LinkDisk>)
    requires
        link_history(job, replies, disks),
        disks[0].source is Link,
    ensures
        relinking(link_run(job, replies), disks.last()),
        disks.last().backup == disks[0].backup,
    decreases replies.len(),
{
    if replies.len() > 0 {
        let shorter = replies.drop_last();
        let n = shorter.len() as int;
        lemma_shorter_history(job, replies, disks);
        law_link_is_made_anew(job, shorter, disks.drop_last());
        assert(replies.take(n) =~= shorter);
        assert(disks[n + 1] == disks.last());
        assert(disks.drop_last().last() == disks[n]);
    }
}

/// Processes are looked for and ended only where the job allows it.
pub proof fn law_link_kills_only_where_allowed(job: LinkJob, replies: Seq<LinkReply>)
    requires
        link_answers(job, replies),
        !job.auto_kill,
    ensures
        !(link_run(job, replies) is FindLockers),
        !(link_run(job, replies) is Kill),
    decreases replies.len(),
{
    if replies.len() > 0 {
        law_link_kills_only_where_allowed(job, replies.drop_last());
    }
}

/// The failure that came last.
pub open spec fn last_failure(replies: Seq<LinkReply>) -> Option<OsFailure>
    decreases replies.len(),
{
    if replies.len() == 0 {
        None
    } else {
        match replies.last() {
            LinkReply::Failed(failure) => Some(failure),
            _ => last_failure(replies.drop_last()),
        }
    }
}

/// The failure that a step carries along.
pub open spec fn carried_failure(step: LinkStep) -> Option<OsFailure> {
    match step {
        LinkStep::PauseAfterRename { failure, .. }
        | LinkStep::FindLockers { failure, .. }
        | LinkStep::NameLockers { failure } => Some(failure),
        _ => None,
    }
}

/// When no backup could be made, the error tells of the rename that failed last.
pub proof fn law_link_tells_last_failure(job: LinkJob, replies: Seq<LinkReply>)
    requires
        link_answers(job, replies),
    ensures
        carried_failure(link_run(job, replies)) is Some ==> carried_failure(link_run(job, replies))
            == last_failure(replies),
        link_run(job, replies) matches LinkStep::Finished(
            Err(LinkError::BackupFailed { detail, .. }),
        ) ==> last_failure(replies) is Some && detail == last_failure(replies)->0.text,
    decreases replies.len(),
{
    if replies.len() > 0 {
        law_link_tells_last_failure(job, replies.drop_last());
    }
}

/// How many of the replies came from renaming the folder to a backup.
pub open spec fn renames_made(job: LinkJob, replies: Seq<LinkReply>) -> nat
    decreases replies.len(),
{
    if replies.len() == 0 {
        0
    } else {
        renames_made(job, replies.drop_last()) + if link_run(job, replies.drop_last()) is Rename {
            1nat
        } else {
            0nat
        }
    }
}

/// How many renames can come before a round.
pub open spec fn renames_before(round: Round) -> nat {
    match round {
        Round::First => 0,
        Round::Denied => 3,
        Round::Killed => 6,
        Round::Crossed => 9,
    }
}

/// The folder is renamed at most twelve times: three times in each of four rounds.
pub proof fn law_link_renames_are_bounded(job: LinkJob, replies: Seq<LinkReply>)
    requires
        link_answers(job, replies),
    ensures
        renames_made(job, replies) <= 12,
        in_range(link_run(job, replies)),
        match link_run(job, replies) {
            LinkStep::MakeBackupRoot | LinkStep::CheckSource { .. } => renames_made(job, replies)
                == 0,
            LinkStep::Probe { round, .. } => renames_made(job, replies) <= renames_before(round),
            LinkStep::Rename { round, tries, .. }
            | LinkStep::PauseAfterRename { round, tries, .. } => renames_made(job, replies)
                <= renames_before(round) + tries,
            LinkStep::FindLockers { .. }
            | LinkStep::Kill { .. }
            | LinkStep::PauseAfterKill { .. } => renames_made(job, replies) <= 6,
            _ => true,
        },
    decreases replies.len(),
{
    if replies.len() > 0 {
        law_link_renames_are_bounded(job, replies.drop_last());
    }
}

/// An upper bound on the steps that are still to come.
pub open spec fn link_work_left(step: LinkStep) -> nat {
    let rounds_after = |round: Round|
        match round {
            Round::First => 3nat,
            Round::Denied => 2nat,
            Round::Killed => 1nat,
            Round::Crossed => 0nat,
        };
    match step {
        LinkStep::MakeBackupRoot => 9000,
        LinkStep::Probe { round, index } => (rounds_after(round) * 2000 + 2000 - index) as nat,
        LinkStep::CheckSource { .. } => 7000,
        LinkStep::Rename { round, tries, .. } => (rounds_after(round) * 2000 + 500 - 2
            * tries) as nat,
        LinkStep::PauseAfterRename { round, tries, .. } => (rounds_after(round) * 2000 + 501 - 2
            * tries) as nat,
        LinkStep::FindLockers { .. } => 4400,
        LinkStep::Kill { .. } => 4300,
        LinkStep::PauseAfterKill { .. } => 4200,
        LinkStep::NameLockers { .. } => 100,
        LinkStep::DropOldLink => 6,
        LinkStep::Relink | LinkStep::CreateJunction { .. } => 5,
        LinkStep::ClearSource { .. } => 4,
        LinkStep::RestoreSource { .. } | LinkStep::RemoveBackup { .. } => 3,
        LinkStep::MeasureBackup { .. } => 1,
        LinkStep::Finished(_) => 0,
    }
}

/// The work always comes to an end: every reply brings it nearer.
pub proof fn law_link_ends(job: LinkJob, step: LinkStep, reply: LinkReply)
    requires
        in_range(step),
        step.accepts(reply),
    ensures
        link_work_left(link_next(job, step, reply)) < link_work_left(step),
        link_work_left(step) <= 9000,
{
}

/// The round that is lost with `reply` to `step`, the backup it went to and the failure that
/// ended it: the third rename has failed, or the first round came upon another device.
pub open spec fn lost_round(step: LinkStep, reply: LinkReply) -> Option<(Round, Backup, OsFailure)> {
    match (step, reply) {
        (LinkStep::PauseAfterRename { round, backup, tries, failure }, _) if tries >= 3 => Some(
            (round, backup, failure),
        ),
        (
            LinkStep::Rename { round: Round::First, backup, tries: _ },
            LinkReply::Failed(failure),
        ) if failure.kind == FailureKind::CrossesDevices => Some((Round::First, backup, failure)),
        _ => None,
    }
}

/// Whether the parent can be tried because access was denied.
pub open spec fn denied_beside_parent(job: LinkJob, failure: OsFailure) -> bool {
    &&& job.has_parent
    &&& failure.kind == FailureKind::PermissionDenied || failure.code == Some(5i32)
}

/// The failure after which neither the parent nor ending processes is left to be tried.
pub open spec fn no_way_left(job: LinkJob, step: LinkStep, reply: LinkReply) -> Option<OsFailure> {
    match (step, reply) {
        (LinkStep::FindLockers { backup: _, failure }, LinkReply::Pids(pids)) if pids@.len()
            == 0 => Some(failure),
        _ => match lost_round(step, reply) {
            Some((Round::Killed, _, failure)) => Some(failure),
            Some((Round::Denied, _, failure)) if !job.auto_kill => Some(failure),
            Some((Round::First, _, failure)) if !job.auto_kill && !denied_beside_parent(
                job,
                failure,
            ) => Some(failure),
            _ => None,
        },
    }
}

/// Whether the number of the place for a round's backup is settled: that place is free, or all
/// are taken and it is the first.
pub open spec fn place_is_settled(
    step: LinkStep,
    reply: LinkReply,
    round: Round,
    index: u32,
) -> bool {
    ||| step == LinkStep::Probe { round, index } && reply == LinkReply::Answer(false)
    ||| step == LinkStep::Probe { round, index: 999 } && reply == LinkReply::Answer(true)
        && index == 0
}

/// No step is due without its cause. What is done with a backup after the rename is done with
/// the one that the rename went to; a round is given up after three failed renames, or, the
/// first, upon another device; processes are ended only where that is allowed and some hold
/// the folder; and each end has the failure that it tells of.
pub proof fn law_link_step_has_cause(job: LinkJob, step: LinkStep, reply: LinkReply)
    requires
        step.accepts(reply),
        in_range(step),
    ensures
        match link_next(job, step, reply) {
            LinkStep::MakeBackupRoot => false,
            LinkStep::Probe { round, index } => if index > 0 {
                &&& step == LinkStep::Probe { round, index: (index - 1) as u32 }
                &&& reply == LinkReply::Answer(true)
                &&& index <= 999
            } else {
                match round {
                    Round::First => step is MakeBackupRoot,
                    Round::Denied => lost_round(step, reply) matches Some((from, _, failure))
                        && from == Round::First && denied_beside_parent(job, failure),
                    Round::Killed => false,
                    Round::Crossed => no_way_left(job, step, reply) matches Some(failure)
                        && failure.kind == FailureKind::CrossesDevices && job.has_parent,
                }
            },
            LinkStep::CheckSource { backup } => {
                &&& backup.dir == BackupDir::Temp
                &&& place_is_settled(step, reply, Round::First, backup.index)
            },
            LinkStep::DropOldLink => step is CheckSource && reply == LinkReply::Answer(true),
            LinkStep::Relink => step is DropOldLink,
            LinkStep::Rename { round, backup, tries } => if tries > 0 {
                &&& tries < 3
                &&& step matches LinkStep::PauseAfterRename {
                    round: r,
                    backup: b,
                    tries: t,
                    failure: _,
                } && r == round && b == backup && t == tries
            } else {
                match round {
                    Round::First => step == LinkStep::CheckSource { backup } && reply
                        == LinkReply::Answer(false),
                    Round::Killed => {
                        ||| step == LinkStep::PauseAfterKill { backup }
                        ||| backup.dir == BackupDir::Parent && place_is_settled(
                            step,
                            reply,
                            round,
                            backup.index,
                        )
                    },
                    Round::Denied | Round::Crossed => {
                        &&& backup.dir == BackupDir::Parent
                        &&& place_is_settled(step, reply, round, backup.index)
                    },
                }
            },
            LinkStep::PauseAfterRename { round, backup, tries, failure } => {
                &&& tries > 0
                &&& step == LinkStep::Rename { round, backup, tries: (tries - 1) as u32 }
                &&& reply == LinkReply::Failed(failure)
                &&& round != Round::First || failure.kind != FailureKind::CrossesDevices
            },
            LinkStep::FindLockers { backup, failure } => {
                &&& job.auto_kill
                &&& lost_round(step, reply) matches Some((round, b, f)) && b == backup && f
                    == failure && (round == Round::Denied || (round == Round::First
                    && !denied_beside_parent(job, failure)))
            },
            LinkStep::Kill { backup, pids } => {
                &&& step matches LinkStep::FindLockers { backup: b, failure: _ } && b == backup
                &&& reply == LinkReply::Pids(pids)
                &&& pids@.len() > 0
            },
            LinkStep::PauseAfterKill { backup } => {
                step matches LinkStep::Kill { backup: b, pids: _ } && b == backup
            },
            LinkStep::NameLockers { failure } => {
                ||| no_way_left(job, step, reply) == Some(failure) && failure.kind
                    != FailureKind::CrossesDevices
                ||| lost_round(step, reply) matches Some((round, _, f)) && round == Round::Crossed
                    && f == failure
            },
            LinkStep::CreateJunction { backup } => {
                &&& step matches LinkStep::Rename { round: _, backup: b, tries: _ } && b == backup
                &&& reply is Done
            },
            LinkStep::RemoveBackup { backup } => {
                step == LinkStep::CreateJunction { backup } && reply is Done
            },
            LinkStep::MeasureBackup { backup } => {
                step == LinkStep::RemoveBackup { backup } && reply is Failed
            },
            LinkStep::ClearSource { backup, cause } => {
                &&& step == LinkStep::CreateJunction { backup }
                &&& reply matches LinkReply::Failed(failure) && failure.text == cause
            },
            LinkStep::RestoreSource { backup, cause } => {
                step == LinkStep::ClearSource { backup, cause }
            },
            LinkStep::Finished(Ok(left)) => {
                ||| (step is Relink || step is RemoveBackup) && reply is Done && left == 0
                ||| step is MeasureBackup && reply == LinkReply::Size(left)
            },
            LinkStep::Finished(Err(LinkError::InvalidSource)) => no_way_left(
                job,
                step,
                reply,
            ) matches Some(failure) && failure.kind == FailureKind::CrossesDevices
                && !job.has_parent,
            LinkStep::Finished(Err(LinkError::Relink)) => step is Relink && reply is Failed,
            LinkStep::Finished(Err(LinkError::BackupFailed { detail, pids })) => {
                &&& step matches LinkStep::NameLockers { failure } && failure.text == detail
                &&& reply == LinkReply::Pids(pids)
            },
            LinkStep::Finished(Err(LinkError::RestoreFailed)) => {
                step is RestoreSource && reply is Failed
            },
            LinkStep::Finished(Err(LinkError::Junction(cause))) => {
                &&& step matches LinkStep::RestoreSource { backup: _, cause: c } && c == cause
                &&& reply is Done
            },
        },
{
}

/// A junction counts as made exactly if the command ran and succeeded; else the reason is told:
/// what the command wrote, or why it could not be run.
pub proof fn law_junction_result_is_exact(
    ran: Result<(bool, String), String>,
    result: Result<(), String>,
)
    requires
        junction_comes_to(ran, result),
    ensures
        result is Ok <==> (ran is Ok && ran->Ok_0.0),
        ran is Err ==> result == Err::<(), String>(ran->Err_0),
        ran is Ok && !ran->Ok_0.0 ==> contains(result->Err_0@, ran->Ok_0.1@),
{
    if ran is Ok && !ran->Ok_0.0 {
        let output = ran->Ok_0.1@;
        let none = Seq::<char>::empty();
        assert("mklink 失败: "@ + output =~= "mklink 失败: "@ + output + none);
        law_contained_text_has_sides(output, "mklink 失败: "@, output, none);
    }
}

/// The name of a backup begins with the folder's name and a mark, and the time and the number
/// can be read back from what follows; the number zero is not written.
pub proof fn law_backup_name_reads_back(name: Seq<char>, stamp: u64, index: u32)
    ensures
        backup_name(name, stamp, index).take(name.len() as int) == name,
        backup_name(name, stamp, index).subrange(name.len() as int, name.len() as int + 18)
            == ".windowsclear_bak_"@,
        index == 0 ==> number_of(backup_name(name, stamp, index).skip(name.len() as int + 18)) == stamp,
        index > 0 ==> exists|at: int|
            name.len() + 18 < at < backup_name(name, stamp, index).len() && #[trigger] backup_name(
                name,
                stamp,
                index,
            )[at] == '_' && number_of(
                backup_name(name, stamp, index).subrange(name.len() as int + 18, at),
            ) == stamp && number_of(backup_name(name, stamp, index).skip(at + 1)) == index,
{
    reveal_strlit(".windowsclear_bak_");
    reveal_strlit("_");
    let whole = backup_name(name, stamp, index);
    let n = name.len() as int;
    law_decimal_reads_back(stamp as nat);
    law_decimal_reads_back(index as nat);
    assert(whole.take(n) =~= name);
    assert(whole.subrange(n, n + 18) =~= ".windowsclear_bak_"@);
    let at = n + 18 + decimal(stamp as nat).len();
    if index == 0 {
        assert(whole.skip(n + 18) =~= decimal(stamp as nat));
    } else {
        assert(whole[at] == '_');
        assert(whole.subrange(n + 18, at) =~= decimal(stamp as nat));
        assert(whole.skip(at + 1) =~= decimal(index as nat));
    }
}

/// What a user is told of a folder that could not be renamed holds the failure, and ends with
/// the processes that hold the folder; of a junction that failed, exactly its cause is told.
pub proof fn law_link_message_tells_all(error: LinkError)
    ensures
        error is BackupFailed ==> contains(link_message(error), error->detail@) && link_message(
            error,
        ).skip(link_message(error).len() - number_list(error->pids@).len()) == number_list(
            error->pids@,
        ),
        error is Junction ==> link_message(error) == error->Junction_0@,
{
    if let LinkError::BackupFailed { detail, pids } = error {
        let told = link_message(error);
        let list = number_list(pids@);
        let a = "备份源目录失败: "@;
        let b = "。可能被占用，相关进程 PID: "@;
        assert(told =~= a + detail@ + (b + list));
        law_contained_text_has_sides(told, a, detail@, b + list);
        assert(told.skip(told.len() - list.len()) =~= list);
    }
}

/// The work begins with the backup directory, but for a folder whose path has no name, which
/// is refused at once; no answer to it is needed for that.
pub proof fn law_nameless_folder_is_refused(job: LinkJob)
    ensures
        job.name is None <==> link_run(job, Seq::empty()) == LinkStep::Finished(
            Err(LinkError::InvalidSource),
        ),
        job.name is Some <==> link_run(job, Seq::empty()) is MakeBackupRoot,
{
}

} // verus!
