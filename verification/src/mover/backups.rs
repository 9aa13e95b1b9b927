//! Where the backup of a folder goes while the folder is replaced by a junction.

use vstd::prelude::*;

use super::link::{
    in_range, link_answers, link_run, Backup, BackupDir, LinkError, LinkJob, LinkReply, LinkStep,
    Round,
};
use super::Slot;

verus! {

/// The backup that the folder was renamed to last.
pub open spec fn last_backup(job: LinkJob, replies: Seq<LinkReply>) -> Option<Backup>
    decreases replies.len(),
{
    if replies.len() == 0 {
        None
    } else {
        match link_run(job, replies.drop_last()) {
            LinkStep::Rename { backup, .. } if replies.last() is Done => Some(backup),
            _ => last_backup(job, replies.drop_last()),
        }
    }
}

/// The backup that a step after the rename speaks of.
pub open spec fn named_backup(step: LinkStep) -> Option<Backup> {
    match step {
        LinkStep::CreateJunction { backup }
        | LinkStep::RemoveBackup { backup }
        | LinkStep::MeasureBackup { backup }
        | LinkStep::ClearSource { backup, .. }
        | LinkStep::RestoreSource { backup, .. } => Some(backup),
        _ => None,
    }
}

/// What is done after the rename is done with the backup that the folder was renamed to, and
/// with no other.
pub proof fn law_one_backup_is_used(job: LinkJob, replies: Seq<LinkReply>)
    requires
        link_answers(job, replies),
    ensures
        named_backup(link_run(job, replies)) is Some ==> named_backup(link_run(job, replies))
            == last_backup(job, replies),
        named_backup(link_run(job, replies)) is None ==> last_backup(job, replies) is None
            || link_run(job, replies) is Finished,
    decreases replies.len(),
{
    if replies.len() > 0 {
        law_one_backup_is_used(job, replies.drop_last());
    }
}

/// The folder's own place, and every place that a backup can have.
pub struct Places {
    pub source: Slot,
    pub backups: Map<Backup, Slot>,
}

/// Whether a place for a backup is free.
pub open spec fn is_free(places: Places, backup: Backup) -> bool {
    places.backups[backup] is Empty
}

/// The place that is looked at for a round: in the temporary directory for the first round,
/// beside the folder for the others.
pub open spec fn place_of(round: Round, index: u32) -> Backup {
    Backup {
        dir: match round {
            Round::First => BackupDir::Temp,
            Round::Denied | Round::Killed | Round::Crossed => BackupDir::Parent,
        },
        index,
    }
}

/// What the work of `step` can do to the places when it came to `reply`. It acts on the place
/// that the step names.
pub open spec fn places_effect(
    step: LinkStep,
    reply: LinkReply,
    before: Places,
    after: Places,
) -> bool {
    match step {
        LinkStep::Probe { round, index } => {
            &&& after == before
            &&& reply == LinkReply::Answer(!is_free(before, place_of(round, index)))
        },
        LinkStep::CheckSource { .. } => {
            after == before && reply == LinkReply::Answer(before.source is Link)
        },
        LinkStep::DropOldLink => {
            &&& after.backups == before.backups
            &&& after.source == before.source || (before.source is Link && after.source is Empty)
        },
        LinkStep::Relink | LinkStep::CreateJunction { .. } => {
            &&& after.backups == before.backups
            &&& if reply is Done {
                before.source is Empty && after.source is Link
            } else {
                after.source == before.source || (before.source is Empty && after.source is Debris)
            }
        },
        LinkStep::Rename { backup, .. } => after == if reply is Done {
            Places {
                source: Slot::Empty,
                backups: before.backups.insert(backup, before.source),
            }
        } else {
            before
        },
        LinkStep::RemoveBackup { backup } => {
            &&& after.source == before.source
            &&& after.backups == before.backups.insert(backup, after.backups[backup])
            &&& after.backups[backup] is Empty || (reply is Failed && after.backups[backup]
                is Debris)
        },
        LinkStep::ClearSource { .. } => {
            &&& after.backups == before.backups
            &&& after.source is Empty || after.source is Debris
        },
        LinkStep::RestoreSource { backup, .. } => after == if reply is Done {
            Places {
                source: before.backups[backup],
                backups: before.backups.insert(backup, Slot::Empty),
            }
        } else {
            before
        },
        _ => after == before,
    }
}

/// Whether the places can have gone through `disks` while the work came to `replies`.
pub open spec fn places_history(
    job: LinkJob,
    replies: Seq<LinkReply>,
    disks: Seq<Places>,
) -> bool {
    &&& disks.len() == replies.len() + 1
    &&& link_answers(job, replies)
    &&& forall|i: int|
        0 <= i < replies.len() ==> places_effect(
            link_run(job, replies.take(i)),
            replies[i],
            disks[i],
            #[trigger] disks[i + 1],
        )
}

/// Whether a place is rightly chosen for a backup: it is the first free one of its directory,
/// or all of them are taken and it is the first of all.
pub open spec fn is_well_chosen(places: Places, backup: Backup) -> bool {
    let dir = backup.dir;
    ||| {
        &&& is_free(places, backup)
        &&& backup.index <= 999
        &&& forall|j: u32| j < backup.index ==> !(#[trigger] is_free(places, Backup { dir, index: j }))
    }
    ||| {
        &&& backup.index == 0
        &&& forall|j: u32| j <= 999 ==> !(#[trigger] is_free(places, Backup { dir, index: j }))
    }
}

/// Whether the first places of a directory are taken.
spec fn taken_below(places: Places, dir: BackupDir, n: u32) -> bool {
    forall|j: u32| j < n ==> !(#[trigger] is_free(places, Backup { dir, index: j }))
}

/// Where the folder and its backup are while `step` is due, if a real directory stood in the
/// folder's place at the start. `last` is the backup that it was renamed to.
pub open spec fn places_keep(
    step: LinkStep,
    last: Option<Backup>,
    start: Places,
    disk: Places,
) -> bool {
    let backed_up = start.backups.insert(last->0, Slot::Tree);
    match step {
        LinkStep::DropOldLink | LinkStep::Relink => false,
        LinkStep::CreateJunction { .. } => {
            last is Some && disk == Places { source: Slot::Empty, backups: backed_up }
        },
        LinkStep::RemoveBackup { .. } => {
            last is Some && disk == Places { source: Slot::Link, backups: backed_up }
        },
        LinkStep::MeasureBackup { .. } | LinkStep::Finished(Ok(_)) => {
            &&& last is Some
            &&& disk.source is Link
            &&& disk.backups == start.backups.insert(last->0, disk.backups[last->0])
            &&& disk.backups[last->0] is Empty || disk.backups[last->0] is Debris
        },
        LinkStep::ClearSource { .. } | LinkStep::RestoreSource { .. } => {
            last is Some && disk.backups == backed_up
        },
        LinkStep::Finished(Err(LinkError::RestoreFailed)) => {
            last is Some && disk.backups == backed_up
        },
        LinkStep::Finished(Err(LinkError::Junction(_))) => {
            &&& last is Some
            &&& disk == Places {
                source: Slot::Tree,
                backups: start.backups.insert(last->0, Slot::Empty),
            }
        },
        _ => disk.source is Tree && disk.backups == start.backups,
    }
}

/// What is known of the place that a step goes by.
spec fn place_is_known(step: LinkStep, start: Places) -> bool {
    match step {
        LinkStep::Probe { round, index } => taken_below(start, place_of(round, index).dir, index),
        LinkStep::CheckSource { backup }
        | LinkStep::Rename { backup, .. }
        | LinkStep::PauseAfterRename { backup, .. }
        | LinkStep::FindLockers { backup, .. }
        | LinkStep::Kill { backup, .. }
        | LinkStep::PauseAfterKill { backup } => is_well_chosen(start, backup),
        _ => true,
    }
}

proof fn lemma_shorter_places(job: LinkJob, replies: Seq<LinkReply>, disks: Seq<Places>)
    requires
        places_history(job, replies, disks),
        replies.len() > 0,
    ensures
        places_history(job, replies.drop_last(), disks.drop_last()),
{
    let shorter = replies.drop_last();
    assert forall|i: int| 0 <= i < shorter.len() implies places_effect(
        link_run(job, shorter.take(i)),
        shorter[i],
        disks.drop_last()[i],
        #[trigger] disks.drop_last()[i + 1],
    ) by {
        assert(shorter.take(i) =~= replies.take(i));
        assert(disks[i + 1] == disks.drop_last()[i + 1]);
    }
}

proof fn lemma_choice(start: Places, round: Round, index: u32, reply: LinkReply)
    requires
        index <= 999,
        taken_below(start, place_of(round, index).dir, index),
        reply == LinkReply::Answer(!is_free(start, place_of(round, index))),
    ensures
        reply == LinkReply::Answer(false) ==> is_well_chosen(start, place_of(round, index)),
        reply == LinkReply::Answer(true) && index < 999 ==> taken_below(
            start,
            place_of(round, index).dir,
            (index + 1) as u32,
        ),
        reply == LinkReply::Answer(true) && index == 999 ==> is_well_chosen(
            start,
            place_of(round, 0),
        ),
{
    let dir = place_of(round, index).dir;
    assert(place_of(round, index) == Backup { dir, index });
    assert(place_of(round, 0) == Backup { dir, index: 0 });
    if reply == LinkReply::Answer(true) {
        assert forall|j: u32| j <= index implies !(#[trigger] is_free(
            start,
            Backup { dir, index: j },
        )) by {
            if j == index {
                assert(Backup { dir, index: j } == place_of(round, index));
            }
        }
    }
}

proof fn lemma_backup_is_where_it_should_be(
    job: LinkJob,
    replies: Seq<LinkReply>,
    disks: Seq<Places>,
)
    requires
        places_history(job, replies, disks),
        disks[0].source is Tree,
    ensures
        places_keep(
            link_run(job, replies),
            last_backup(job, replies),
            disks[0],
            disks.last(),
        ),
        last_backup(job, replies) matches Some(backup) ==> is_well_chosen(disks[0], backup),
        in_range(link_run(job, replies)),
        place_is_known(link_run(job, replies), disks[0]),
        (link_run(job, replies) matches LinkStep::Finished(Ok(_))) && replies.last() is Done
            ==> disks.last().backups == disks[0].backups.insert(
            last_backup(job, replies)->0,
            Slot::Empty,
        ) && link_run(job, replies) == LinkStep::Finished(Ok(0)),
    decreases replies.len(),
{
    if replies.len() > 0 {
        let shorter = replies.drop_last();
        let n = shorter.len() as int;
        let start = disks[0];
        lemma_shorter_places(job, replies, disks);
        lemma_backup_is_where_it_should_be(job, shorter, disks.drop_last());
        law_one_backup_is_used(job, shorter);
        law_one_backup_is_used(job, replies);
        assert(replies.take(n) =~= shorter);
        assert(disks[n + 1] == disks.last());
        assert(disks.drop_last().last() == disks[n]);
        let before = disks[n];
        let after = disks.last();
        match link_run(job, shorter) {
            LinkStep::Probe { round, index } => {
                lemma_choice(start, round, index, replies.last());
            },
            LinkStep::RemoveBackup { backup } => {
                assert(after.backups =~= start.backups.insert(backup, after.backups[backup]));
            },
            LinkStep::RestoreSource { backup, .. } => {
                if replies.last() is Done {
                    assert(after.backups =~= start.backups.insert(backup, Slot::Empty));
                }
            },
            _ => {},
        }
    }
}

/// The folder, its one backup and the junction are where they should be at every step: the
/// folder is renamed to the first free place of a directory; once the junction stands there,
/// that very backup is removed, so that nothing of it is left if the removal works; if the
/// junction fails, that very backup is brought back. No other place is ever touched.
pub proof fn law_backup_is_where_it_should_be(
    job: LinkJob,
    replies: Seq<LinkReply>,
    disks: Seq<Places>,
)
    requires
        places_history(job, replies, disks),
        disks[0].source is Tree,
    ensures
        places_keep(
            link_run(job, replies),
            last_backup(job, replies),
            disks[0],
            disks.last(),
        ),
        last_backup(job, replies) matches Some(backup) ==> is_well_chosen(disks[0], backup),
        (link_run(job, replies) matches LinkStep::Finished(Ok(_))) && replies.last() is Done
            ==> disks.last().backups == disks[0].backups.insert(
            last_backup(job, replies)->0,
            Slot::Empty,
        ) && link_run(job, replies) == LinkStep::Finished(Ok(0)),
{
    lemma_backup_is_where_it_should_be(job, replies, disks);
}

} // verus!
