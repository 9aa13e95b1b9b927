//! What replacing a folder by a junction comes to, by what each piece of the work comes to.

use vstd::prelude::*;

use super::backups::place_of;
use super::link::{
    denied_beside_parent, link_next, link_start, Backup, LinkError, LinkJob, LinkReply, LinkStep,
    Round,
};
use super::{FailureKind, OsFailure};

verus! {

/// What each piece of the work comes to.
pub struct LinkWorld {
    /// Whether a place for a backup is taken.
    pub taken: spec_fn(Backup) -> bool,
    /// Whether the folder is a link already.
    pub is_link: bool,
    /// What creating the junction again comes to.
    pub relinked: Result<(), OsFailure>,
    /// What each rename of each round comes to.
    pub renamed: spec_fn(Round, u32) -> Result<(), OsFailure>,
    /// The processes that hold the folder when they are to be ended.
    pub holders: Vec<u32>,
    /// The processes that hold the folder when it is given up.
    pub named: Vec<u32>,
    /// What creating the junction comes to.
    pub linked: Result<(), OsFailure>,
    /// What removing the backup comes to.
    pub removed: Result<(), OsFailure>,
    /// The bytes that are left in the backup.
    pub left: u64,
    /// What renaming the backup back comes to.
    pub restored: Result<(), OsFailure>,
}

/// The reply to a piece of work.
pub open spec fn work_reply(result: Result<(), OsFailure>) -> LinkReply {
    match result {
        Ok(_) => LinkReply::Done,
        Err(failure) => LinkReply::Failed(failure),
    }
}

/// The reply to the work of a step.
pub open spec fn world_reply(world: LinkWorld, step: LinkStep) -> LinkReply {
    match step {
        LinkStep::Probe { round, index } => LinkReply::Answer(
            (world.taken)(place_of(round, index)),
        ),
        LinkStep::CheckSource { .. } => LinkReply::Answer(world.is_link),
        LinkStep::Relink => work_reply(world.relinked),
        LinkStep::Rename { round, tries, .. } => work_reply((world.renamed)(round, tries)),
        LinkStep::FindLockers { .. } => LinkReply::Pids(world.holders),
        LinkStep::NameLockers { .. } => LinkReply::Pids(world.named),
        LinkStep::CreateJunction { .. } => work_reply(world.linked),
        LinkStep::RemoveBackup { .. } => work_reply(world.removed),
        LinkStep::MeasureBackup { .. } => LinkReply::Size(world.left),
        LinkStep::RestoreSource { .. } => work_reply(world.restored),
        _ => LinkReply::Done,
    }
}

/// The step that is reached from `step` when `n` pieces of work are done.
pub open spec fn link_from(job: LinkJob, world: LinkWorld, step: LinkStep, n: nat) -> LinkStep
    decreases n,
{
    if n == 0 {
        step
    } else {
        link_from(job, world, link_next(job, step, world_reply(world, step)), (n - 1) as nat)
    }
}

/// Whether the work leads from one step to another.
pub open spec fn leads_to(job: LinkJob, world: LinkWorld, from: LinkStep, to: LinkStep) -> bool {
    exists|n: nat| #[trigger] link_from(job, world, from, n) == to
}

/// Whether a failure ends a round before its last rename.
pub open spec fn ends_round(round: Round, result: Result<(), OsFailure>) -> bool {
    &&& round == Round::First
    &&& result matches Err(failure) && failure.kind == FailureKind::CrossesDevices
}

/// Whether one of the three renames of a round works. The first round stops where another
/// device is found.
pub open spec fn round_works(world: LinkWorld, round: Round) -> bool {
    exists|k: u32|
        #![trigger (world.renamed)(round, k)]
        k < 3 && (world.renamed)(round, k) is Ok && forall|j: u32|
            j < k ==> !ends_round(round, #[trigger] (world.renamed)(round, j))
}

/// The failure with which a round is given up.
pub open spec fn round_failure(world: LinkWorld, round: Round) -> OsFailure {
    let result = |k: u32| (world.renamed)(round, k);
    if ends_round(round, result(0)) {
        result(0)->Err_0
    } else if ends_round(round, result(1)) {
        result(1)->Err_0
    } else {
        result(2)->Err_0
    }
}

/// Whether the parent is tried because access to the temporary directory was denied.
pub open spec fn tries_parent(job: LinkJob, world: LinkWorld) -> bool {
    &&& !round_works(world, Round::First)
    &&& denied_beside_parent(job, round_failure(world, Round::First))
}

/// Whether the folder is still in its place before processes are ended.
pub open spec fn is_held(job: LinkJob, world: LinkWorld) -> bool {
    &&& !round_works(world, Round::First)
    &&& !(tries_parent(job, world) && round_works(world, Round::Denied))
}

/// Whether processes are ended: it is allowed, it is needed, and some hold the folder.
pub open spec fn ends_processes(job: LinkJob, world: LinkWorld) -> bool {
    is_held(job, world) && job.auto_kill && world.holders@.len() > 0
}

/// Whether the folder is still in its place when that is done.
pub open spec fn is_still_held(job: LinkJob, world: LinkWorld) -> bool {
    is_held(job, world) && !(ends_processes(job, world) && round_works(world, Round::Killed))
}

/// The failure that keeps it there.
pub open spec fn holding_failure(job: LinkJob, world: LinkWorld) -> OsFailure {
    round_failure(
        world,
        if ends_processes(job, world) {
            Round::Killed
        } else if tries_parent(job, world) {
            Round::Denied
        } else {
            Round::First
        },
    )
}

/// Whether what keeps it there is that the backup would be on another device.
pub open spec fn needs_parent(job: LinkJob, world: LinkWorld) -> bool {
    &&& is_still_held(job, world)
    &&& holding_failure(job, world).kind == FailureKind::CrossesDevices
}

/// What the work comes to once the folder was renamed to its backup.
pub open spec fn junction_end(world: LinkWorld) -> Result<u64, LinkError> {
    match (world.linked, world.removed, world.restored) {
        (Ok(_), Ok(_), _) => Ok(0),
        (Ok(_), Err(_), _) => Ok(world.left),
        (Err(failure), _, Ok(_)) => Err(LinkError::Junction(failure.text)),
        (Err(_), _, Err(_)) => Err(LinkError::RestoreFailed),
    }
}

/// What the work comes to.
pub open spec fn link_end(job: LinkJob, world: LinkWorld) -> Result<u64, LinkError> {
    if job.name is None {
        Err(LinkError::InvalidSource)
    } else if world.is_link {
        match world.relinked {
            Ok(_) => Ok(0),
            Err(_) => Err(LinkError::Relink),
        }
    } else if !is_still_held(job, world) {
        junction_end(world)
    } else if !needs_parent(job, world) {
        Err(
            LinkError::BackupFailed {
                detail: holding_failure(job, world).text,
                pids: world.named,
            },
        )
    } else if !job.has_parent {
        Err(LinkError::InvalidSource)
    } else if round_works(world, Round::Crossed) {
        junction_end(world)
    } else {
        Err(
            LinkError::BackupFailed {
                detail: round_failure(world, Round::Crossed).text,
                pids: world.named,
            },
        )
    }
}

proof fn lemma_from_adds(job: LinkJob, world: LinkWorld, step: LinkStep, n: nat, m: nat)
    ensures
        link_from(job, world, step, n + m) == link_from(
            job,
            world,
            link_from(job, world, step, n),
            m,
        ),
    decreases n,
{
    if n > 0 {
        lemma_from_adds(
            job,
            world,
            link_next(job, step, world_reply(world, step)),
            (n - 1) as nat,
            m,
        );
    }
}

proof fn lemma_leads_on(job: LinkJob, world: LinkWorld, a: LinkStep, b: LinkStep, c: LinkStep)
    requires
        leads_to(job, world, a, b),
        leads_to(job, world, b, c),
    ensures
        leads_to(job, world, a, c),
{
    let n = choose|n: nat| #[trigger] link_from(job, world, a, n) == b;
    let m = choose|m: nat| #[trigger] link_from(job, world, b, m) == c;
    lemma_from_adds(job, world, a, n, m);
    assert(link_from(job, world, a, n + m) == c);
}

proof fn lemma_one_step(job: LinkJob, world: LinkWorld, a: LinkStep)
    ensures
        leads_to(job, world, a, link_next(job, a, world_reply(world, a))),
        leads_to(job, world, a, a),
{
    reveal_with_fuel(link_from, 2);
    assert(link_from(job, world, a, 1) == link_next(job, a, world_reply(world, a)));
    assert(link_from(job, world, a, 0) == a);
}

proof fn lemma_then(job: LinkJob, world: LinkWorld, a: LinkStep, b: LinkStep)
    requires
        leads_to(job, world, a, b),
    ensures
        leads_to(job, world, a, link_next(job, b, world_reply(world, b))),
{
    lemma_one_step(job, world, b);
    lemma_leads_on(job, world, a, b, link_next(job, b, world_reply(world, b)));
}

/// The step when a place was found.
spec fn placed(round: Round, index: u32) -> LinkStep {
    if round == Round::First {
        LinkStep::CheckSource { backup: place_of(round, index) }
    } else {
        LinkStep::Rename { round, backup: place_of(round, index), tries: 0 }
    }
}

proof fn lemma_place_is_found(job: LinkJob, world: LinkWorld, round: Round, index: u32) -> (i: u32)
    requires
        index <= 999,
    ensures
        leads_to(job, world, LinkStep::Probe { round, index }, placed(round, i)),
    decreases 999 - index,
{
    let here = LinkStep::Probe { round, index };
    lemma_one_step(job, world, here);
    if !(world.taken)(place_of(round, index)) {
        index
    } else if index == 999 {
        0
    } else {
        let next = LinkStep::Probe { round, index: (index + 1) as u32 };
        let i = lemma_place_is_found(job, world, round, (index + 1) as u32);
        lemma_leads_on(job, world, here, next, placed(round, i));
        i
    }
}

/// The step when a round is given up.
spec fn given_up(job: LinkJob, world: LinkWorld, round: Round, backup: Backup) -> LinkStep {
    let failure = round_failure(world, round);
    link_next(
        job,
        LinkStep::PauseAfterRename { round, backup, tries: 3, failure },
        LinkReply::Done,
    )
}

proof fn lemma_round_ends(
    job: LinkJob,
    world: LinkWorld,
    from: LinkStep,
    round: Round,
    backup: Backup,
)
    requires
        leads_to(job, world, from, LinkStep::Rename { round, backup, tries: 0 }),
    ensures
        round_works(world, round) ==> leads_to(
            job,
            world,
            from,
            LinkStep::CreateJunction { backup },
        ),
        !round_works(world, round) ==> leads_to(
            job,
            world,
            from,
            given_up(job, world, round, backup),
        ),
{
    let result = |k: u32| (world.renamed)(round, k);
    let r0 = (world.renamed)(round, 0);
    let r1 = (world.renamed)(round, 1);
    let r2 = (world.renamed)(round, 2);
    assert(result(0) == r0 && result(1) == r1 && result(2) == r2);
    lemma_then(job, world, from, LinkStep::Rename { round, backup, tries: 0 });
    if r0 is Err && !ends_round(round, r0) {
        let f0 = r0->Err_0;
        lemma_then(
            job,
            world,
            from,
            LinkStep::PauseAfterRename { round, backup, tries: 1, failure: f0 },
        );
        lemma_then(job, world, from, LinkStep::Rename { round, backup, tries: 1 });
        if r1 is Err && !ends_round(round, r1) {
            let f1 = r1->Err_0;
            lemma_then(
                job,
                world,
                from,
                LinkStep::PauseAfterRename { round, backup, tries: 2, failure: f1 },
            );
            lemma_then(job, world, from, LinkStep::Rename { round, backup, tries: 2 });
            if r2 is Err && !ends_round(round, r2) {
                let f2 = r2->Err_0;
                lemma_then(
                    job,
                    world,
                    from,
                    LinkStep::PauseAfterRename { round, backup, tries: 3, failure: f2 },
                );
            }
        }
    }
}

proof fn lemma_junction_ends(job: LinkJob, world: LinkWorld, from: LinkStep, backup: Backup)
    requires
        leads_to(job, world, from, LinkStep::CreateJunction { backup }),
    ensures
        leads_to(job, world, from, LinkStep::Finished(junction_end(world))),
{
    lemma_then(job, world, from, LinkStep::CreateJunction { backup });
    match world.linked {
        Ok(_) => {
            lemma_then(job, world, from, LinkStep::RemoveBackup { backup });
            if world.removed is Err {
                lemma_then(job, world, from, LinkStep::MeasureBackup { backup });
            }
        },
        Err(failure) => {
            let cause = failure.text;
            lemma_then(job, world, from, LinkStep::ClearSource { backup, cause });
            lemma_then(job, world, from, LinkStep::RestoreSource { backup, cause });
        },
    }
}

/// What comes of it when the folder is still in its place.
proof fn lemma_last_resort_ends(job: LinkJob, world: LinkWorld, from: LinkStep)
    requires
        job.name is Some,
        !world.is_link,
        is_still_held(job, world),
        ({
            let failure = holding_failure(job, world);
            leads_to(
                job,
                world,
                from,
                link_next(
                    job,
                    LinkStep::PauseAfterRename {
                        round: Round::Killed,
                        backup: place_of(Round::Killed, 0),
                        tries: 3,
                        failure,
                    },
                    LinkReply::Done,
                ),
            )
        }),
    ensures
        leads_to(job, world, from, LinkStep::Finished(link_end(job, world))),
{
    let failure = holding_failure(job, world);
    if !needs_parent(job, world) {
        lemma_then(job, world, from, LinkStep::NameLockers { failure });
    } else if job.has_parent {
        let probe = LinkStep::Probe { round: Round::Crossed, index: 0 };
        let i = lemma_place_is_found(job, world, Round::Crossed, 0);
        let backup = place_of(Round::Crossed, i);
        lemma_leads_on(job, world, from, probe, placed(Round::Crossed, i));
        lemma_round_ends(job, world, from, Round::Crossed, backup);
        if round_works(world, Round::Crossed) {
            lemma_junction_ends(job, world, from, backup);
        } else {
            lemma_then(
                job,
                world,
                from,
                LinkStep::NameLockers { failure: round_failure(world, Round::Crossed) },
            );
        }
    }
}

/// What comes of it when the rounds before any process is ended are lost.
proof fn lemma_held_ends(
    job: LinkJob,
    world: LinkWorld,
    from: LinkStep,
    round: Round,
    backup: Backup,
)
    requires
        job.name is Some,
        !world.is_link,
        is_held(job, world),
        round == if tries_parent(job, world) {
            Round::Denied
        } else {
            Round::First
        },
        leads_to(job, world, from, given_up(job, world, round, backup)),
    ensures
        leads_to(job, world, from, LinkStep::Finished(link_end(job, world))),
{
    let failure = round_failure(world, round);
    if !job.auto_kill {
        lemma_last_resort_ends(job, world, from);
    } else {
        lemma_then(job, world, from, LinkStep::FindLockers { backup, failure });
        if world.holders@.len() == 0 {
            lemma_last_resort_ends(job, world, from);
        } else {
            let pids = world.holders;
            lemma_then(job, world, from, LinkStep::Kill { backup, pids });
            lemma_then(job, world, from, LinkStep::PauseAfterKill { backup });
            lemma_round_ends(job, world, from, Round::Killed, backup);
            if round_works(world, Round::Killed) {
                lemma_junction_ends(job, world, from, backup);
            } else {
                lemma_last_resort_ends(job, world, from);
            }
        }
    }
}

/// The work ends as it must: it succeeds whenever a rename that is tried works and then the
/// junction is made; every way that is open is tried before it is given up; and the end tells
/// the bytes that are left, or the failure that decided.
pub proof fn law_link_ends_as_it_must(job: LinkJob, world: LinkWorld)
    ensures
        leads_to(job, world, link_start(job), LinkStep::Finished(link_end(job, world))),
{
    let from = link_start(job);
    lemma_one_step(job, world, from);
    if job.name is Some {
        let probe = LinkStep::Probe { round: Round::First, index: 0 };
        let i = lemma_place_is_found(job, world, Round::First, 0);
        let backup = place_of(Round::First, i);
        lemma_leads_on(job, world, from, probe, placed(Round::First, i));
        lemma_then(job, world, from, LinkStep::CheckSource { backup });
        if world.is_link {
            lemma_then(job, world, from, LinkStep::DropOldLink);
            lemma_then(job, world, from, LinkStep::Relink);
        } else {
            lemma_round_ends(job, world, from, Round::First, backup);
            if round_works(world, Round::First) {
                lemma_junction_ends(job, world, from, backup);
            } else if !tries_parent(job, world) {
                lemma_held_ends(job, world, from, Round::First, backup);
            } else {
                let other = LinkStep::Probe { round: Round::Denied, index: 0 };
                let k = lemma_place_is_found(job, world, Round::Denied, 0);
                let beside = place_of(Round::Denied, k);
                lemma_leads_on(job, world, from, other, placed(Round::Denied, k));
                lemma_round_ends(job, world, from, Round::Denied, beside);
                if round_works(world, Round::Denied) {
                    lemma_junction_ends(job, world, from, beside);
                } else {
                    lemma_held_ends(job, world, from, Round::Denied, beside);
                }
            }
        }
    }
}

/// The work has only one end.
pub proof fn law_link_has_one_end(
    job: LinkJob,
    world: LinkWorld,
    result: Result<u64, LinkError>,
)
    requires
        leads_to(job, world, link_start(job), LinkStep::Finished(result)),
    ensures
        result == link_end(job, world),
{
    law_link_ends_as_it_must(job, world);
    let from = link_start(job);
    let end = link_end(job, world);
    let n = choose|n: nat|
        #[trigger] link_from(job, world, from, n) == LinkStep::Finished(result);
    let m = choose|m: nat| #[trigger] link_from(job, world, from, m) == LinkStep::Finished(end);
    lemma_from_adds(job, world, from, n, m);
    lemma_from_adds(job, world, from, m, n);
    lemma_end_stays(job, world, result, m);
    lemma_end_stays(job, world, end, n);
}

proof fn lemma_end_stays(
    job: LinkJob,
    world: LinkWorld,
    result: Result<u64, LinkError>,
    n: nat,
)
    ensures
        link_from(job, world, LinkStep::Finished(result), n) == LinkStep::Finished(result),
    decreases n,
{
    if n > 0 {
        lemma_end_stays(job, world, result, (n - 1) as nat);
    }
}

} // verus!
