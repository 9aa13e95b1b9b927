//! Replacing the directories in a folder by junctions, each on its own.
//!
//! This is what is left when the folder itself cannot be replaced.

use vstd::prelude::*;

use super::link::{law_placing_keeps_folder, placing, LinkDisk, LinkError};

verus! {

/// What was replaced so far.
#[derive(Clone, Copy, PartialEq, Eq, Structural, Debug)]
pub struct Tally {
    /// The directories that were replaced.
    pub linked: usize,
    /// The directories that were found.
    pub total: usize,
    /// The bytes in backups that could not be removed.
    pub left_behind: u64,
}

/// The work that is due.
#[derive(Debug)]
pub enum ChildStep {
    /// Begin to read the folder.
    Open,
    /// Take the next entry that can be read.
    NextEntry(Tally),
    /// Is the entry a link? Where that cannot be told it counts as none.
    IsLink(Tally),
    /// Is the entry a directory?
    IsDirectory(Tally),
    /// Is there a directory of the same name in the target?
    HasCopy(Tally),
    /// Replace the directory by a junction to its copy.
    Place(Tally),
    /// Nothing.
    Finished(Tally),
}

/// What came of the work.
#[derive(Debug)]
pub enum ChildReply {
    Done,
    /// The folder cannot be read.
    Unreadable,
    /// There is another entry.
    Entry,
    /// There is no other entry.
    End,
    Answer(bool),
    Placed(Result<u64, LinkError>),
}

impl ChildStep {
    /// Whether `reply` is an answer to the work of this step.
    pub open spec fn accepts(self, reply: ChildReply) -> bool {
        match self {
            ChildStep::Open => reply is Done || reply is Unreadable,
            ChildStep::NextEntry(_) => reply is Entry || reply is End,
            ChildStep::IsLink(_)
            | ChildStep::IsDirectory(_)
            | ChildStep::HasCopy(_) => reply is Answer,
            ChildStep::Place(_) => reply is Placed,
            ChildStep::Finished(_) => false,
        }
    }

    /// What was replaced when this step is due.
    pub open spec fn tally(self) -> Tally {
        match self {
            ChildStep::Open => Tally { linked: 0, total: 0, left_behind: 0 },
            ChildStep::NextEntry(tally)
            | ChildStep::IsLink(tally)
            | ChildStep::IsDirectory(tally)
            | ChildStep::HasCopy(tally)
            | ChildStep::Place(tally)
            | ChildStep::Finished(tally) => tally,
        }
    }

    /// Whether a step can occur: what was replaced was also found, and a directory that is
    /// looked at is among those that were found.
    pub open spec fn in_range(self) -> bool {
        match self {
            ChildStep::HasCopy(tally) | ChildStep::Place(tally) => tally.linked < tally.total,
            _ => self.tally().linked <= self.tally().total,
        }
    }

    /// Whether `reply` can still be counted.
    pub open spec fn can_count(self, reply: ChildReply) -> bool {
        match (self, reply) {
            (ChildStep::IsDirectory(tally), _) => tally.total < usize::MAX,
            (ChildStep::Place(tally), ChildReply::Placed(Ok(left))) => tally.left_behind + left
                <= u64::MAX,
            _ => true,
        }
    }

    /// The step that follows this one when its work came to `reply`.
    pub open spec fn after(self, reply: ChildReply) -> ChildStep {
        let tally = self.tally();
        let yes = reply == ChildReply::Answer(true);
        match self {
            ChildStep::Open => if reply is Done {
                ChildStep::NextEntry(tally)
            } else {
                ChildStep::Finished(tally)
            },
            ChildStep::NextEntry(_) => if reply is Entry {
                ChildStep::IsLink(tally)
            } else {
                ChildStep::Finished(tally)
            },
            ChildStep::IsLink(_) => if yes {
                ChildStep::NextEntry(tally)
            } else {
                ChildStep::IsDirectory(tally)
            },
            ChildStep::IsDirectory(_) => if yes {
                ChildStep::HasCopy(Tally { total: (tally.total + 1) as usize, ..tally })
            } else {
                ChildStep::NextEntry(tally)
            },
            ChildStep::HasCopy(_) => if yes {
                ChildStep::Place(tally)
            } else {
                ChildStep::NextEntry(tally)
            },
            ChildStep::Place(_) => match reply {
                ChildReply::Placed(Ok(left)) => ChildStep::NextEntry(
                    Tally {
                        linked: (tally.linked + 1) as usize,
                        total: tally.total,
                        left_behind: (tally.left_behind + left) as u64,
                    },
                ),
                _ => ChildStep::NextEntry(tally),
            },
            ChildStep::Finished(_) => self,
        }
    }

    /// The step with which the work begins.
    pub fn start() -> (r: ChildStep)
        ensures
            r == ChildStep::Open,
            r == child_run(Seq::empty()),
            r.in_range(),
    {
        ChildStep::Open
    }

    /// Takes what came of the work to the next step.
    pub fn next(self, reply: ChildReply) -> (r: ChildStep)
        requires
            self.in_range(),
            self.accepts(reply),
            self.can_count(reply),
        ensures
            r == self.after(reply),
            r.in_range(),
    {
        match (self, reply) {
            (ChildStep::Open, ChildReply::Done) => ChildStep::NextEntry(
                Tally { linked: 0, total: 0, left_behind: 0 },
            ),
            (ChildStep::Open, _) => ChildStep::Finished(
                Tally { linked: 0, total: 0, left_behind: 0 },
            ),
            (ChildStep::NextEntry(tally), ChildReply::Entry) => ChildStep::IsLink(tally),
            (ChildStep::NextEntry(tally), _) => ChildStep::Finished(tally),
            (ChildStep::IsLink(tally), ChildReply::Answer(yes)) => {
                if yes {
                    ChildStep::NextEntry(tally)
                } else {
                    ChildStep::IsDirectory(tally)
                }
            },
            (ChildStep::IsDirectory(tally), ChildReply::Answer(yes)) => {
                if yes {
                    ChildStep::HasCopy(Tally { total: tally.total + 1, ..tally })
                } else {
                    ChildStep::NextEntry(tally)
                }
            },
            (ChildStep::HasCopy(tally), ChildReply::Answer(yes)) => {
                if yes {
                    ChildStep::Place(tally)
                } else {
                    ChildStep::NextEntry(tally)
                }
            },
            (ChildStep::Place(tally), ChildReply::Placed(Ok(left))) => ChildStep::NextEntry(
                Tally {
                    linked: tally.linked + 1,
                    total: tally.total,
                    left_behind: tally.left_behind + left,
                },
            ),
            (ChildStep::Place(tally), _) => ChildStep::NextEntry(tally),
            (step, _) => step,
        }
    }
}

/// The step that is reached from the start by `replies`.
pub open spec fn child_run(replies: Seq<ChildReply>) -> ChildStep
    decreases replies.len(),
{
    if replies.len() == 0 {
        ChildStep::Open
    } else {
        child_run(replies.drop_last()).after(replies.last())
    }
}

/// Whether each of `replies` answers the work that was due, and can be counted.
pub open spec fn child_answers(replies: Seq<ChildReply>) -> bool
    decreases replies.len(),
{
    replies.len() == 0 || {
        &&& child_answers(replies.drop_last())
        &&& child_run(replies.drop_last()).accepts(replies.last())
        &&& child_run(replies.drop_last()).can_count(replies.last())
    }
}

/// How many directories were replaced, by the replies.
pub open spec fn placed_count(replies: Seq<ChildReply>) -> nat
    decreases replies.len(),
{
    if replies.len() == 0 {
        0
    } else {
        placed_count(replies.drop_last()) + match replies.last() {
            ChildReply::Placed(Ok(_)) => 1nat,
            _ => 0nat,
        }
    }
}

/// How many bytes were left behind, by the replies.
pub open spec fn left_bytes(replies: Seq<ChildReply>) -> nat
    decreases replies.len(),
{
    if replies.len() == 0 {
        0
    } else {
        left_bytes(replies.drop_last()) + match replies.last() {
            ChildReply::Placed(Ok(left)) => left as nat,
            _ => 0nat,
        }
    }
}

/// What is told of the directories is true: as many count as replaced as were replaced,
/// never more than were found, and all bytes that were left behind are counted.
pub proof fn law_tally_is_true(replies: Seq<ChildReply>)
    requires
        child_answers(replies),
    ensures
        child_run(replies).in_range(),
        child_run(replies).tally().linked == placed_count(replies),
        child_run(replies).tally().linked <= child_run(replies).tally().total,
        child_run(replies).tally().left_behind == left_bytes(replies),
    decreases replies.len(),
{
    if replies.len() > 0 {
        law_tally_is_true(replies.drop_last());
    }
}

/// What came of replacing each of the directories, in order.
pub open spec fn placements(replies: Seq<ChildReply>) -> Seq<Result<u64, LinkError>>
    decreases replies.len(),
{
    if replies.len() == 0 {
        Seq::empty()
    } else {
        match replies.last() {
            ChildReply::Placed(result) => placements(replies.drop_last()).push(result),
            _ => placements(replies.drop_last()),
        }
    }
}

/// Whether the work can have come to `replies` while the directories that were to be replaced
/// went from `before` to `after`. Only directories that are no links are replaced.
pub open spec fn child_history(
    replies: Seq<ChildReply>,
    before: Seq<LinkDisk>,
    after: Seq<LinkDisk>,
) -> bool {
    &&& child_answers(replies)
    &&& before.len() == placements(replies).len()
    &&& after.len() == placements(replies).len()
    &&& forall|k: int|
        #![trigger before[k]]
        #![trigger after[k]]
        0 <= k < before.len() ==> before[k].source is Tree && placing(
            before[k],
            placements(replies)[k],
            after[k],
        )
}

/// None of the directories is lost: where one was replaced, the junction to its copy stands;
/// where not, it is back in its place, or, if even that failed, whole in its backup.
pub proof fn law_no_child_is_lost(
    replies: Seq<ChildReply>,
    before: Seq<LinkDisk>,
    after: Seq<LinkDisk>,
)
    requires
        child_history(replies, before, after),
    ensures
        forall|k: int|
            0 <= k < after.len() ==> match placements(replies)[k] {
                Ok(_) => (#[trigger] after[k]).source is Link,
                Err(LinkError::RestoreFailed) => after[k].backup is Tree,
                Err(_) => after[k].source is Tree,
            },
{
    assert forall|k: int| 0 <= k < after.len() implies match placements(replies)[k] {
        Ok(_) => (#[trigger] after[k]).source is Link,
        Err(LinkError::RestoreFailed) => after[k].backup is Tree,
        Err(_) => after[k].source is Tree,
    } by {
        law_placing_keeps_folder(before[k], placements(replies)[k], after[k]);
    }
}

proof fn lemma_none_placed(replies: Seq<ChildReply>)
    requires
        placed_count(replies) == 0,
    ensures
        forall|k: int| 0 <= k < placements(replies).len() ==> #[trigger] placements(replies)[k] is Err,
    decreases replies.len(),
{
    if replies.len() > 0 {
        lemma_none_placed(replies.drop_last());
    }
}

/// If none of the directories counts as replaced, each still stands in its place, but for
/// those that could not be brought back from their backups, where they are whole.
pub proof fn law_unlinked_children_stay(
    replies: Seq<ChildReply>,
    before: Seq<LinkDisk>,
    after: Seq<LinkDisk>,
)
    requires
        child_history(replies, before, after),
        child_run(replies).tally().linked == 0,
    ensures
        forall|k: int|
            0 <= k < after.len() ==> (#[trigger] after[k]).source is Tree || (after[k].backup
                is Tree && placements(replies)[k] == Err::<u64, LinkError>(
                LinkError::RestoreFailed,
            )),
{
    law_tally_is_true(replies);
    lemma_none_placed(replies);
    law_no_child_is_lost(replies, before, after);
    assert forall|k: int| 0 <= k < after.len() implies (#[trigger] after[k]).source is Tree || (
    after[k].backup is Tree && placements(replies)[k] == Err::<u64, LinkError>(
        LinkError::RestoreFailed,
    )) by {
        assert(placements(replies)[k] is Err);
    }
}

/// No step is due without its cause: only a directory that is no link is counted, only one
/// with a copy in the target is replaced, and what is counted changes by what came of the
/// step before and by nothing else.
pub proof fn law_child_step_has_cause(step: ChildStep, reply: ChildReply)
    requires
        step.in_range(),
        step.accepts(reply),
        step.can_count(reply),
    ensures
        match step.after(reply) {
            ChildStep::Open => false,
            ChildStep::NextEntry(tally) => {
                ||| step is Open && reply is Done && tally == (Tally {
                    linked: 0,
                    total: 0,
                    left_behind: 0,
                })
                ||| step == ChildStep::IsLink(tally) && reply == ChildReply::Answer(true)
                ||| step == ChildStep::IsDirectory(tally) && reply == ChildReply::Answer(false)
                ||| step == ChildStep::HasCopy(tally) && reply == ChildReply::Answer(false)
                ||| step == ChildStep::Place(tally) && reply->Placed_0 is Err
                ||| step is Place && reply->Placed_0 is Ok && tally.total == step->Place_0.total
                    && tally.linked == step->Place_0.linked + 1 && tally.left_behind
                    == step->Place_0.left_behind + reply->Placed_0->Ok_0
            },
            ChildStep::IsLink(tally) => step == ChildStep::NextEntry(tally) && reply is Entry,
            ChildStep::IsDirectory(tally) => step == ChildStep::IsLink(tally) && reply
                == ChildReply::Answer(false),
            ChildStep::HasCopy(tally) => {
                &&& step is IsDirectory && reply == ChildReply::Answer(true)
                &&& tally.total == step->IsDirectory_0.total + 1
                &&& tally.linked == step->IsDirectory_0.linked
                &&& tally.left_behind == step->IsDirectory_0.left_behind
            },
            ChildStep::Place(tally) => step == ChildStep::HasCopy(tally) && reply
                == ChildReply::Answer(true),
            ChildStep::Finished(tally) => {
                ||| step == ChildStep::NextEntry(tally) && reply is End
                ||| step is Open && reply is Unreadable && tally == (Tally {
                    linked: 0,
                    total: 0,
                    left_behind: 0,
                })
            },
        },
{
}

/// What is found of an entry of the folder, and what comes of replacing it.
pub struct Child {
    pub is_link: bool,
    pub is_directory: bool,
    pub has_copy: bool,
    pub placed: Result<u64, LinkError>,
}

/// Whether an entry counts as a directory that was found.
pub open spec fn is_found(child: Child) -> bool {
    child.is_directory && !child.is_link
}

/// Whether an entry is replaced.
pub open spec fn is_replaced(child: Child) -> bool {
    is_found(child) && child.has_copy && child.placed is Ok
}

/// The step that is reached from `NextEntry` through one entry.
pub open spec fn through_child(tally: Tally, child: Child) -> ChildStep {
    let asked = ChildStep::NextEntry(tally).after(ChildReply::Entry);
    let linked = asked.after(ChildReply::Answer(child.is_link));
    if child.is_link {
        linked
    } else {
        let kind = linked.after(ChildReply::Answer(child.is_directory));
        if !child.is_directory {
            kind
        } else {
            let copy = kind.after(ChildReply::Answer(child.has_copy));
            if child.has_copy {
                copy.after(ChildReply::Placed(child.placed))
            } else {
                copy
            }
        }
    }
}

/// Each entry is dealt with on its own, whatever came of those before, and the next one is
/// turned to: it counts as found if it is a directory and no link, and as replaced if it also
/// has a copy and replacing it worked, with the bytes that this left behind.
pub proof fn law_each_child_counts_for_itself(tally: Tally, child: Child)
    requires
        tally.total < usize::MAX,
        tally.linked <= tally.total,
        is_replaced(child) ==> tally.left_behind + child.placed->Ok_0 <= u64::MAX,
    ensures
        through_child(tally, child) is NextEntry,
        ({
            let after = through_child(tally, child)->NextEntry_0;
            &&& after.total == tally.total + if is_found(child) {
                1int
            } else {
                0
            }
            &&& after.linked == tally.linked + if is_replaced(child) {
                1int
            } else {
                0
            }
            &&& after.left_behind == tally.left_behind + if is_replaced(child) {
                child.placed->Ok_0 as int
            } else {
                0
            }
        }),
{
}

} // verus!
