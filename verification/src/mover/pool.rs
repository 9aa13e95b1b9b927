//! What the workers achieve together.

use vstd::prelude::*;

use super::walk::{
    calm_tree, calm_walk, files, height, law_ended_walk_reached_every_file, Node, Walk, WalkStep,
};
use super::worker::{WorkerReply, WorkerStep};

verus! {

/// A worker, and the file it has taken from the queue. A file is known by a number.
pub struct Hand {
    pub step: WorkerStep,
    pub file: Option<int>,
}

/// The workers and what they share.
pub struct Pool {
    /// The files that wait for a worker.
    pub queue: Seq<int>,
    /// Whether no more files will be put into the queue.
    pub closed: bool,
    /// The files that were ever put into the queue.
    pub sent: Set<int>,
    /// The files that are copied.
    pub copied: Set<int>,
    /// Whether the work is marked as failed.
    pub failed: bool,
    /// Whether an error is put down.
    pub error: bool,
    pub hands: Seq<Hand>,
}

/// What can happen.
pub enum PoolEvent {
    /// A file is put into the queue.
    Send(int),
    /// The queue is closed.
    Close,
    /// The work of one worker came to this.
    Work { worker: int, reply: WorkerReply },
}

/// The pool before anything has happened.
pub open spec fn fresh_pool(workers: nat) -> Pool {
    Pool {
        queue: Seq::empty(),
        closed: false,
        sent: Set::empty(),
        copied: Set::empty(),
        failed: false,
        error: false,
        hands: Seq::new(workers, |i: int| Hand { step: WorkerStep::Receive, file: None }),
    }
}

/// Whether the work of a worker can come to `reply`.
pub open spec fn can_reply(pool: Pool, hand: Hand, reply: WorkerReply) -> bool {
    &&& hand.step.accepts(reply)
    &&& hand.step is Receive ==> if reply is Task {
        pool.queue.len() > 0
    } else {
        pool.closed && pool.queue.len() == 0
    }
    &&& hand.step is CheckFailed ==> reply == WorkerReply::Answer(pool.failed)
}

/// The worker after its work came to `reply`.
pub open spec fn hand_after(pool: Pool, hand: Hand, reply: WorkerReply) -> Hand {
    Hand {
        step: hand.step.after(reply),
        file: if hand.step is Receive && reply is Task {
            Some(pool.queue[0])
        } else if hand.step is CopyFile && reply is Done {
            None
        } else {
            hand.file
        },
    }
}

/// Whether `event` takes the pool from `before` to `after`.
pub open spec fn pool_step(before: Pool, event: PoolEvent, after: Pool) -> bool {
    match event {
        PoolEvent::Send(file) => !before.closed && after == Pool {
            queue: before.queue.push(file),
            sent: before.sent.insert(file),
            ..before
        },
        PoolEvent::Close => after == Pool { closed: true, ..before },
        PoolEvent::Work { worker, reply } => {
            let hand = before.hands[worker];
            &&& 0 <= worker < before.hands.len()
            &&& can_reply(before, hand, reply)
            &&& after == Pool {
                queue: if hand.step is Receive && reply is Task {
                    before.queue.drop_first()
                } else {
                    before.queue
                },
                copied: if hand.step is CopyFile && reply is Done {
                    before.copied.insert(hand.file->0)
                } else {
                    before.copied
                },
                failed: before.failed || hand.step is RaiseFailure,
                error: before.error || hand.step is RaiseFailure,
                hands: before.hands.update(worker, hand_after(before, hand, reply)),
                ..before
            }
        },
    }
}

/// Whether the pool can have gone through `pools` while `events` happened.
pub open spec fn pool_history(workers: nat, events: Seq<PoolEvent>, pools: Seq<Pool>) -> bool {
    &&& pools.len() == events.len() + 1
    &&& pools[0] == fresh_pool(workers)
    &&& forall|i: int|
        0 <= i < events.len() ==> pool_step(pools[i], events[i], #[trigger] pools[i + 1])
}

/// Whether a worker and the file it holds go together.
pub open spec fn hand_is_sound(pool: Pool, hand: Hand) -> bool {
    match hand.step {
        WorkerStep::Receive => hand.file is None,
        WorkerStep::Finished => pool.failed || (hand.file is None && pool.closed
            && pool.queue.len() == 0),
        _ => hand.file is Some,
    }
}

/// Whether a file is copied, or still will be.
pub open spec fn in_good_hands(pool: Pool, file: int) -> bool {
    ||| pool.copied.contains(file)
    ||| pool.queue.contains(file)
    ||| exists|i: int| 0 <= i < pool.hands.len() && (#[trigger] pool.hands[i]).file == Some(file)
}

/// Whether nothing is lost: the marks agree, and as long as nothing failed every file that was
/// sent is copied or still will be.
pub open spec fn pool_is_sound(pool: Pool) -> bool {
    &&& pool.failed == pool.error
    &&& forall|i: int| 0 <= i < pool.hands.len() ==> hand_is_sound(pool, #[trigger] pool.hands[i])
    &&& !pool.failed ==> forall|file: int| #[trigger]
        pool.sent.contains(file) ==> in_good_hands(pool, file)
}

proof fn lemma_step_keeps_pool_sound(before: Pool, event: PoolEvent, after: Pool)
    requires
        pool_is_sound(before),
        pool_step(before, event, after),
    ensures
        pool_is_sound(after),
{
    match event {
        PoolEvent::Send(sent) => {
            assert forall|file: int| #[trigger] after.sent.contains(file)
                && !after.failed implies in_good_hands(after, file) by {
                if file == sent {
                    assert(after.queue[after.queue.len() - 1] == file);
                } else {
                    assert(in_good_hands(before, file));
                    if before.queue.contains(file) {
                        let k = choose|k: int|
                            0 <= k < before.queue.len() && before.queue[k] == file;
                        assert(after.queue[k] == file);
                    }
                }
            }
            assert forall|i: int| 0 <= i < after.hands.len() implies hand_is_sound(
                after,
                #[trigger] after.hands[i],
            ) by {
                assert(hand_is_sound(before, before.hands[i]));
            }
        },
        PoolEvent::Close => {
            assert forall|file: int| #[trigger] after.sent.contains(file)
                && !after.failed implies in_good_hands(after, file) by {
                assert(in_good_hands(before, file));
                if exists|i: int|
                    0 <= i < before.hands.len() && (#[trigger] before.hands[i]).file == Some(
                        file,
                    ) {
                    let i = choose|i: int|
                        0 <= i < before.hands.len() && (#[trigger] before.hands[i]).file == Some(
                            file,
                        );
                    assert(after.hands[i].file == Some(file));
                }
            }
            assert forall|i: int| 0 <= i < after.hands.len() implies hand_is_sound(
                after,
                #[trigger] after.hands[i],
            ) by {
                assert(hand_is_sound(before, before.hands[i]));
            }
        },
        PoolEvent::Work { worker, reply } => {
            let hand = before.hands[worker];
            assert(hand_is_sound(before, hand));
            assert forall|i: int| 0 <= i < after.hands.len() implies hand_is_sound(
                after,
                #[trigger] after.hands[i],
            ) by {
                if i != worker {
                    assert(hand_is_sound(before, before.hands[i]));
                }
            }
            assert forall|file: int| #[trigger] after.sent.contains(file)
                && !after.failed implies in_good_hands(after, file) by {
                assert(in_good_hands(before, file));
                if before.copied.contains(file) {
                    assert(after.copied.contains(file));
                } else if before.queue.contains(file) {
                    let k = choose|k: int| 0 <= k < before.queue.len() && before.queue[k] == file;
                    if hand.step is Receive && reply is Task {
                        if k == 0 {
                            assert(after.hands[worker].file == Some(file));
                        } else {
                            assert(after.queue[k - 1] == file);
                        }
                    }
                } else {
                    let i = choose|i: int|
                        0 <= i < before.hands.len() && (#[trigger] before.hands[i]).file == Some(
                            file,
                        );
                    if i != worker {
                        assert(after.hands[i].file == Some(file));
                    } else if hand.step is CopyFile && reply is Done {
                        assert(after.copied.contains(file));
                    } else {
                        assert(after.hands[worker].file == Some(file));
                    }
                }
            }
        },
    }
}

/// However the workers take turns: if all of them have stopped after the queue was closed and
/// no error is put down, then every file that was put into the queue is copied.
pub proof fn law_pool_copies_every_file(
    workers: nat,
    events: Seq<PoolEvent>,
    pools: Seq<Pool>,
)
    requires
        pool_history(workers, events, pools),
        workers > 0,
        forall|i: int|
            0 <= i < pools.last().hands.len() ==> (#[trigger] pools.last().hands[i]).step
                is Finished,
        !pools.last().error,
    ensures
        pools.last().closed,
        forall|file: int| #[trigger]
            pools.last().sent.contains(file) ==> pools.last().copied.contains(file),
{
    lemma_pool_stays_sound(workers, events, pools);
    let end = pools.last();
    assert(hand_is_sound(end, end.hands[0]));
    assert forall|file: int| #[trigger] end.sent.contains(file) implies end.copied.contains(
        file,
    ) by {
        assert(in_good_hands(end, file));
        if exists|i: int| 0 <= i < end.hands.len() && (#[trigger] end.hands[i]).file == Some(
            file,
        ) {
            let i = choose|i: int|
                0 <= i < end.hands.len() && (#[trigger] end.hands[i]).file == Some(file);
            assert(hand_is_sound(end, end.hands[i]));
        }
    }
}

proof fn lemma_pool_stays_sound(workers: nat, events: Seq<PoolEvent>, pools: Seq<Pool>)
    requires
        pool_history(workers, events, pools),
    ensures
        pool_is_sound(pools.last()),
        pools.last().hands.len() == workers,
    decreases events.len(),
{
    if events.len() > 0 {
        let shorter = events.drop_last();
        let before = pools.drop_last();
        let n = shorter.len() as int;
        assert forall|i: int| 0 <= i < n implies pool_step(
            before[i],
            shorter[i],
            #[trigger] before[i + 1],
        ) by {
            assert(pools[i + 1] == before[i + 1]);
        }
        lemma_pool_stays_sound(workers, shorter, before);
        assert(pools[n + 1] == pools.last());
        assert(before.last() == pools[n]);
        lemma_step_keeps_pool_sound(pools[n], events[n], pools[n + 1]);
    }
}

/// Whether each file is put into the queue only once.
pub open spec fn sent_once(events: Seq<PoolEvent>, pools: Seq<Pool>) -> bool {
    forall|i: int|
        0 <= i < events.len() ==> match #[trigger] events[i] {
            PoolEvent::Send(file) => !pools[i].sent.contains(file),
            _ => true,
        }
}

/// Whether a file is nowhere twice: it waits once, or one worker has it, or it is copied.
pub open spec fn nothing_is_doubled(pool: Pool) -> bool {
    &&& forall|i: int| 0 <= i < pool.queue.len() ==> pool.sent.contains(#[trigger] pool.queue[i])
        && !pool.copied.contains(pool.queue[i])
    &&& forall|i: int, j: int|
        0 <= i < j < pool.queue.len() ==> #[trigger] pool.queue[i] != #[trigger] pool.queue[j]
    &&& forall|k: int|
        0 <= k < pool.hands.len() && (#[trigger] pool.hands[k]).file is Some ==> {
            &&& pool.sent.contains(pool.hands[k].file->0)
            &&& !pool.copied.contains(pool.hands[k].file->0)
            &&& !pool.queue.contains(pool.hands[k].file->0)
        }
    &&& forall|k: int, m: int|
        0 <= k < m < pool.hands.len() && (#[trigger] pool.hands[k]).file is Some ==> (
        #[trigger] pool.hands[m]).file != pool.hands[k].file
    &&& forall|file: int| #[trigger] pool.copied.contains(file) ==> pool.sent.contains(file)
}

/// Whether the worker whose copy failed still has the file that it could not copy.
pub open spec fn failure_is_kept(pool: Pool) -> bool {
    pool.failed ==> exists|k: int|
        0 <= k < pool.hands.len() && (#[trigger] pool.hands[k]).step is Finished
            && pool.hands[k].file is Some
}

proof fn lemma_step_doubles_nothing(before: Pool, event: PoolEvent, after: Pool)
    requires
        pool_is_sound(before),
        nothing_is_doubled(before),
        failure_is_kept(before),
        pool_step(before, event, after),
        event matches PoolEvent::Send(file) ==> !before.sent.contains(file),
    ensures
        nothing_is_doubled(after),
        failure_is_kept(after),
{
    if before.failed {
        let k = choose|k: int|
            0 <= k < before.hands.len() && (#[trigger] before.hands[k]).step is Finished
                && before.hands[k].file is Some;
        assert(after.hands[k] == before.hands[k]);
    }
    match event {
        PoolEvent::Send(file) => {
            assert forall|k: int|
                0 <= k < after.hands.len() && (#[trigger] after.hands[k]).file is Some implies {
                &&& after.sent.contains(after.hands[k].file->0)
                &&& !after.copied.contains(after.hands[k].file->0)
                &&& !after.queue.contains(after.hands[k].file->0)
            } by {
                let held = before.hands[k].file->0;
                if after.queue.contains(held) {
                    let i = choose|i: int| 0 <= i < after.queue.len() && after.queue[i] == held;
                    if i < before.queue.len() {
                        assert(before.queue[i] == held);
                    }
                }
            }
        },
        PoolEvent::Close => {},
        PoolEvent::Work { worker, reply } => {
            let hand = before.hands[worker];
            assert(hand_is_sound(before, hand));
            assert forall|i: int| 0 <= i < after.queue.len() implies after.sent.contains(
                #[trigger] after.queue[i],
            ) && !after.copied.contains(after.queue[i]) by {
                if hand.step is Receive && reply is Task {
                    assert(after.queue[i] == before.queue[i + 1]);
                } else {
                    assert(before.queue.contains(before.queue[i]));
                }
            }
            assert forall|i: int, j: int| 0 <= i < j < after.queue.len() implies
                #[trigger] after.queue[i] != #[trigger] after.queue[j] by {
                if hand.step is Receive && reply is Task {
                    assert(after.queue[i] == before.queue[i + 1]);
                    assert(after.queue[j] == before.queue[j + 1]);
                }
            }
            assert forall|k: int|
                0 <= k < after.hands.len() && (#[trigger] after.hands[k]).file is Some implies {
                &&& after.sent.contains(after.hands[k].file->0)
                &&& !after.copied.contains(after.hands[k].file->0)
                &&& !after.queue.contains(after.hands[k].file->0)
            } by {
                let held = after.hands[k].file->0;
                if after.queue.contains(held) {
                    let i = choose|i: int| 0 <= i < after.queue.len() && after.queue[i] == held;
                    if hand.step is Receive && reply is Task {
                        assert(before.queue[i + 1] == held);
                        if k == worker {
                            assert(before.queue[0] != before.queue[i + 1]);
                        } else {
                            assert(before.queue.contains(held));
                        }
                    } else {
                        assert(before.queue.contains(held));
                        assert(before.hands[k].file == Some(held));
                    }
                }
                if k != worker {
                    assert(before.hands[k] == after.hands[k]);
                    if k < worker {
                        assert(before.hands[worker].file != before.hands[k].file);
                    } else if hand.file is Some {
                        assert(before.hands[k].file != before.hands[worker].file);
                    }
                }
            }
            assert forall|k: int, m: int|
                0 <= k < m < after.hands.len() && (
                #[trigger] after.hands[k]).file is Some implies (#[trigger] after.hands[m]).file
                != after.hands[k].file by {
                if hand.step is Receive && reply is Task {
                    assert(before.queue.contains(before.queue[0]));
                    if k == worker {
                        assert(after.hands[m] == before.hands[m]);
                    } else {
                        assert(after.hands[k] == before.hands[k]);
                    }
                }
            }
            if hand.step is RaiseFailure {
                assert(after.hands[worker].step is Finished);
                assert(after.hands[worker].file is Some);
            }
        },
    }
}

proof fn lemma_pool_doubles_nothing(workers: nat, events: Seq<PoolEvent>, pools: Seq<Pool>)
    requires
        pool_history(workers, events, pools),
        sent_once(events, pools),
    ensures
        nothing_is_doubled(pools.last()),
        failure_is_kept(pools.last()),
    decreases events.len(),
{
    if events.len() > 0 {
        let shorter = events.drop_last();
        let before = pools.drop_last();
        let n = shorter.len() as int;
        assert forall|i: int| 0 <= i < n implies pool_step(
            before[i],
            shorter[i],
            #[trigger] before[i + 1],
        ) by {
            assert(pools[i + 1] == before[i + 1]);
        }
        assert forall|i: int| 0 <= i < n implies match #[trigger] shorter[i] {
            PoolEvent::Send(file) => !before[i].sent.contains(file),
            _ => true,
        } by {
            assert(shorter[i] == events[i]);
        }
        lemma_pool_doubles_nothing(workers, shorter, before);
        lemma_pool_stays_sound(workers, shorter, before);
        assert(pools[n + 1] == pools.last());
        assert(before.last() == pools[n]);
        assert(events[n] == events.last());
        lemma_step_doubles_nothing(pools[n], events[n], pools[n + 1]);
    }
}

/// An error that is put down is true: some file that was put into the queue is not copied, if
/// each was put there once.
pub proof fn law_pool_error_is_true(workers: nat, events: Seq<PoolEvent>, pools: Seq<Pool>)
    requires
        pool_history(workers, events, pools),
        sent_once(events, pools),
        pools.last().error,
    ensures
        exists|file: int| #[trigger]
            pools.last().sent.contains(file) && !pools.last().copied.contains(file),
{
    lemma_pool_stays_sound(workers, events, pools);
    lemma_pool_doubles_nothing(workers, events, pools);
    let end = pools.last();
    let k = choose|k: int|
        0 <= k < end.hands.len() && (#[trigger] end.hands[k]).step is Finished
            && end.hands[k].file is Some;
    assert(end.sent.contains(end.hands[k].file->0));
}

/// When all workers have stopped, an error is put down exactly if some file is not copied.
pub proof fn law_pool_error_tells_all(workers: nat, events: Seq<PoolEvent>, pools: Seq<Pool>)
    requires
        pool_history(workers, events, pools),
        sent_once(events, pools),
        workers > 0,
        forall|i: int|
            0 <= i < pools.last().hands.len() ==> (#[trigger] pools.last().hands[i]).step
                is Finished,
    ensures
        pools.last().error <==> exists|file: int| #[trigger]
            pools.last().sent.contains(file) && !pools.last().copied.contains(file),
{
    if pools.last().error {
        law_pool_error_is_true(workers, events, pools);
    } else {
        law_pool_copies_every_file(workers, events, pools);
    }
}

/// A parallel copy that ends well is complete: if the walk met no failure and has ended, all
/// that it handed on went into the queue, and the workers have stopped without an error, then
/// every file of the tree is copied.
pub proof fn law_parallel_copy_is_complete(
    nodes: Seq<Node>,
    entry: Node,
    n: nat,
    workers: nat,
    events: Seq<PoolEvent>,
    pools: Seq<Pool>,
)
    requires
        height(nodes) < u64::MAX,
        calm_walk(
            Walk { queued: true },
            WalkStep::CreateDir { depth: 0 },
            calm_tree(nodes, entry),
            n,
        ).0 is Finished,
        pool_history(workers, events, pools),
        pools.last().sent == calm_walk(
            Walk { queued: true },
            WalkStep::CreateDir { depth: 0 },
            calm_tree(nodes, entry),
            n,
        ).1.handled.to_set(),
        workers > 0,
        forall|i: int|
            0 <= i < pools.last().hands.len() ==> (#[trigger] pools.last().hands[i]).step
                is Finished,
        !pools.last().error,
    ensures
        forall|i: int|
            0 <= i < files(nodes).len() ==> pools.last().copied.contains(
                #[trigger] files(nodes)[i],
            ),
{
    law_ended_walk_reached_every_file(Walk { queued: true }, nodes, entry, n);
    law_pool_copies_every_file(workers, events, pools);
    assert forall|i: int| 0 <= i < files(nodes).len() implies pools.last().copied.contains(
        #[trigger] files(nodes)[i],
    ) by {
        assert(files(nodes).contains(files(nodes)[i]));
        assert(pools.last().sent.contains(files(nodes)[i]));
    }
}

} // verus!
