//! What the copy of a whole tree comes to.

use vstd::prelude::*;

use super::chunks::{
    chunk_history, chunk_run, law_copy_is_exact, totals, ChunkDisk, ChunkReply, ChunkStep,
};
use super::copy::{
    copies_made, file_answers, file_run, is_same_file, law_file_outcome_is_true, FileJob,
    FileOutcome, FileReply, FileStep, TargetFile,
};
use super::walk::{
    calm_tree, calm_walk, files, height, law_ended_walk_reached_every_file, Calm, Node, Walk,
    WalkStep,
};

verus! {

/// One attempt to copy the bytes of a file.
pub struct Attempt {
    pub replies: Seq<ChunkReply>,
    pub disks: Seq<ChunkDisk>,
}

/// The work on one file: what it came to step by step, and the attempt that was made at each
/// step that copies.
pub struct FileWork {
    pub job: FileJob,
    pub replies: Seq<FileReply>,
    pub attempts: Seq<Attempt>,
}

/// Whether an attempt can have come to `reply`. The file has the length that the job tells.
pub open spec fn attempt_comes_to(job: FileJob, attempt: Attempt, reply: FileReply) -> bool {
    &&& chunk_history(attempt.replies, attempt.disks)
    &&& attempt.disks[0].source.len() == job.size
    &&& match reply {
        FileReply::Done => chunk_run(attempt.replies) == ChunkStep::Finished(Ok(())),
        FileReply::Failed(failure) => chunk_run(attempt.replies) == ChunkStep::Finished(
            Err(failure),
        ),
        FileReply::Target(_) => false,
    }
}

/// Whether the work on a file can have gone this way.
pub open spec fn work_history(work: FileWork) -> bool {
    &&& file_answers(work.job, work.replies)
    &&& work.attempts.len() == work.replies.len()
    &&& forall|i: int|
        0 <= i < work.replies.len() && file_run(work.job, work.replies.take(i)) is Copy
            ==> attempt_comes_to(work.job, #[trigger] work.attempts[i], work.replies[i])
}

/// Whether the work on a file can have gone this way, and ended well.
pub open spec fn is_done(work: FileWork) -> bool {
    work_history(work) && file_run(work.job, work.replies) matches FileStep::Finished(Ok(_))
}

/// Whether no attempt failed after bytes of the file were reported.
pub open spec fn fails_early(work: FileWork) -> bool {
    forall|i: int|
        0 <= i < work.replies.len() && work.replies[i] is Failed ==> totals(
            (#[trigger] work.attempts[i]).replies,
        ).reported == 0
}

/// The bytes that were reported as progress in the first `n` steps of the work on a file.
pub open spec fn reported_in(work: FileWork, n: nat) -> nat
    decreases n,
{
    if n == 0 {
        0
    } else {
        let i = n - 1;
        reported_in(work, (n - 1) as nat) + match file_run(work.job, work.replies.take(i)) {
            FileStep::Report { .. } => work.job.size as nat,
            FileStep::Copy { .. } => totals(work.attempts[i].replies).reported,
            _ => 0nat,
        }
    }
}

/// The bytes that were reported as progress for a file.
pub open spec fn bytes_reported(work: FileWork) -> nat {
    reported_in(work, work.replies.len())
}

proof fn lemma_answers_before(job: FileJob, replies: Seq<FileReply>, n: int)
    requires
        file_answers(job, replies),
        0 <= n <= replies.len(),
    ensures
        file_answers(job, replies.take(n)),
    decreases replies.len(),
{
    if n == replies.len() {
        assert(replies.take(n) =~= replies);
    } else {
        lemma_answers_before(job, replies.drop_last(), n);
        assert(replies.drop_last().take(n) =~= replies.take(n));
    }
}

proof fn lemma_reported_in(work: FileWork, n: nat)
    requires
        work_history(work),
        fails_early(work),
        n <= work.replies.len(),
    ensures
        file_answers(work.job, work.replies.take(n as int)),
        match file_run(work.job, work.replies.take(n as int)) {
            FileStep::Finished(Ok(_)) => reported_in(work, n) == work.job.size,
            _ => reported_in(work, n) == 0,
        },
    decreases n,
{
    lemma_answers_before(work.job, work.replies, n as int);
    if n > 0 {
        let i = n - 1;
        lemma_reported_in(work, (n - 1) as nat);
        let now = work.replies.take(n as int);
        assert(now.drop_last() =~= work.replies.take(i));
        assert(now.last() == work.replies[i]);
        if file_run(work.job, work.replies.take(i)) is Copy {
            let attempt = work.attempts[i];
            assert(attempt_comes_to(work.job, attempt, work.replies[i]));
            law_copy_is_exact(attempt.replies, attempt.disks);
        }
    }
}

/// For a file that is copied, was there already or was left out, exactly its length is
/// reported, if no attempt fails half way.
pub proof fn law_file_reports_its_length(work: FileWork)
    requires
        is_done(work),
        fails_early(work),
    ensures
        bytes_reported(work) == work.job.size,
{
    lemma_reported_in(work, work.replies.len());
    assert(work.replies.take(work.replies.len() as int) =~= work.replies);
}

/// The sum of `amount` over some files.
pub open spec fn sum_over(ids: Seq<int>, amount: spec_fn(int) -> nat) -> nat
    decreases ids.len(),
{
    if ids.len() == 0 {
        0
    } else {
        sum_over(ids.drop_last(), amount) + amount(ids.last())
    }
}

/// The bytes in all files of a tree.
pub open spec fn tree_bytes(nodes: Seq<Node>, length: spec_fn(int) -> nat) -> nat
    decreases nodes,
{
    if nodes.len() == 0 {
        0
    } else {
        (match nodes[0] {
            Node::File(id) => length(id),
            Node::Dir(children) => tree_bytes(children, length),
            _ => 0,
        }) + tree_bytes(nodes.subrange(1, nodes.len() as int), length)
    }
}

proof fn lemma_sum_adds(a: Seq<int>, b: Seq<int>, amount: spec_fn(int) -> nat)
    ensures
        sum_over(a + b, amount) == sum_over(a, amount) + sum_over(b, amount),
    decreases b.len(),
{
    if b.len() == 0 {
        assert(a + b =~= a);
    } else {
        lemma_sum_adds(a, b.drop_last(), amount);
        assert((a + b).drop_last() =~= a + b.drop_last());
        assert((a + b).last() == b.last());
    }
}

proof fn lemma_tree_is_sum(nodes: Seq<Node>, length: spec_fn(int) -> nat)
    ensures
        sum_over(files(nodes), length) == tree_bytes(nodes, length),
    decreases nodes,
{
    if nodes.len() > 0 {
        let rest = nodes.subrange(1, nodes.len() as int);
        let first = nodes[0];
        lemma_tree_is_sum(rest, length);
        let head: Seq<int> = match first {
            Node::File(id) => seq![id],
            Node::Dir(children) => files(children),
            _ => Seq::empty(),
        };
        lemma_sum_adds(head, files(rest), length);
        match first {
            Node::File(id) => {
                assert(head.drop_last() =~= Seq::<int>::empty());
                assert(sum_over(head.drop_last(), length) == 0);
            },
            Node::Dir(children) => {
                assert(decreases_to!(nodes => first));
                assert(decreases_to!(first => children));
                lemma_tree_is_sum(children, length);
            },
            _ => {},
        }
    }
}

proof fn lemma_same_sum(ids: Seq<int>, one: spec_fn(int) -> nat, other: spec_fn(int) -> nat)
    requires
        forall|i: int| 0 <= i < ids.len() ==> one(#[trigger] ids[i]) == other(ids[i]),
    ensures
        sum_over(ids, one) == sum_over(ids, other),
    decreases ids.len(),
{
    if ids.len() > 0 {
        let shorter = ids.drop_last();
        assert forall|i: int| 0 <= i < shorter.len() implies one(#[trigger] shorter[i]) == other(
            shorter[i],
        ) by {
            assert(shorter[i] == ids[i]);
        }
        lemma_same_sum(shorter, one, other);
        assert(one(ids[ids.len() - 1]) == other(ids[ids.len() - 1]));
    }
}

/// The step and the tree after `n` steps of a walk in which nothing fails.
pub open spec fn walked(walk: Walk, nodes: Seq<Node>, entry: Node, n: nat) -> (WalkStep, Calm) {
    calm_walk(walk, WalkStep::CreateDir { depth: 0 }, calm_tree(nodes, entry), n)
}

/// Over a whole tree, the bytes that are reported are the bytes in its files, if no attempt to
/// copy a file fails half way: the progress reaches its end exactly when the copy does.
/// `works` tells how the work on each file went, `length` how long each is.
pub proof fn law_tree_reports_every_byte(
    walk: Walk,
    nodes: Seq<Node>,
    entry: Node,
    n: nat,
    works: spec_fn(int) -> FileWork,
    length: spec_fn(int) -> nat,
)
    requires
        height(nodes) < u64::MAX,
        walked(walk, nodes, entry, n).0 is Finished,
        forall|i: int|
            0 <= i < files(nodes).len() ==> {
                let file = #[trigger] files(nodes)[i];
                &&& is_done(works(file))
                &&& fails_early(works(file))
                &&& works(file).job.size == length(file)
            },
    ensures
        sum_over(
            walked(walk, nodes, entry, n).1.handled,
            |file: int| bytes_reported(works(file)),
        ) == tree_bytes(nodes, length),
{
    law_ended_walk_reached_every_file(walk, nodes, entry, n);
    let reported = |file: int| bytes_reported(works(file));
    assert forall|i: int| 0 <= i < files(nodes).len() implies reported(#[trigger] files(nodes)[i])
        == length(files(nodes)[i]) by {
        law_file_reports_its_length(works(files(nodes)[i]));
    }
    lemma_same_sum(files(nodes), reported, length);
    lemma_tree_is_sum(nodes, length);
}

/// What the work on a file leaves where it is copied to: what was there if that was the same
/// file already, else the copy, to which the time of change was passed on. Nothing is said of
/// a file that was left out.
pub open spec fn left_by(work: FileWork) -> Option<TargetFile> {
    match file_run(work.job, work.replies)->Finished_0->Ok_0 {
        FileOutcome::UpToDate => work.replies[0]->Target_0,
        FileOutcome::Copied => Some(
            TargetFile {
                is_file: true,
                size: work.attempts.last().disks.last().target->0.len() as u64,
                modified: work.job.modified,
            },
        ),
        FileOutcome::Skipped => None,
    }
}

/// A file that is there already is never copied.
pub proof fn law_same_file_is_not_copied(job: FileJob, replies: Seq<FileReply>)
    requires
        file_answers(job, replies),
        replies.len() > 0,
        is_same_file(job, replies[0]->Target_0),
    ensures
        copies_made(job, replies) == 0,
        match file_run(job, replies) {
            FileStep::Report { outcome } => outcome == FileOutcome::UpToDate,
            FileStep::Finished(Ok(outcome)) => outcome == FileOutcome::UpToDate,
            _ => false,
        },
    decreases replies.len(),
{
    let shorter = replies.drop_last();
    if replies.len() == 1 {
        assert(shorter =~= Seq::<FileReply>::empty());
        assert(copies_made(job, shorter) == 0);
        assert(file_run(job, shorter) == FileStep::ProbeTarget);
    } else {
        law_same_file_is_not_copied(job, shorter);
    }
}

/// What a copy leaves counts as the same file when the unchanged file is copied again.
pub proof fn law_copy_is_recognised(work: FileWork)
    requires
        is_done(work),
        file_run(work.job, work.replies) != FileStep::Finished(Ok(FileOutcome::Skipped)),
    ensures
        is_same_file(work.job, left_by(work)),
{
    law_file_outcome_is_true(work.job, work.replies);
    if file_run(work.job, work.replies) == FileStep::Finished(Ok(FileOutcome::Copied)) {
        let i = work.replies.len() - 1;
        assert(work.replies.take(i) =~= work.replies.drop_last());
        let attempt = work.attempts[i];
        assert(attempt_comes_to(work.job, attempt, work.replies[i]));
        law_copy_is_exact(attempt.replies, attempt.disks);
    }
}

/// Copying an unchanged tree a second time writes nothing: each file that was not left out the
/// first time is found to be there already. `first` tells how the work on each file went the
/// first time, `second` the second time.
pub proof fn law_second_copy_writes_nothing(
    walk: Walk,
    nodes: Seq<Node>,
    entry: Node,
    n: nat,
    first: spec_fn(int) -> FileWork,
    second: spec_fn(int) -> FileWork,
)
    requires
        height(nodes) < u64::MAX,
        walked(walk, nodes, entry, n).0 is Finished,
        forall|i: int|
            0 <= i < files(nodes).len() ==> {
                let file = #[trigger] files(nodes)[i];
                &&& is_done(first(file))
                &&& file_run(first(file).job, first(file).replies) != FileStep::Finished(
                    Ok(FileOutcome::Skipped),
                )
                &&& second(file).job == first(file).job
                &&& file_answers(second(file).job, second(file).replies)
                &&& second(file).replies.len() > 0
                &&& second(file).replies[0] == FileReply::Target(left_by(first(file)))
            },
    ensures
        sum_over(
            walked(walk, nodes, entry, n).1.handled,
            |file: int| copies_made(second(file).job, second(file).replies),
        ) == 0,
{
    law_ended_walk_reached_every_file(walk, nodes, entry, n);
    let copies = |file: int| copies_made(second(file).job, second(file).replies);
    let nothing = |file: int| 0nat;
    assert forall|i: int| 0 <= i < files(nodes).len() implies copies(#[trigger] files(nodes)[i])
        == nothing(files(nodes)[i]) by {
        let file = files(nodes)[i];
        law_copy_is_recognised(first(file));
        law_same_file_is_not_copied(second(file).job, second(file).replies);
    }
    lemma_same_sum(files(nodes), copies, nothing);
    lemma_sum_of_nothing(files(nodes));
}

proof fn lemma_sum_of_nothing(ids: Seq<int>)
    ensures
        sum_over(ids, |file: int| 0nat) == 0,
    decreases ids.len(),
{
    if ids.len() > 0 {
        lemma_sum_of_nothing(ids.drop_last());
    }
}

/// It makes no difference whether files are copied on the spot or put into a queue: the same
/// files are handed on, in the same order.
pub proof fn law_both_modes_hand_on_same_files(
    nodes: Seq<Node>,
    entry: Node,
    on_the_spot: nat,
    other_entry: Node,
    queued: nat,
)
    requires
        height(nodes) < u64::MAX,
        walked(Walk { queued: false }, nodes, entry, on_the_spot).0 is Finished,
        walked(Walk { queued: true }, nodes, other_entry, queued).0 is Finished,
    ensures
        walked(Walk { queued: false }, nodes, entry, on_the_spot).1.handled == walked(
            Walk { queued: true },
            nodes,
            other_entry,
            queued,
        ).1.handled,
{
    law_ended_walk_reached_every_file(Walk { queued: false }, nodes, entry, on_the_spot);
    law_ended_walk_reached_every_file(Walk { queued: true }, nodes, other_entry, queued);
}

} // verus!
