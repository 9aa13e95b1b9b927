//! What a copy makes of a target that exists already.

use vstd::prelude::*;

use super::walk::{
    files, walk_answers, walk_next, walk_run, EntryKind, Node, Walk, WalkReply, WalkStep,
};

verus! {

/// A tree that is being copied, and the files at the target. A file at the target has the
/// number of the file of which it is, or would be, the copy; others have numbers of their own.
pub struct Overlay {
    /// What is still to be read of each directory that was entered, the current one last.
    pub open: Seq<Seq<Node>>,
    /// The entry that was taken last.
    pub entry: Node,
    /// The files that were handed on: copied on the spot, or put into the queue.
    pub handed: Set<int>,
    /// The files at the target, with what they hold.
    pub target: Map<int, Seq<u8>>,
}

/// What an entry is.
pub open spec fn kind_of(node: Node) -> EntryKind {
    match node {
        Node::File(_) => EntryKind::File,
        Node::Dir(_) => EntryKind::Directory,
        Node::Link => EntryKind::Link,
        Node::Other => EntryKind::Other,
    }
}

/// Whether two states of the target agree on a file: it is missing from both, or holds the
/// same in both.
pub open spec fn same_at(one: Map<int, Seq<u8>>, other: Map<int, Seq<u8>>, file: int) -> bool {
    &&& one.contains_key(file) == other.contains_key(file)
    &&& one.contains_key(file) ==> one[file] == other[file]
}

/// What the work of `step` can do when it came to `reply`.
///
/// The entries of a directory come one by one and are what they are said to be. A file that
/// was handed on can be copied at any time from then on, by the walk or by a worker, well or
/// badly; copying a file touches nothing at the target but its own copy.
pub open spec fn overlay_effect(
    step: WalkStep,
    reply: WalkReply,
    before: Overlay,
    after: Overlay,
) -> bool {
    let top = before.open.last();
    &&& forall|file: int| !#[trigger]
        after.handed.contains(file) ==> same_at(before.target, after.target, file)
    &&& match step {
        WalkStep::NextEntry { .. } => if reply is Entry {
            &&& top.len() > 0
            &&& after.open == before.open.drop_last().push(top.subrange(1, top.len() as int))
            &&& after.entry == top[0]
            &&& after.handed == before.handed
        } else {
            after == Overlay { target: after.target, ..before }
        },
        WalkStep::Inspect { .. } => {
            &&& after == Overlay { target: after.target, ..before }
            &&& reply matches WalkReply::Kind(kind) ==> kind == kind_of(before.entry)
        },
        WalkStep::HandleFile { .. } => after == Overlay {
            handed: before.handed.insert(before.entry->File_0),
            target: after.target,
            ..before
        },
        WalkStep::Enter { .. } => after == Overlay {
            open: before.open.push(before.entry->Dir_0),
            target: after.target,
            ..before
        },
        WalkStep::Leave { .. } => after == Overlay {
            open: before.open.drop_last(),
            target: after.target,
            ..before
        },
        _ => after == Overlay { target: after.target, ..before },
    }
}

/// Whether the copy of the tree `nodes` can have gone through `disks` while the walk came to
/// `replies`.
pub open spec fn overlay_history(
    walk: Walk,
    nodes: Seq<Node>,
    replies: Seq<WalkReply>,
    disks: Seq<Overlay>,
) -> bool {
    &&& disks.len() == replies.len() + 1
    &&& disks[0].open == seq![nodes]
    &&& disks[0].handed == Set::<int>::empty()
    &&& walk_answers(walk, replies)
    &&& forall|i: int|
        0 <= i < replies.len() ==> overlay_effect(
            walk_run(walk, replies.take(i)),
            replies[i],
            disks[i],
            #[trigger] disks[i + 1],
        )
}

/// Whether all files of `part` are files of the tree `nodes`.
pub open spec fn belongs_to(part: Seq<Node>, nodes: Seq<Node>) -> bool {
    forall|file: int| #[trigger] files(part).contains(file) ==> files(nodes).contains(file)
}

/// Whether the walk is inside the tree while `step` is due: what is still to be read, the
/// current entry, and all that was handed on belong to it.
pub open spec fn stays_inside(step: WalkStep, nodes: Seq<Node>, disk: Overlay) -> bool {
    let entered = |depth: u64| disk.open.len() == depth + 1;
    &&& forall|k: int| 0 <= k < disk.open.len() ==> belongs_to(#[trigger] disk.open[k], nodes)
    &&& forall|file: int| #[trigger] disk.handed.contains(file) ==> files(nodes).contains(file)
    &&& match step {
        WalkStep::CreateDir { depth }
        | WalkStep::Open { depth }
        | WalkStep::NextEntry { depth }
        | WalkStep::Leave { depth } => entered(depth),
        WalkStep::CheckFailed { depth }
        | WalkStep::WaitWhilePaused { depth }
        | WalkStep::Inspect { depth } => entered(depth) && belongs_to(seq![disk.entry], nodes),
        WalkStep::HandleFile { depth } => entered(depth) && belongs_to(seq![disk.entry], nodes)
            && disk.entry is File,
        WalkStep::Enter { depth } => entered(depth) && belongs_to(seq![disk.entry], nodes)
            && disk.entry is Dir,
        WalkStep::Finished(_) => true,
    }
}

proof fn lemma_files_split(nodes: Seq<Node>)
    requires
        nodes.len() > 0,
    ensures
        belongs_to(seq![nodes[0]], nodes),
        belongs_to(nodes.subrange(1, nodes.len() as int), nodes),
{
    let rest = nodes.subrange(1, nodes.len() as int);
    let head = seq![nodes[0]];
    assert(head.subrange(1, 1) =~= Seq::<Node>::empty());
    assert(files(head.subrange(1, 1)) =~= Seq::<int>::empty());
    assert(files(nodes) =~= files(head) + files(rest));
    assert forall|file: int| #[trigger] files(head).contains(file) implies files(nodes).contains(
        file,
    ) by {
        let i = choose|i: int| 0 <= i < files(head).len() && files(head)[i] == file;
        assert(files(nodes)[i] == file);
    }
    assert forall|file: int| #[trigger] files(rest).contains(file) implies files(nodes).contains(
        file,
    ) by {
        let i = choose|i: int| 0 <= i < files(rest).len() && files(rest)[i] == file;
        assert(files(nodes)[files(head).len() + i] == file);
    }
}

proof fn lemma_files_of_entry(entry: Node)
    ensures
        entry matches Node::File(id) ==> files(seq![entry]).contains(id),
        entry matches Node::Dir(children) ==> files(seq![entry]) == files(children),
{
    let whole = seq![entry];
    assert(whole.subrange(1, 1) =~= Seq::<Node>::empty());
    assert(files(whole.subrange(1, 1)) =~= Seq::<int>::empty());
    match entry {
        Node::File(id) => {
            assert(files(whole)[0] == id);
        },
        Node::Dir(children) => {
            assert(files(whole) =~= files(children));
        },
        _ => {},
    }
}

proof fn lemma_step_stays_inside(
    walk: Walk,
    nodes: Seq<Node>,
    step: WalkStep,
    reply: WalkReply,
    before: Overlay,
    after: Overlay,
)
    requires
        step.accepts(reply),
        step.in_range(),
        stays_inside(step, nodes, before),
        overlay_effect(step, reply, before, after),
    ensures
        stays_inside(walk_next(walk, step, reply), nodes, after),
{
    match step {
        WalkStep::NextEntry { depth } => {
            if reply is Entry {
                let top = before.open.last();
                lemma_files_split(top);
                assert(belongs_to(before.open[before.open.len() - 1], nodes));
                assert forall|k: int| 0 <= k < after.open.len() implies belongs_to(
                    #[trigger] after.open[k],
                    nodes,
                ) by {
                    if k < before.open.len() - 1 {
                        assert(after.open[k] == before.open[k]);
                    }
                }
            }
        },
        WalkStep::HandleFile { .. } => {
            lemma_files_of_entry(before.entry);
        },
        WalkStep::Enter { depth } => {
            lemma_files_of_entry(before.entry);
            assert forall|k: int| 0 <= k < after.open.len() implies belongs_to(
                #[trigger] after.open[k],
                nodes,
            ) by {
                if k < before.open.len() {
                    assert(after.open[k] == before.open[k]);
                }
            }
        },
        WalkStep::Leave { depth } => {
            assert forall|k: int| 0 <= k < after.open.len() implies belongs_to(
                #[trigger] after.open[k],
                nodes,
            ) by {
                assert(after.open[k] == before.open[k]);
            }
        },
        _ => {},
    }
}

/// A copy onto a target that exists already leaves alone what is not its own: however it goes,
/// a file at the target that is the copy of no file of the tree is as it was. Nor is any copy
/// touched before its file was handed on.
pub proof fn law_copy_spares_other_files(
    walk: Walk,
    nodes: Seq<Node>,
    replies: Seq<WalkReply>,
    disks: Seq<Overlay>,
    file: int,
)
    requires
        overlay_history(walk, nodes, replies, disks),
    ensures
        stays_inside(walk_run(walk, replies), nodes, disks.last()),
        !disks.last().handed.contains(file) ==> same_at(
            disks[0].target,
            disks.last().target,
            file,
        ),
        !files(nodes).contains(file) ==> same_at(disks[0].target, disks.last().target, file),
    decreases replies.len(),
{
    if replies.len() > 0 {
        let shorter = replies.drop_last();
        let n = shorter.len() as int;
        assert forall|i: int| 0 <= i < n implies overlay_effect(
            walk_run(walk, shorter.take(i)),
            shorter[i],
            disks.drop_last()[i],
            #[trigger] disks.drop_last()[i + 1],
        ) by {
            assert(shorter.take(i) =~= replies.take(i));
            assert(disks[i + 1] == disks.drop_last()[i + 1]);
        }
        law_copy_spares_other_files(walk, nodes, shorter, disks.drop_last(), file);
        assert(replies.take(n) =~= shorter);
        assert(disks[n + 1] == disks.last());
        assert(disks.drop_last().last() == disks[n]);
        lemma_step_stays_inside(
            walk,
            nodes,
            walk_run(walk, shorter),
            replies.last(),
            disks[n],
            disks.last(),
        );
        if !files(nodes).contains(file) {
            assert(!disks.last().handed.contains(file));
        }
    } else {
        assert(disks[0].open[0] == nodes);
    }
}

/// The same holds of a copy by workers, which go on after the walk has ended: `end` is the
/// target when the last of them has stopped.
pub proof fn law_workers_spare_other_files(
    walk: Walk,
    nodes: Seq<Node>,
    replies: Seq<WalkReply>,
    disks: Seq<Overlay>,
    end: Map<int, Seq<u8>>,
    file: int,
)
    requires
        overlay_history(walk, nodes, replies, disks),
        forall|other: int| !#[trigger]
            disks.last().handed.contains(other) ==> same_at(disks.last().target, end, other),
        !files(nodes).contains(file),
    ensures
        same_at(disks[0].target, end, file),
{
    law_copy_spares_other_files(walk, nodes, replies, disks, file);
    assert(!disks.last().handed.contains(file));
}

} // verus!
