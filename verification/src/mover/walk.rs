//! Walking through a directory tree that is copied.
//!
//! The walk descends into directories as it meets them. Each file is handed on: copied on
//! the spot, or put into the queue of the workers. Links are left out.

use vstd::prelude::*;
use vstd::string::*;

use super::OsFailure;

verus! {

/// What a directory entry is.
#[derive(Clone, Copy, PartialEq, Eq, Structural, Debug)]
pub enum EntryKind {
    Link,
    Directory,
    File,
    Other,
}

/// Why a tree was not copied.
#[derive(Debug)]
pub enum CopyError {
    /// A directory could not be created or read.
    Io(OsFailure),
    /// A file could not be copied; this is its path, as it is shown in messages.
    File { path: String },
    /// The workers have gone.
    QueueClosed,
}

/// What a user is told of an error.
pub open spec fn copy_message(error: CopyError) -> Seq<char> {
    match error {
        CopyError::Io(failure) => failure.text@,
        CopyError::File { path } => "复制文件失败: "@ + path@,
        CopyError::QueueClosed => "任务队列已关闭"@,
    }
}

impl CopyError {
    /// What a user is told of the error.
    pub fn message(&self) -> (r: String)
        ensures
            r@ == copy_message(*self),
    {
        match self {
            CopyError::Io(failure) => failure.text.clone(),
            CopyError::File { path } => "复制文件失败: ".to_owned().concat(path.as_str()),
            CopyError::QueueClosed => "任务队列已关闭".to_owned(),
        }
    }
}

/// The way through a tree.
#[derive(Clone, Copy, PartialEq, Eq, Structural, Debug)]
pub struct Walk {
    /// Whether files go into a queue instead of being copied on the spot.
    pub queued: bool,
}

/// The work that is due. The depth is the number of directories around the current one.
#[derive(Debug)]
pub enum WalkStep {
    /// Create the copy of the current directory.
    CreateDir { depth: u64 },
    /// Begin to read the current directory.
    Open { depth: u64 },
    /// Take the next entry of the current directory.
    NextEntry { depth: u64 },
    /// Has a worker failed?
    CheckFailed { depth: u64 },
    /// Wait as long as the work is paused.
    WaitWhilePaused { depth: u64 },
    /// What is the entry?
    Inspect { depth: u64 },
    /// Hand the file on.
    HandleFile { depth: u64 },
    /// Make the entry the current directory.
    Enter { depth: u64 },
    /// Make the directory around the current one the current one.
    Leave { depth: u64 },
    /// Nothing.
    Finished(Result<(), CopyError>),
}

/// What came of the work.
#[derive(Debug)]
pub enum WalkReply {
    Done,
    Failed(CopyError),
    Answer(bool),
    /// There is another entry.
    Entry,
    /// There is no other entry.
    End,
    Kind(EntryKind),
}

impl WalkStep {
    /// Whether `reply` is an answer to the work of this step.
    pub open spec fn accepts(self, reply: WalkReply) -> bool {
        match self {
            WalkStep::CreateDir { .. } | WalkStep::Open { .. } | WalkStep::HandleFile { .. } => {
                reply is Done || reply is Failed
            },
            WalkStep::NextEntry { .. } => reply is Entry || reply is End,
            WalkStep::CheckFailed { .. } => reply is Answer,
            WalkStep::Inspect { .. } => reply is Kind || reply is Failed,
            WalkStep::WaitWhilePaused { .. }
            | WalkStep::Enter { .. }
            | WalkStep::Leave { .. } => reply is Done,
            WalkStep::Finished(_) => false,
        }
    }

    /// Whether a step can occur: only from inside a directory can it be left, and the
    /// depth of the next one can be counted.
    pub open spec fn in_range(self) -> bool {
        match self {
            WalkStep::Leave { depth } => depth > 0,
            WalkStep::Enter { depth } => depth < u64::MAX,
            _ => true,
        }
    }
}

/// The step once nothing is left to do in the current directory.
pub open spec fn directory_done(depth: u64) -> WalkStep {
    if depth == 0 {
        WalkStep::Finished(Ok(()))
    } else {
        WalkStep::Leave { depth }
    }
}

/// The step that follows `step` when its work came to `reply`.
pub open spec fn walk_next(walk: Walk, step: WalkStep, reply: WalkReply) -> WalkStep {
    match (step, reply) {
        (WalkStep::CreateDir { depth }, WalkReply::Failed(error)) => if walk.queued && depth > 0 {
            WalkStep::Open { depth }
        } else {
            WalkStep::Finished(Err(error))
        },
        (WalkStep::CreateDir { depth }, _) => WalkStep::Open { depth },
        (WalkStep::Open { .. }, WalkReply::Failed(error))
        | (WalkStep::Inspect { .. }, WalkReply::Failed(error))
        | (WalkStep::HandleFile { .. }, WalkReply::Failed(error)) => WalkStep::Finished(
            Err(error),
        ),
        (WalkStep::Open { depth }, _) => WalkStep::NextEntry { depth },
        (WalkStep::NextEntry { depth }, WalkReply::End) => directory_done(depth),
        (WalkStep::NextEntry { depth }, _) => if walk.queued {
            WalkStep::CheckFailed { depth }
        } else {
            WalkStep::WaitWhilePaused { depth }
        },
        (WalkStep::CheckFailed { depth }, _) => if reply == WalkReply::Answer(true) {
            directory_done(depth)
        } else {
            WalkStep::WaitWhilePaused { depth }
        },
        (WalkStep::WaitWhilePaused { depth }, _) => WalkStep::Inspect { depth },
        (WalkStep::Inspect { depth }, _) => match reply->Kind_0 {
            EntryKind::Directory => WalkStep::Enter { depth },
            EntryKind::File => WalkStep::HandleFile { depth },
            EntryKind::Link | EntryKind::Other => WalkStep::NextEntry { depth },
        },
        (WalkStep::HandleFile { depth }, _) => WalkStep::NextEntry { depth },
        (WalkStep::Enter { depth }, _) => WalkStep::CreateDir { depth: (depth + 1) as u64 },
        (WalkStep::Leave { depth }, _) => WalkStep::NextEntry { depth: (depth - 1) as u64 },
        (WalkStep::Finished(result), _) => WalkStep::Finished(result),
    }
}

impl Walk {
    fn done(depth: u64) -> (r: WalkStep)
        ensures
            r == directory_done(depth),
            r.in_range(),
    {
        if depth == 0 {
            WalkStep::Finished(Ok(()))
        } else {
            WalkStep::Leave { depth }
        }
    }

    /// The step with which the work begins.
    pub fn start(&self) -> (r: WalkStep)
        ensures
            r == (WalkStep::CreateDir { depth: 0 }),
            r == walk_run(*self, Seq::empty()),
    {
        WalkStep::CreateDir { depth: 0 }
    }

    /// Takes what came of the work of `step` to the next step.
    pub fn next(&self, step: WalkStep, reply: WalkReply) -> (r: WalkStep)
        requires
            step.in_range(),
            step.accepts(reply),
        ensures
            r == walk_next(*self, step, reply),
            r is Leave ==> r.in_range(),
    {
        match (step, reply) {
            (WalkStep::CreateDir { depth }, WalkReply::Failed(error)) => {
                if self.queued && depth > 0 {
                    WalkStep::Open { depth }
                } else {
                    WalkStep::Finished(Err(error))
                }
            },
            (WalkStep::CreateDir { depth }, _) => WalkStep::Open { depth },
            (WalkStep::Open { .. }, WalkReply::Failed(error)) => WalkStep::Finished(Err(error)),
            (WalkStep::Open { depth }, _) => WalkStep::NextEntry { depth },
            (WalkStep::NextEntry { depth }, WalkReply::End) => Walk::done(depth),
            (WalkStep::NextEntry { depth }, _) => {
                if self.queued {
                    WalkStep::CheckFailed { depth }
                } else {
                    WalkStep::WaitWhilePaused { depth }
                }
            },
            (WalkStep::CheckFailed { depth }, WalkReply::Answer(failed)) => {
                if failed {
                    Walk::done(depth)
                } else {
                    WalkStep::WaitWhilePaused { depth }
                }
            },
            (WalkStep::WaitWhilePaused { depth }, _) => WalkStep::Inspect { depth },
            (WalkStep::Inspect { .. }, WalkReply::Failed(error)) => WalkStep::Finished(Err(error)),
            (WalkStep::Inspect { depth }, WalkReply::Kind(kind)) => match kind {
                EntryKind::Directory => WalkStep::Enter { depth },
                EntryKind::File => WalkStep::HandleFile { depth },
                _ => WalkStep::NextEntry { depth },
            },
            (WalkStep::HandleFile { .. }, WalkReply::Failed(error)) => WalkStep::Finished(
                Err(error),
            ),
            (WalkStep::HandleFile { depth }, _) => WalkStep::NextEntry { depth },
            (WalkStep::Enter { depth }, _) => WalkStep::CreateDir { depth: depth + 1 },
            (WalkStep::Leave { depth }, _) => WalkStep::NextEntry { depth: depth - 1 },
            (step, _) => step,
        }
    }
}

/// The step that is reached from the start by `replies`.
pub open spec fn walk_run(walk: Walk, replies: Seq<WalkReply>) -> WalkStep
    decreases replies.len(),
{
    if replies.len() == 0 {
        WalkStep::CreateDir { depth: 0 }
    } else {
        walk_next(walk, walk_run(walk, replies.drop_last()), replies.last())
    }
}

/// Whether each of `replies` answers the work that was due, at a depth that can be counted.
pub open spec fn walk_answers(walk: Walk, replies: Seq<WalkReply>) -> bool
    decreases replies.len(),
{
    replies.len() == 0 || {
        &&& walk_answers(walk, replies.drop_last())
        &&& walk_run(walk, replies.drop_last()).accepts(replies.last())
        &&& walk_run(walk, replies.drop_last()).in_range()
    }
}

/// Where files are copied on the spot, every failure ends the walk at once and is what the
/// walk comes to: a walk that ends well has met none.
pub proof fn law_walk_hides_no_failure(walk: Walk, step: WalkStep, reply: WalkReply)
    requires
        !walk.queued,
        step.accepts(reply),
        reply is Failed,
    ensures
        walk_next(walk, step, reply) == WalkStep::Finished(Err(reply->Failed_0)),
{
}

/// A pause is kept before every entry: none is looked at but right after waiting for the
/// pause to end.
pub proof fn law_pause_comes_before_every_entry(walk: Walk, step: WalkStep, reply: WalkReply)
    requires
        step.accepts(reply),
        walk_next(walk, step, reply) is Inspect,
    ensures
        step is WaitWhilePaused,
{
}

/// An entry of a directory tree. A file is known by a number.
pub enum Node {
    File(int),
    Dir(Seq<Node>),
    Link,
    Other,
}

/// The files of a tree, in the order in which its directories list them; a link is not
/// followed.
pub open spec fn files(nodes: Seq<Node>) -> Seq<int>
    decreases nodes,
{
    if nodes.len() == 0 {
        Seq::empty()
    } else {
        (match nodes[0] {
            Node::File(id) => seq![id],
            Node::Dir(children) => files(children),
            _ => Seq::empty(),
        }) + files(nodes.subrange(1, nodes.len() as int))
    }
}

/// How many directories are in a tree, the outermost one left out.
pub open spec fn directories(nodes: Seq<Node>) -> nat
    decreases nodes,
{
    if nodes.len() == 0 {
        0
    } else {
        (match nodes[0] {
            Node::Dir(children) => 1 + directories(children),
            _ => 0,
        }) + directories(nodes.subrange(1, nodes.len() as int))
    }
}

/// A tree that is being walked through, and nothing fails.
pub struct Calm {
    /// What is still to be read of each directory that was entered, the current one last.
    pub open: Seq<Seq<Node>>,
    /// The entry that was taken last.
    pub entry: Node,
    /// The files that were handed on.
    pub handled: Seq<int>,
    /// How many directories were created.
    pub created: nat,
}

/// A tree before anything was read of it.
pub open spec fn calm_tree(nodes: Seq<Node>, entry: Node) -> Calm {
    Calm { open: seq![nodes], entry, handled: Seq::empty(), created: 0 }
}

/// What the work of `step` comes to when nothing fails and nothing is paused for good.
pub open spec fn calm_reply(step: WalkStep, calm: Calm) -> WalkReply {
    match step {
        WalkStep::NextEntry { .. } => if calm.open.last().len() == 0 {
            WalkReply::End
        } else {
            WalkReply::Entry
        },
        WalkStep::CheckFailed { .. } => WalkReply::Answer(false),
        WalkStep::Inspect { .. } => WalkReply::Kind(
            match calm.entry {
                Node::File(_) => EntryKind::File,
                Node::Dir(_) => EntryKind::Directory,
                Node::Link => EntryKind::Link,
                Node::Other => EntryKind::Other,
            },
        ),
        _ => WalkReply::Done,
    }
}

/// What the work of `step` makes of the tree.
pub open spec fn calm_after(step: WalkStep, calm: Calm) -> Calm {
    let top = calm.open.last();
    match step {
        WalkStep::NextEntry { .. } => if top.len() == 0 {
            calm
        } else {
            Calm {
                open: calm.open.drop_last().push(top.subrange(1, top.len() as int)),
                entry: top[0],
                ..calm
            }
        },
        WalkStep::HandleFile { .. } => Calm {
            handled: calm.handled.push(calm.entry->File_0),
            ..calm
        },
        WalkStep::CreateDir { .. } => Calm { created: calm.created + 1, ..calm },
        WalkStep::Enter { .. } => Calm { open: calm.open.push(calm.entry->Dir_0), ..calm },
        WalkStep::Leave { .. } => Calm { open: calm.open.drop_last(), ..calm },
        _ => calm,
    }
}

/// The step and the tree after `n` steps in which nothing fails.
pub open spec fn calm_walk(walk: Walk, step: WalkStep, calm: Calm, n: nat) -> (WalkStep, Calm)
    decreases n,
{
    if n == 0 {
        (step, calm)
    } else {
        calm_walk(
            walk,
            walk_next(walk, step, calm_reply(step, calm)),
            calm_after(step, calm),
            (n - 1) as nat,
        )
    }
}

proof fn lemma_calm_walk_adds(walk: Walk, step: WalkStep, calm: Calm, a: nat, b: nat)
    ensures
        calm_walk(walk, step, calm, a + b) == {
            let (s, c) = calm_walk(walk, step, calm, a);
            calm_walk(walk, s, c, b)
        },
    decreases a,
{
    if a > 0 {
        lemma_calm_walk_adds(
            walk,
            walk_next(walk, step, calm_reply(step, calm)),
            calm_after(step, calm),
            (a - 1) as nat,
            b,
        );
        assert((a - 1) as nat + b == (a + b - 1) as nat);
    }
}

/// The tree once the current directory is read to its end.
spec fn read_out(calm: Calm, entry: Node) -> Calm {
    let top = calm.open.last();
    Calm {
        open: calm.open.drop_last().push(Seq::empty()),
        entry,
        handled: calm.handled + files(top),
        created: calm.created + directories(top),
    }
}

/// How deep a tree is.
pub open spec fn height(nodes: Seq<Node>) -> nat
    decreases nodes,
{
    if nodes.len() == 0 {
        0
    } else {
        let rest = height(nodes.subrange(1, nodes.len() as int));
        match nodes[0] {
            Node::Dir(children) => if height(children) + 1 > rest {
                height(children) + 1
            } else {
                rest
            },
            _ => rest,
        }
    }
}

proof fn lemma_reads_out(walk: Walk, depth: u64, calm: Calm) -> (r: (nat, Node))
    requires
        calm.open.len() > 0,
        depth + height(calm.open.last()) < u64::MAX,
    ensures
        calm_walk(walk, WalkStep::NextEntry { depth }, calm, r.0) == (
            WalkStep::NextEntry { depth },
            read_out(calm, r.1),
        ),
    decreases calm.open.last(),
{
    let top = calm.open.last();
    let start = WalkStep::NextEntry { depth };
    if top.len() == 0 {
        assert(top =~= Seq::empty());
        assert(read_out(calm, calm.entry).open =~= calm.open);
        assert(read_out(calm, calm.entry).handled =~= calm.handled);
        (0nat, calm.entry)
    } else {
        reveal_with_fuel(calm_walk, 6);
        let rest = top.subrange(1, top.len() as int);
        let first = top[0];
        let taken = Calm { open: calm.open.drop_last().push(rest), entry: first, ..calm };
        // Up to the question what the entry is.
        let asked: nat = if walk.queued {
            3
        } else {
            2
        };
        assert(calm_walk(walk, start, calm, asked) == (WalkStep::Inspect { depth }, taken));
        // Up to the next entry.
        let (more, after): (nat, Calm) = match first {
            Node::File(id) => {
                let after = Calm { handled: taken.handled.push(id), ..taken };
                assert(calm_walk(walk, WalkStep::Inspect { depth }, taken, 2) == (start, after));
                (2nat, after)
            },
            Node::Dir(children) => {
                let deeper = (depth + 1) as u64;
                let inside = Calm {
                    open: taken.open.push(children),
                    created: taken.created + 1,
                    ..taken
                };
                assert(calm_walk(walk, WalkStep::Inspect { depth }, taken, 4) == (
                    WalkStep::NextEntry { depth: deeper },
                    inside,
                ));
                assert(decreases_to!(top => first));
                assert(decreases_to!(first => children));
                assert(inside.open.last() == children);
                let (n, entry) = lemma_reads_out(walk, deeper, inside);
                let read = read_out(inside, entry);
                let after = Calm { open: read.open.drop_last(), ..read };
                assert(calm_walk(walk, WalkStep::NextEntry { depth: deeper }, read, 2) == (
                    start,
                    after,
                ));
                lemma_calm_walk_adds(walk, WalkStep::NextEntry { depth: deeper }, inside, n, 2);
                lemma_calm_walk_adds(walk, WalkStep::Inspect { depth }, taken, 4, n + 2);
                (4 + (n + 2), after)
            },
            _ => {
                assert(calm_walk(walk, WalkStep::Inspect { depth }, taken, 1) == (start, taken));
                (1nat, taken)
            },
        };
        assert(after.open =~= taken.open);
        lemma_calm_walk_adds(walk, start, calm, asked, more);
        let (m, entry) = lemma_reads_out(walk, depth, after);
        lemma_calm_walk_adds(walk, start, calm, asked + more, m);
        let end = read_out(after, entry);
        assert(end.open =~= read_out(calm, entry).open);
        assert(end.handled =~= read_out(calm, entry).handled);
        (asked + more + m, entry)
    }
}

/// When nothing fails, the walk ends, and it has handed on every file of the tree exactly
/// once, in the order of the directories, and created a copy of every directory. Links
/// and what is neither a file nor a directory are left out.
pub proof fn law_walk_reaches_every_file(walk: Walk, nodes: Seq<Node>, entry: Node)
    requires
        height(nodes) < u64::MAX,
    ensures
        exists|n: nat|
            {
                let (step, end) = #[trigger] calm_walk(
                    walk,
                    WalkStep::CreateDir { depth: 0 },
                    calm_tree(nodes, entry),
                    n,
                );
                &&& step == WalkStep::Finished(Ok(()))
                &&& end.handled == files(nodes)
                &&& end.created == directories(nodes) + 1
            },
{
    reveal_with_fuel(calm_walk, 3);
    let begin = WalkStep::CreateDir { depth: 0 };
    let calm = calm_tree(nodes, entry);
    let opened = Calm { created: 1, ..calm };
    let reading = WalkStep::NextEntry { depth: 0 };
    assert(calm_walk(walk, begin, calm, 2) == (reading, opened));
    assert(opened.open.last() == nodes);
    let (n, last) = lemma_reads_out(walk, 0, opened);
    let end = read_out(opened, last);
    assert(calm_walk(walk, reading, end, 1) == (WalkStep::Finished(Ok(())), end));
    lemma_calm_walk_adds(walk, reading, opened, n, 1);
    lemma_calm_walk_adds(walk, begin, calm, 2, n + 1);
    assert(end.handled =~= files(nodes));
}

proof fn lemma_calm_walk_stays(walk: Walk, step: WalkStep, calm: Calm, n: nat)
    requires
        step is Finished,
    ensures
        calm_walk(walk, step, calm, n) == (step, calm),
    decreases n,
{
    if n > 0 {
        lemma_calm_walk_stays(walk, step, calm, (n - 1) as nat);
    }
}

/// A walk in which nothing fails can only end when it has handed on every file of the tree
/// exactly once.
pub proof fn law_ended_walk_reached_every_file(walk: Walk, nodes: Seq<Node>, entry: Node, n: nat)
    requires
        height(nodes) < u64::MAX,
        calm_walk(walk, WalkStep::CreateDir { depth: 0 }, calm_tree(nodes, entry), n).0
            is Finished,
    ensures
        calm_walk(walk, WalkStep::CreateDir { depth: 0 }, calm_tree(nodes, entry), n).0
            == WalkStep::Finished(Ok(())),
        calm_walk(walk, WalkStep::CreateDir { depth: 0 }, calm_tree(nodes, entry), n).1.handled
            == files(nodes),
{
    law_walk_reaches_every_file(walk, nodes, entry);
    let begin = WalkStep::CreateDir { depth: 0 };
    let calm = calm_tree(nodes, entry);
    let m = choose|m: nat|
        {
            let (step, end) = #[trigger] calm_walk(walk, begin, calm, m);
            &&& step == WalkStep::Finished(Ok(()))
            &&& end.handled == files(nodes)
            &&& end.created == directories(nodes) + 1
        };
    let (early, late) = if n <= m {
        (n, m)
    } else {
        (m, n)
    };
    let (step, end) = calm_walk(walk, begin, calm, early);
    lemma_calm_walk_adds(walk, begin, calm, early, (late - early) as nat);
    lemma_calm_walk_stays(walk, step, end, (late - early) as nat);
}

/// No step is due without its cause. A file is handed on only right after it proved to be one,
/// a directory is entered only right after it proved to be one, a link is passed over; a
/// directory is left when it is read to its end, or a worker has failed; and an error that
/// the walk comes to is that of its last step.
pub proof fn law_walk_step_has_cause(walk: Walk, step: WalkStep, reply: WalkReply)
    requires
        step.accepts(reply),
        step.in_range(),
    ensures
        match walk_next(walk, step, reply) {
            WalkStep::CreateDir { depth } => {
                depth > 0 && step == (WalkStep::Enter { depth: (depth - 1) as u64 })
            },
            WalkStep::Open { depth } => {
                &&& step == (WalkStep::CreateDir { depth })
                &&& reply is Done || (walk.queued && depth > 0)
            },
            WalkStep::NextEntry { depth } => {
                ||| step == (WalkStep::Open { depth }) && reply is Done
                ||| step == (WalkStep::HandleFile { depth }) && reply is Done
                ||| step == (WalkStep::Inspect { depth }) && reply == WalkReply::Kind(
                    EntryKind::Link,
                )
                ||| step == (WalkStep::Inspect { depth }) && reply == WalkReply::Kind(
                    EntryKind::Other,
                )
                ||| depth < u64::MAX && step == (WalkStep::Leave { depth: (depth + 1) as u64 })
            },
            WalkStep::CheckFailed { depth } => {
                walk.queued && step == (WalkStep::NextEntry { depth }) && reply is Entry
            },
            WalkStep::WaitWhilePaused { depth } => {
                ||| step == (WalkStep::CheckFailed { depth }) && reply == WalkReply::Answer(false)
                ||| !walk.queued && step == (WalkStep::NextEntry { depth }) && reply is Entry
            },
            WalkStep::Inspect { depth } => step == (WalkStep::WaitWhilePaused { depth }),
            WalkStep::HandleFile { depth } => {
                step == (WalkStep::Inspect { depth }) && reply == WalkReply::Kind(EntryKind::File)
            },
            WalkStep::Enter { depth } => {
                step == (WalkStep::Inspect { depth }) && reply == WalkReply::Kind(
                    EntryKind::Directory,
                )
            },
            WalkStep::Leave { depth } => {
                &&& depth > 0
                &&& {
                    ||| step == (WalkStep::NextEntry { depth }) && reply is End
                    ||| step == (WalkStep::CheckFailed { depth }) && reply == WalkReply::Answer(
                        true,
                    )
                }
            },
            WalkStep::Finished(Ok(_)) => {
                ||| step == (WalkStep::NextEntry { depth: 0 }) && reply is End
                ||| step == (WalkStep::CheckFailed { depth: 0 }) && reply == WalkReply::Answer(
                    true,
                )
            },
            WalkStep::Finished(Err(error)) => {
                &&& reply == WalkReply::Failed(error)
                &&& step matches WalkStep::CreateDir { depth } ==> !walk.queued || depth == 0
            },
        },
{
}

/// Whether a walk only works its way out from here on, without touching anything.
pub open spec fn works_its_way_out(step: WalkStep) -> bool {
    ||| step is NextEntry
    ||| step is CheckFailed
    ||| step is Leave
    ||| step == WalkStep::Finished(Ok(()))
}

/// Once a worker has failed, no more files are queued and no more directories are entered:
/// as long as the walk learns of the failure, it only works its way out.
pub proof fn law_failed_walk_works_its_way_out(walk: Walk, step: WalkStep, reply: WalkReply)
    requires
        walk.queued,
        step.accepts(reply),
        works_its_way_out(step),
        step is CheckFailed ==> reply == WalkReply::Answer(true),
    ensures
        works_its_way_out(walk_next(walk, step, reply)),
{
}

/// What a user is told of an error is the system's message, or holds the file's path.
pub proof fn law_copy_message_tells_all(error: CopyError)
    ensures
        error matches CopyError::Io(failure) ==> copy_message(error) == failure.text@,
        error matches CopyError::File { path } ==> copy_message(error).skip(
            copy_message(error).len() - path@.len(),
        ) == path@,
{
    if let CopyError::File { path } = error {
        let told = copy_message(error);
        assert(told.skip(told.len() - path@.len()) =~= path@);
    }
}

} // verus!
