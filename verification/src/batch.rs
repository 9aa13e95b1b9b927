//! Moving the folders that were selected, one after the other.

use vstd::prelude::*;
use vstd::string::*;

use crate::mover::{OsFailure, PathKind};
use crate::text::{append_signed, contains, law_contained_text_has_sides, signed_decimal};

verus! {

/// What is to be moved together.
#[derive(Clone, Copy, PartialEq, Eq, Structural, Debug)]
pub struct MoveBatch {
    /// How many target roots there are.
    pub roots: usize,
    /// How many folders are to be moved.
    pub tasks: usize,
    /// Whether processes that hold the folders may be ended.
    pub auto_kill: bool,
}

/// The work that is due. Roots and folders are known by their place in the batch.
#[derive(Debug)]
pub enum BatchStep {
    /// Tell the window that the move starts.
    TellStart,
    /// What is at a target root?
    ProbeRoot { root: usize },
    /// Create a target root.
    CreateRoot { root: usize },
    /// Tell the window that a target root is no directory.
    TellRootNotDirectory { root: usize },
    /// Tell the window that a target root could not be created.
    TellRootNotCreated { root: usize, failure: OsFailure },
    /// End the processes that hold a folder; failures do not matter.
    EndLockers { task: usize },
    /// Move a folder.
    Move { task: usize },
    /// Tell the window that a folder is moved.
    TellMoved { task: usize },
    /// Tell the window why a folder is not moved.
    TellNotMoved { task: usize, cause: String },
    /// Tell the window that the move is over.
    TellComplete,
    /// Nothing.
    Finished,
}

/// What came of the work.
#[derive(Debug)]
pub enum BatchReply {
    Done,
    Failed(OsFailure),
    Kind(PathKind),
    /// Why a folder was not moved, as it is shown to the user.
    NotMoved(String),
}

impl BatchStep {
    /// Whether `reply` is an answer to the work of this step.
    pub open spec fn accepts(self, reply: BatchReply) -> bool {
        match self {
            BatchStep::ProbeRoot { .. } => reply is Kind,
            BatchStep::CreateRoot { .. } => reply is Done || reply is Failed,
            BatchStep::Move { .. } => reply is Done || reply is NotMoved,
            BatchStep::Finished => false,
            _ => reply is Done,
        }
    }
}

impl MoveBatch {
    /// Whether a step can occur: its root or its folder is one of the batch.
    pub open spec fn in_range(self, step: BatchStep) -> bool {
        match step {
            BatchStep::ProbeRoot { root }
            | BatchStep::CreateRoot { root }
            | BatchStep::TellRootNotDirectory { root }
            | BatchStep::TellRootNotCreated { root, .. } => root < self.roots,
            BatchStep::EndLockers { task }
            | BatchStep::Move { task }
            | BatchStep::TellMoved { task }
            | BatchStep::TellNotMoved { task, .. } => task < self.tasks,
            _ => true,
        }
    }

    /// The step at which folder number `task` is turned to, or the end if there is none.
    pub open spec fn turn_to_task(self, task: int) -> BatchStep {
        if task >= self.tasks {
            BatchStep::TellComplete
        } else if self.auto_kill {
            BatchStep::EndLockers { task: task as usize }
        } else {
            BatchStep::Move { task: task as usize }
        }
    }

    /// The step at which root number `root` is turned to, or the first folder if there is
    /// none.
    pub open spec fn turn_to_root(self, root: int) -> BatchStep {
        if root < self.roots {
            BatchStep::ProbeRoot { root: root as usize }
        } else {
            self.turn_to_task(0)
        }
    }

    /// The step that follows `step` when its work came to `reply`.
    pub open spec fn after(self, step: BatchStep, reply: BatchReply) -> BatchStep {
        match step {
            BatchStep::TellStart => self.turn_to_root(0),
            BatchStep::ProbeRoot { root } => match reply->Kind_0 {
                PathKind::Directory => self.turn_to_root(root + 1),
                PathKind::Missing => BatchStep::CreateRoot { root },
                PathKind::Other => BatchStep::TellRootNotDirectory { root },
            },
            BatchStep::CreateRoot { root } => match reply {
                BatchReply::Failed(failure) => BatchStep::TellRootNotCreated { root, failure },
                _ => self.turn_to_root(root + 1),
            },
            BatchStep::TellRootNotDirectory { .. }
            | BatchStep::TellRootNotCreated { .. } => BatchStep::TellComplete,
            BatchStep::EndLockers { task } => BatchStep::Move { task },
            BatchStep::Move { task } => match reply {
                BatchReply::NotMoved(cause) => BatchStep::TellNotMoved { task, cause },
                _ => BatchStep::TellMoved { task },
            },
            BatchStep::TellMoved { task }
            | BatchStep::TellNotMoved { task, .. } => self.turn_to_task(task + 1),
            BatchStep::TellComplete | BatchStep::Finished => BatchStep::Finished,
        }
    }

    fn task_turn(&self, task: usize) -> (r: BatchStep)
        ensures
            r == self.turn_to_task(task as int),
            self.in_range(r),
    {
        if task >= self.tasks {
            BatchStep::TellComplete
        } else if self.auto_kill {
            BatchStep::EndLockers { task }
        } else {
            BatchStep::Move { task }
        }
    }

    fn root_turn(&self, root: usize) -> (r: BatchStep)
        ensures
            r == self.turn_to_root(root as int),
            self.in_range(r),
    {
        if root < self.roots {
            BatchStep::ProbeRoot { root }
        } else {
            self.task_turn(0)
        }
    }

    /// The step with which the work begins.
    pub fn start(&self) -> (r: BatchStep)
        ensures
            r == BatchStep::TellStart,
            r == batch_run(*self, Seq::empty()),
            self.in_range(r),
    {
        BatchStep::TellStart
    }

    /// Takes what came of the work of `step` to the next step.
    pub fn next(&self, step: BatchStep, reply: BatchReply) -> (r: BatchStep)
        requires
            self.in_range(step),
            step.accepts(reply),
        ensures
            r == self.after(step, reply),
            self.in_range(r),
    {
        match (step, reply) {
            (BatchStep::TellStart, _) => self.root_turn(0),
            (BatchStep::ProbeRoot { root }, BatchReply::Kind(kind)) => match kind {
                PathKind::Directory => self.root_turn(root + 1),
                PathKind::Missing => BatchStep::CreateRoot { root },
                PathKind::Other => BatchStep::TellRootNotDirectory { root },
            },
            (BatchStep::CreateRoot { root }, BatchReply::Failed(failure)) => {
                BatchStep::TellRootNotCreated { root, failure }
            },
            (BatchStep::CreateRoot { root }, _) => self.root_turn(root + 1),
            (BatchStep::TellRootNotDirectory { .. }, _) => BatchStep::TellComplete,
            (BatchStep::TellRootNotCreated { .. }, _) => BatchStep::TellComplete,
            (BatchStep::EndLockers { task }, _) => BatchStep::Move { task },
            (BatchStep::Move { task }, BatchReply::NotMoved(cause)) => BatchStep::TellNotMoved {
                task,
                cause,
            },
            (BatchStep::Move { task }, _) => BatchStep::TellMoved { task },
            (BatchStep::TellMoved { task }, _) => self.task_turn(task + 1),
            (BatchStep::TellNotMoved { task, .. }, _) => self.task_turn(task + 1),
            _ => BatchStep::Finished,
        }
    }
}

/// The contents of some texts.
pub open spec fn contents(texts: Seq<String>) -> Seq<Seq<char>> {
    texts.map_values(|text: String| text@)
}

/// Some names without repetitions, in the order in which each comes first.
pub open spec fn without_repetitions(names: Seq<Seq<char>>) -> Seq<Seq<char>>
    decreases names.len(),
{
    if names.len() == 0 {
        Seq::empty()
    } else {
        let before = without_repetitions(names.drop_last());
        if before.contains(names.last()) {
            before
        } else {
            before.push(names.last())
        }
    }
}

fn occurs(names: &Vec<String>, name: &String) -> (r: bool)
    ensures
        r == contents(names@).contains(name@),
{
    let mut i: usize = 0;
    while i < names.len()
        invariant
            i <= names@.len(),
            forall|k: int| 0 <= k < i ==> contents(names@)[k] != name@,
        decreases names@.len() - i,
    {
        if names[i] == *name {
            assert(contents(names@)[i as int] == name@);
            return true;
        }
        i += 1;
    }
    false
}

/// The target roots of a batch: `subdirs` names for each folder the directory it goes to.
pub fn target_roots(subdirs: Vec<String>) -> (r: Vec<String>)
    ensures
        contents(r@) == without_repetitions(contents(subdirs@)),
{
    let ghost all = subdirs@;
    let mut roots: Vec<String> = Vec::new();
    assert(contents(all.take(0)) =~= Seq::empty());
    assert(contents(roots@) =~= Seq::empty());
    for name in it: subdirs
        invariant
            it.seq() == all,
            contents(roots@) == without_repetitions(contents(all.take(it.index()))),
    {
        let ghost i = it.index();
        proof {
            assert(contents(all.take(i + 1)).drop_last() =~= contents(all.take(i)));
            assert(contents(all.take(i + 1)).last() == name@);
        }
        if !occurs(&roots, &name) {
            let ghost before = roots@;
            roots.push(name);
            assert(contents(roots@) =~= contents(before).push(name@));
        }
    }
    assert(all.take(all.len() as int) =~= all);
    roots
}

/// Every folder's target root is among those of the batch, none of them stands there twice,
/// and no other.
pub proof fn law_target_roots_are_all(names: Seq<Seq<char>>)
    ensures
        forall|name: Seq<char>|
            without_repetitions(names).contains(name) <==> #[trigger] names.contains(name),
        without_repetitions(names).no_duplicates(),
    decreases names.len(),
{
    if names.len() > 0 {
        let shorter = names.drop_last();
        let before = without_repetitions(shorter);
        let roots = without_repetitions(names);
        law_target_roots_are_all(shorter);
        assert forall|name: Seq<char>| roots.contains(name) <==> #[trigger] names.contains(
            name,
        ) by {
            if names.contains(name) {
                let i = choose|i: int| 0 <= i < names.len() && names[i] == name;
                if i < shorter.len() {
                    assert(shorter[i] == name);
                    assert(shorter.contains(name));
                    let k = choose|k: int| 0 <= k < before.len() && before[k] == name;
                    assert(roots[k] == name);
                } else if !before.contains(name) {
                    assert(roots[roots.len() - 1] == name);
                }
            }
            if roots.contains(name) {
                let k = choose|k: int| 0 <= k < roots.len() && roots[k] == name;
                if k < before.len() {
                    assert(before[k] == name);
                    assert(before.contains(name));
                    assert(shorter.contains(name));
                    let i = choose|i: int| 0 <= i < shorter.len() && shorter[i] == name;
                    assert(names[i] == name);
                } else {
                    assert(names[names.len() - 1] == name);
                }
            }
        }
        if !before.contains(names.last()) {
            assert forall|i: int, j: int|
                0 <= i < roots.len() && 0 <= j < roots.len() && i != j implies roots[i]
                != roots[j] by {
                if i < before.len() {
                    assert(before.contains(before[i]));
                }
                if j < before.len() {
                    assert(before.contains(before[j]));
                }
            }
        }
    }
}

/// What a user is told of a target root that is no directory.
pub open spec fn root_not_directory_text(root: Seq<char>) -> Seq<char> {
    "目标根目录不是文件夹："@ + root
        + "\n建议：选择一个新的目标根目录（例如 D:\\WindowsClear\\AppData），或删除/更名该路径后重试"@
}

/// What a user is told of a target root that could not be created.
pub open spec fn root_not_created_text(root: Seq<char>, failure: OsFailure) -> Seq<char> {
    "无法创建目标根目录："@ + root + "\n系统错误："@ + failure.text@ + " (os error "@
        + signed_decimal(
        match failure.code {
            Some(code) => code as int,
            None => 0,
        },
    )
        + ")\n建议：确认目标盘符存在且可写；尝试手动创建该目录；检查安全软件/受控文件夹访问拦截；建议使用 D:\\WindowsClear\\AppData 作为目标根目录"@
}

/// What a user is told of a folder that was not moved.
pub open spec fn not_moved_text(name: Seq<char>, cause: Seq<char>) -> Seq<char> {
    name + " 失败: "@ + cause
}

/// What a user is told of a target root that is no directory.
pub fn root_not_directory_message(root: &str) -> (r: String)
    ensures
        r@ == root_not_directory_text(root@),
{
    let mut r = "目标根目录不是文件夹：".to_owned();
    r.append(root);
    r.append(
        "\n建议：选择一个新的目标根目录（例如 D:\\WindowsClear\\AppData），或删除/更名该路径后重试",
    );
    r
}

/// What a user is told of a target root that could not be created.
pub fn root_not_created_message(root: &str, failure: &OsFailure) -> (r: String)
    ensures
        r@ == root_not_created_text(root@, *failure),
{
    let code: i32 = match failure.code {
        Some(code) => code,
        None => 0,
    };
    let mut r = "无法创建目标根目录：".to_owned();
    r.append(root);
    r.append("\n系统错误：");
    r.append(failure.text.as_str());
    r.append(" (os error ");
    append_signed(&mut r, code);
    r.append(
        ")\n建议：确认目标盘符存在且可写；尝试手动创建该目录；检查安全软件/受控文件夹访问拦截；建议使用 D:\\WindowsClear\\AppData 作为目标根目录",
    );
    r
}

/// What a user is told of a folder that was not moved.
pub fn not_moved_message(name: &str, cause: &str) -> (r: String)
    ensures
        r@ == not_moved_text(name@, cause@),
{
    let mut r = name.to_owned();
    r.append(" 失败: ");
    r.append(cause);
    r
}

/// The step that is reached from the start by `replies`.
pub open spec fn batch_run(batch: MoveBatch, replies: Seq<BatchReply>) -> BatchStep
    decreases replies.len(),
{
    if replies.len() == 0 {
        BatchStep::TellStart
    } else {
        batch.after(batch_run(batch, replies.drop_last()), replies.last())
    }
}

/// Whether each of `replies` answers the work that was due.
pub open spec fn batch_answers(batch: MoveBatch, replies: Seq<BatchReply>) -> bool
    decreases replies.len(),
{
    replies.len() == 0 || {
        &&& batch_answers(batch, replies.drop_last())
        &&& batch_run(batch, replies.drop_last()).accepts(replies.last())
    }
}

/// What the window was told.
pub struct Told {
    /// How often that the move starts.
    pub starts: nat,
    /// Of which folders what became of them, in order.
    pub tasks: Seq<usize>,
    /// How often that a target root is of no use.
    pub roots: nat,
    /// How often that the move is over.
    pub completes: nat,
}

/// What the window was told while the work came to `replies`.
pub open spec fn told(batch: MoveBatch, replies: Seq<BatchReply>) -> Told
    decreases replies.len(),
{
    if replies.len() == 0 {
        Told { starts: 0, tasks: Seq::empty(), roots: 0, completes: 0 }
    } else {
        let before = told(batch, replies.drop_last());
        match batch_run(batch, replies.drop_last()) {
            BatchStep::TellStart => Told { starts: before.starts + 1, ..before },
            BatchStep::TellMoved { task }
            | BatchStep::TellNotMoved { task, .. } => Told {
                tasks: before.tasks.push(task),
                ..before
            },
            BatchStep::TellRootNotDirectory { .. }
            | BatchStep::TellRootNotCreated { .. } => Told { roots: before.roots + 1, ..before },
            BatchStep::TellComplete => Told { completes: before.completes + 1, ..before },
            _ => before,
        }
    }
}

/// The first `n` folders of a batch.
pub open spec fn first_tasks(n: nat) -> Seq<usize> {
    Seq::new(n, |i: int| i as usize)
}

/// The window is told once that the move starts, then of every folder exactly once what
/// became of it, in order, and last and once that the move is over. Only if a target root is
/// of no use is it told that instead, and no folder is touched.
pub proof fn law_batch_tells_everything(batch: MoveBatch, replies: Seq<BatchReply>)
    requires
        batch_answers(batch, replies),
    ensures
        batch.in_range(batch_run(batch, replies)),
        match batch_run(batch, replies) {
            BatchStep::TellStart => told(batch, replies) == (Told {
                starts: 0,
                tasks: Seq::empty(),
                roots: 0,
                completes: 0,
            }),
            BatchStep::ProbeRoot { .. }
            | BatchStep::CreateRoot { .. }
            | BatchStep::TellRootNotDirectory { .. }
            | BatchStep::TellRootNotCreated { .. } => told(batch, replies) == (Told {
                starts: 1,
                tasks: Seq::empty(),
                roots: 0,
                completes: 0,
            }),
            BatchStep::EndLockers { task }
            | BatchStep::Move { task }
            | BatchStep::TellMoved { task }
            | BatchStep::TellNotMoved { task, .. } => told(batch, replies) == (Told {
                starts: 1,
                tasks: first_tasks(task as nat),
                roots: 0,
                completes: 0,
            }),
            BatchStep::TellComplete | BatchStep::Finished => {
                let end = told(batch, replies);
                &&& end.starts == 1
                &&& end.completes == if batch_run(batch, replies) is Finished {
                    1nat
                } else {
                    0nat
                }
                &&& if end.roots == 0 {
                    end.tasks == first_tasks(batch.tasks as nat)
                } else {
                    end.roots == 1 && end.tasks == Seq::<usize>::empty()
                }
            },
        },
    decreases replies.len(),
{
    assert(first_tasks(0) =~= Seq::empty());
    if replies.len() > 0 {
        let shorter = replies.drop_last();
        law_batch_tells_everything(batch, shorter);
        let step = batch_run(batch, shorter);
        match step {
            BatchStep::TellMoved { task } | BatchStep::TellNotMoved { task, .. } => {
                assert(first_tasks(task as nat).push(task) =~= first_tasks((task + 1) as nat));
            },
            _ => {},
        }
    }
}

/// The processes that hold a folder are ended only where the batch allows it.
pub proof fn law_batch_kills_only_where_allowed(batch: MoveBatch, replies: Seq<BatchReply>)
    requires
        batch_answers(batch, replies),
        !batch.auto_kill,
    ensures
        !(batch_run(batch, replies) is EndLockers),
    decreases replies.len(),
{
    if replies.len() > 0 {
        law_batch_kills_only_where_allowed(batch, replies.drop_last());
    }
}

/// Whether a target root is known to be a directory by `reply` to `step`.
pub open spec fn root_is_ready(step: BatchStep, reply: BatchReply, root: int) -> bool {
    match step {
        BatchStep::ProbeRoot { root: at } => at == root && reply == BatchReply::Kind(
            PathKind::Directory,
        ),
        BatchStep::CreateRoot { root: at } => at == root && reply is Done,
        _ => false,
    }
}

/// Whether folder number `task` has its turn by `reply` to `step`: the last target root is
/// ready, or the window was told of the folder before.
pub open spec fn task_has_turn(
    batch: MoveBatch,
    step: BatchStep,
    reply: BatchReply,
    task: int,
) -> bool {
    if task > 0 {
        match step {
            BatchStep::TellMoved { task: at } => at == task - 1,
            BatchStep::TellNotMoved { task: at, .. } => at == task - 1,
            _ => false,
        }
    } else if batch.roots > 0 {
        root_is_ready(step, reply, batch.roots - 1)
    } else {
        step is TellStart
    }
}

/// No step is due without its cause: the target roots are settled one after the other before
/// the first folder; each folder has its turn after the one before; processes are ended before
/// it is moved where that is allowed; and what the window is told of a root or a folder is
/// what came of that very root or folder.
pub proof fn law_batch_step_has_cause(batch: MoveBatch, step: BatchStep, reply: BatchReply)
    requires
        batch.in_range(step),
        step.accepts(reply),
    ensures
        match batch.after(step, reply) {
            BatchStep::TellStart => false,
            BatchStep::ProbeRoot { root } => root < batch.roots && if root == 0 {
                step is TellStart
            } else {
                root_is_ready(step, reply, root - 1)
            },
            BatchStep::CreateRoot { root } => step == (BatchStep::ProbeRoot { root }) && reply
                == BatchReply::Kind(PathKind::Missing),
            BatchStep::TellRootNotDirectory { root } => step == (BatchStep::ProbeRoot { root })
                && reply == BatchReply::Kind(PathKind::Other),
            BatchStep::TellRootNotCreated { root, failure } => step == (BatchStep::CreateRoot {
                root,
            }) && reply == BatchReply::Failed(failure),
            BatchStep::EndLockers { task } => batch.auto_kill && task < batch.tasks
                && task_has_turn(batch, step, reply, task as int),
            BatchStep::Move { task } => {
                ||| step == (BatchStep::EndLockers { task })
                ||| !batch.auto_kill && task < batch.tasks && task_has_turn(
                    batch,
                    step,
                    reply,
                    task as int,
                )
            },
            BatchStep::TellMoved { task } => step == (BatchStep::Move { task }) && reply is Done,
            BatchStep::TellNotMoved { task, cause } => step == (BatchStep::Move { task })
                && reply == BatchReply::NotMoved(cause),
            BatchStep::TellComplete => {
                ||| step is TellRootNotDirectory
                ||| step is TellRootNotCreated
                ||| task_has_turn(batch, step, reply, batch.tasks as int)
            },
            BatchStep::Finished => step is TellComplete,
        },
{
}

/// The target roots stand in the order in which they are first named: one name more leaves
/// those before it as they are, and comes last if it is new.
pub proof fn law_target_roots_keep_order(names: Seq<Seq<char>>, name: Seq<char>)
    ensures
        without_repetitions(Seq::empty()).len() == 0,
        names.contains(name) ==> without_repetitions(names.push(name)) == without_repetitions(
            names,
        ),
        !names.contains(name) ==> without_repetitions(names.push(name)) == without_repetitions(
            names,
        ).push(name),
{
    law_target_roots_are_all(names);
    assert(names.push(name).drop_last() =~= names);
}

/// What a user is told of a target root holds its path, and the failure with its code.
pub proof fn law_root_messages_tell_all(root: Seq<char>, failure: OsFailure)
    ensures
        contains(root_not_directory_text(root), root),
        contains(root_not_created_text(root, failure), root),
        contains(root_not_created_text(root, failure), failure.text@),
        failure.code matches Some(code) ==> contains(
            root_not_created_text(root, failure),
            " (os error "@ + signed_decimal(code as int) + ")"@,
        ),
        failure.code is None ==> contains(
            root_not_created_text(root, failure),
            " (os error "@ + signed_decimal(0) + ")"@,
        ),
{
    let code = match failure.code {
        Some(code) => code as int,
        None => 0,
    };
    let a = "无法创建目标根目录："@;
    let b = "\n系统错误："@;
    let c = " (os error "@;
    let d =
        ")\n建议：确认目标盘符存在且可写；尝试手动创建该目录；检查安全软件/受控文件夹访问拦截；建议使用 D:\\WindowsClear\\AppData 作为目标根目录"@;
    let e =
        "\n建议：选择一个新的目标根目录（例如 D:\\WindowsClear\\AppData），或删除/更名该路径后重试"@;
    reveal_strlit(")");
    reveal_strlit(
        ")\n建议：确认目标盘符存在且可写；尝试手动创建该目录；检查安全软件/受控文件夹访问拦截；建议使用 D:\\WindowsClear\\AppData 作为目标根目录",
    );
    let n = signed_decimal(code);
    let told = root_not_created_text(root, failure);
    law_contained_text_has_sides(root, "目标根目录不是文件夹："@, root, e);
    assert(told =~= a + root + (b + failure.text@ + c + n + d));
    law_contained_text_has_sides(told, a, root, b + failure.text@ + c + n + d);
    assert(told =~= (a + root + b) + failure.text@ + (c + n + d));
    law_contained_text_has_sides(told, a + root + b, failure.text@, c + n + d);
    assert(told =~= (a + root + b + failure.text@) + (c + n + ")"@) + d.skip(1));
    law_contained_text_has_sides(told, a + root + b + failure.text@, c + n + ")"@, d.skip(1));
}

/// What a user is told of a folder that was not moved begins with its name and ends with the
/// cause.
pub proof fn law_not_moved_message_tells_all(name: Seq<char>, cause: Seq<char>)
    ensures
        not_moved_text(name, cause).take(name.len() as int) == name,
        not_moved_text(name, cause).skip(not_moved_text(name, cause).len() - cause.len()) == cause,
        contains(not_moved_text(name, cause), " 失败: "@),
{
    let told = not_moved_text(name, cause);
    assert(told.take(name.len() as int) =~= name);
    assert(told.skip(told.len() - cause.len()) =~= cause);
    law_contained_text_has_sides(told, name, " 失败: "@, cause);
}

/// The contents of some texts are theirs, one for one and in order.
pub proof fn law_contents_are_the_texts(texts: Seq<String>)
    ensures
        contents(texts).len() == texts.len(),
        forall|i: int| 0 <= i < texts.len() ==> #[trigger] contents(texts)[i] == texts[i]@,
{
}

} // verus!
