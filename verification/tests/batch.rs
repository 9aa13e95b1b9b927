use windows_clear::batch::{
    not_moved_message, root_not_created_message, root_not_directory_message, target_roots,
    BatchReply, BatchStep, MoveBatch,
};
use windows_clear::mover::{FailureKind, OsFailure, PathKind};

fn failure() -> OsFailure {
    OsFailure { kind: FailureKind::Other, code: Some(3), text: "path not found".to_string() }
}

fn show(step: &BatchStep) -> String {
    match step {
        BatchStep::TellStart => "start".to_string(),
        BatchStep::ProbeRoot { root } => format!("probe {}", root),
        BatchStep::CreateRoot { root } => format!("create {}", root),
        BatchStep::TellRootNotDirectory { root } => format!("no directory {}", root),
        BatchStep::TellRootNotCreated { root, failure } => {
            format!("not created {} {}", root, failure.text)
        }
        BatchStep::EndLockers { task } => format!("end lockers {}", task),
        BatchStep::Move { task } => format!("move {}", task),
        BatchStep::TellMoved { task } => format!("moved {}", task),
        BatchStep::TellNotMoved { task, cause } => format!("not moved {} {}", task, cause),
        BatchStep::TellComplete => "complete".to_string(),
        BatchStep::Finished => "finished".to_string(),
    }
}

/// Plays a batch in which roots are of the given kinds, creating a root works or not, and
/// the folders with the given numbers cannot be moved.
fn play(batch: MoveBatch, kinds: &[PathKind], creates: bool, stuck: &[usize]) -> Vec<String> {
    let mut step = batch.start();
    let mut shown = vec![show(&step)];
    while !matches!(step, BatchStep::Finished) {
        let reply = match &step {
            BatchStep::ProbeRoot { root } => BatchReply::Kind(kinds[*root]),
            BatchStep::CreateRoot { .. } if !creates => BatchReply::Failed(failure()),
            BatchStep::Move { task } if stuck.contains(task) => {
                BatchReply::NotMoved("locked".to_string())
            }
            _ => BatchReply::Done,
        };
        step = batch.next(step, reply);
        shown.push(show(&step));
    }
    shown
}

#[test]
fn moves_every_folder_in_turn() {
    let batch = MoveBatch { roots: 2, tasks: 3, auto_kill: false };
    let shown = play(batch, &[PathKind::Directory, PathKind::Missing], true, &[1]);
    assert_eq!(
        shown,
        vec![
            "start", "probe 0", "probe 1", "create 1", "move 0", "moved 0", "move 1",
            "not moved 1 locked", "move 2", "moved 2", "complete", "finished",
        ],
    );
}

#[test]
fn ends_lockers_where_that_is_allowed() {
    let batch = MoveBatch { roots: 1, tasks: 2, auto_kill: true };
    let shown = play(batch, &[PathKind::Directory], true, &[]);
    assert_eq!(
        shown,
        vec![
            "start", "probe 0", "end lockers 0", "move 0", "moved 0", "end lockers 1", "move 1",
            "moved 1", "complete", "finished",
        ],
    );
}

#[test]
fn root_that_is_no_directory_ends_the_batch() {
    let batch = MoveBatch { roots: 2, tasks: 2, auto_kill: true };
    let shown = play(batch, &[PathKind::Directory, PathKind::Other], true, &[]);
    assert_eq!(
        shown,
        vec!["start", "probe 0", "probe 1", "no directory 1", "complete", "finished"],
    );
}

#[test]
fn root_that_cannot_be_created_ends_the_batch() {
    let batch = MoveBatch { roots: 2, tasks: 2, auto_kill: false };
    let shown = play(batch, &[PathKind::Missing, PathKind::Directory], false, &[]);
    assert_eq!(
        shown,
        vec![
            "start", "probe 0", "create 0", "not created 0 path not found", "complete", "finished",
        ],
    );
}

#[test]
fn empty_batch_is_told_of_too() {
    let batch = MoveBatch { roots: 0, tasks: 0, auto_kill: true };
    assert_eq!(play(batch, &[], true, &[]), vec!["start", "complete", "finished"]);
}

#[test]
fn tells_what_is_wrong_with_a_root() {
    assert_eq!(
        root_not_directory_message("\"D:\\\\x\""),
        "目标根目录不是文件夹：\"D:\\\\x\"\n建议：选择一个新的目标根目录（例如 D:\\WindowsClear\\AppData），或删除/更名该路径后重试",
    );
    assert_eq!(
        root_not_created_message("\"D:\\\\x\"", &failure()),
        "无法创建目标根目录：\"D:\\\\x\"\n系统错误：path not found (os error 3)\n建议：确认目标盘符存在且可写；尝试手动创建该目录；检查安全软件/受控文件夹访问拦截；建议使用 D:\\WindowsClear\\AppData 作为目标根目录",
    );
    let no_code = OsFailure { kind: FailureKind::Other, code: None, text: "odd".to_string() };
    assert!(root_not_created_message("r", &no_code).contains("odd (os error 0)"));
    assert_eq!(not_moved_message("Chrome", "文件复制失败"), "Chrome 失败: 文件复制失败");
}

#[test]
fn target_roots_are_not_repeated() {
    let names = |names: &[&str]| -> Vec<String> { names.iter().map(|n| n.to_string()).collect() };
    let roots = target_roots(names(&["Local", "Roaming", "Local", "local", "Roaming"]));
    assert_eq!(roots, vec!["Local", "Roaming", "local"]);
    assert!(target_roots(Vec::new()).is_empty());
}
