use windows_clear::mover::link::LinkError;
use windows_clear::mover::migrate::{
    MoveError, MoveJob, MoveReply, MoveStep, Moved, PathTexts,
};
use windows_clear::mover::{FailureKind, Mover, OsFailure, PathKind};

fn failure(text: &str) -> OsFailure {
    OsFailure { kind: FailureKind::Other, code: Some(-5), text: text.to_string() }
}

fn failed() -> MoveReply {
    MoveReply::Failed(failure("oops"))
}

fn paths() -> PathTexts {
    PathTexts {
        source: "\"C:\\\\s\"".to_string(),
        target: "\"D:\\\\r\\\\s\"".to_string(),
        target_root: "\"D:\\\\r\"".to_string(),
    }
}

/// Feeds the replies in turn.
fn run(replies: Vec<MoveReply>) -> MoveStep {
    let (job, mut step) = Mover::move_and_link(Some("Chrome".to_string()));
    for reply in replies {
        step = job.next(step, reply);
    }
    step
}

/// The replies up to the transfer, to a target of the given kind.
fn ready(target: PathKind) -> Vec<MoveReply> {
    vec![
        MoveReply::Answer(true),
        MoveReply::Kind(PathKind::Directory),
        MoveReply::Kind(target),
        MoveReply::Answer(false),
    ]
}

fn after_ready(target: PathKind, more: Vec<MoveReply>) -> MoveStep {
    let mut replies = ready(target);
    replies.extend(more);
    run(replies)
}

fn message(step: MoveStep) -> String {
    match step {
        MoveStep::Finished(Err(error)) => error.message(&paths()),
        other => panic!("{:?}", other),
    }
}

fn moved(step: MoveStep) -> Moved {
    match step {
        MoveStep::Finished(Ok(moved)) => moved,
        other => panic!("{:?}", other),
    }
}

fn measured() -> MoveReply {
    MoveReply::Measured { size_bytes: 4096, now: 1700000000 }
}

#[test]
fn folder_is_renamed_and_linked() {
    let step = after_ready(PathKind::Missing, vec![]);
    assert!(matches!(step, MoveStep::RenameToTarget));
    let step = after_ready(PathKind::Missing, vec![MoveReply::Done]);
    assert!(matches!(step, MoveStep::JunctionAfterRename));
    let step = after_ready(PathKind::Missing, vec![MoveReply::Done, MoveReply::Done]);
    assert!(matches!(step, MoveStep::Measure { left_behind: 0 }));
    let step = after_ready(PathKind::Missing, vec![MoveReply::Done, MoveReply::Done, measured()]);
    assert_eq!(
        moved(step),
        Moved { left_behind: 0, size_bytes: 4096, timestamp: 1700000000 },
    );
}

#[test]
fn folder_is_copied_where_it_cannot_be_renamed() {
    let step = after_ready(PathKind::Missing, vec![failed()]);
    assert!(matches!(step, MoveStep::CreatePartial));
    let step = after_ready(PathKind::Missing, vec![failed(), MoveReply::Done]);
    assert!(matches!(step, MoveStep::CopyToPartial));
    let step = after_ready(PathKind::Missing, vec![failed(), MoveReply::Done, MoveReply::Done]);
    assert!(matches!(step, MoveStep::RenamePartial));
    let step = after_ready(
        PathKind::Missing,
        vec![
            failed(),
            MoveReply::Done,
            MoveReply::Done,
            MoveReply::Done,
            MoveReply::Placed(Ok(77)),
            measured(),
        ],
    );
    assert_eq!(
        moved(step),
        Moved { left_behind: 77, size_bytes: 4096, timestamp: 1700000000 },
    );
}

#[test]
fn folder_is_copied_over_an_existing_target() {
    let step = after_ready(PathKind::Directory, vec![]);
    assert!(matches!(step, MoveStep::CopyToTarget));
    let step = after_ready(PathKind::Directory, vec![MoveReply::Done]);
    assert!(matches!(step, MoveStep::PlaceJunction));
    assert_eq!(message(after_ready(PathKind::Directory, vec![failed()])), "增量复制失败");
}

#[test]
fn old_partial_copy_is_removed_first() {
    for (kind, onto) in [(PathKind::Missing, false), (PathKind::Directory, true)] {
        let mut replies = ready(kind);
        replies.pop();
        replies.push(MoveReply::Answer(true));
        let step = run(replies);
        assert!(matches!(step, MoveStep::RemovePartial { onto_target } if onto_target == onto));
        let job = MoveJob { name: Some("Chrome".to_string()) };
        let step = job.next(step, MoveReply::Done);
        assert_eq!(matches!(step, MoveStep::CopyToTarget), onto);
        assert_eq!(matches!(step, MoveStep::RenameToTarget), !onto);
    }
}

#[test]
fn folder_must_exist_and_have_a_name() {
    assert_eq!(message(run(vec![MoveReply::Answer(false)])), "源路径不存在: \"C:\\\\s\"");
    let (job, step) = Mover::move_and_link(None);
    assert_eq!(message(job.next(step, MoveReply::Answer(true))), "无效的源路径");
    let (job, step) = Mover::move_and_link(None);
    let step = job.next(step, MoveReply::Answer(false));
    assert!(matches!(step, MoveStep::Finished(Err(MoveError::SourceMissing))));
}

#[test]
fn target_root_must_be_a_directory() {
    let step = run(vec![MoveReply::Answer(true), MoveReply::Kind(PathKind::Other)]);
    assert_eq!(
        message(step),
        "目标根目录不是文件夹：\"D:\\\\r\"\n建议：\n- 请选择一个新的目标根目录（例如 D:\\WindowsClear\\AppData）\n- 或者删除/更名该路径后再重试",
    );
}

#[test]
fn target_root_is_created() {
    let step = run(vec![MoveReply::Answer(true), MoveReply::Kind(PathKind::Missing)]);
    assert!(matches!(step, MoveStep::CreateRoot));
    let step = run(vec![
        MoveReply::Answer(true),
        MoveReply::Kind(PathKind::Missing),
        MoveReply::Done,
    ]);
    assert!(matches!(step, MoveStep::ProbeTarget));
    let step = run(vec![
        MoveReply::Answer(true),
        MoveReply::Kind(PathKind::Missing),
        failed(),
    ]);
    assert_eq!(
        message(step),
        "无法创建目标根目录：\"D:\\\\r\"\n系统错误：oops (os error -5)\n建议：\n- 确认目标盘符存在且可写（例如 D: / G:）\n- 尝试手动创建该目录看是否报权限\n- 检查是否被安全软件/受控文件夹访问拦截\n- 避免把目标根目录放在受保护目录下（建议 D:\\WindowsClear\\AppData）",
    );
    let no_code = OsFailure { kind: FailureKind::Other, code: None, text: "odd".to_string() };
    assert!(MoveError::RootNotCreated(no_code).message(&paths()).contains("odd (os error 0)"));
}

#[test]
fn target_must_be_a_directory() {
    let step = run(vec![
        MoveReply::Answer(true),
        MoveReply::Kind(PathKind::Directory),
        MoveReply::Kind(PathKind::Other),
    ]);
    assert_eq!(message(step), "目标路径已存在且不是目录: \"D:\\\\r\\\\s\"");
}

#[test]
fn failed_junction_takes_the_rename_back() {
    let step = after_ready(PathKind::Missing, vec![MoveReply::Done, failed()]);
    assert!(matches!(&step, MoveStep::RenameBack { cause } if cause == "oops"));
    let step = after_ready(PathKind::Missing, vec![MoveReply::Done, failed(), MoveReply::Done]);
    assert_eq!(message(step), "创建链接失败: oops。已尝试恢复文件。");
    let step = after_ready(PathKind::Missing, vec![MoveReply::Done, failed(), failed()]);
    assert!(matches!(step, MoveStep::CopyBack { .. }));
    let step = after_ready(
        PathKind::Missing,
        vec![MoveReply::Done, failed(), failed(), MoveReply::Done],
    );
    assert!(matches!(step, MoveStep::RemoveCopied { .. }));
    let step = after_ready(
        PathKind::Missing,
        vec![MoveReply::Done, failed(), failed(), MoveReply::Done, MoveReply::Done],
    );
    assert_eq!(message(step), "创建链接失败: oops。已尝试恢复文件。");
    let step = after_ready(
        PathKind::Missing,
        vec![MoveReply::Done, failed(), failed(), failed()],
    );
    assert_eq!(message(step), "创建链接失败: oops。已尝试恢复文件。");
}

#[test]
fn failed_copy_is_cleared_away() {
    let step = after_ready(PathKind::Missing, vec![failed(), failed()]);
    assert_eq!(message(step), "无法创建临时目标目录");
    let step = after_ready(PathKind::Missing, vec![failed(), MoveReply::Done, failed()]);
    assert!(matches!(step, MoveStep::DropPartial));
    let step = after_ready(
        PathKind::Missing,
        vec![failed(), MoveReply::Done, failed(), MoveReply::Done],
    );
    assert_eq!(message(step), "文件复制失败");
    let step = after_ready(
        PathKind::Missing,
        vec![failed(), MoveReply::Done, MoveReply::Done, failed()],
    );
    assert_eq!(message(step), "整理目标目录失败");
}

#[test]
fn children_are_linked_where_the_folder_cannot_be() {
    let step = after_ready(
        PathKind::Directory,
        vec![MoveReply::Done, MoveReply::Placed(Err(LinkError::RestoreFailed))],
    );
    assert!(matches!(step, MoveStep::LinkChildren { error: LinkError::RestoreFailed }));
    let step = after_ready(
        PathKind::Directory,
        vec![
            MoveReply::Done,
            MoveReply::Placed(Err(LinkError::Relink)),
            MoveReply::Children { linked: 2, total: 5 },
        ],
    );
    assert_eq!(
        message(step),
        "根目录创建软链接失败（创建链接失败），但已对 2/5 个子目录创建软链接（见日志）",
    );
    let step = after_ready(
        PathKind::Directory,
        vec![
            MoveReply::Done,
            MoveReply::Placed(Err(LinkError::Relink)),
            MoveReply::Children { linked: 0, total: 5 },
        ],
    );
    assert_eq!(message(step), "创建链接失败");
}

#[test]
fn partial_copy_has_a_name_of_its_own() {
    let job = MoveJob { name: Some("Chrome".to_string()) };
    assert_eq!(job.partial_file_name(), "Chrome.partial");
}

/// What stands at a place: nothing, the folder, a junction, or something else.
#[derive(Clone, Copy, PartialEq, Debug)]
enum Place {
    Nothing,
    Folder,
    Junction,
    Scraps,
}

/// A disk on which the folder is moved, with a failure at each step that `fails` names.
fn play(fails: &[bool], target_there: bool) -> (Place, Place, bool) {
    let (job, mut step) = Mover::move_and_link(Some("Chrome".to_string()));
    let mut source = Place::Folder;
    let mut target = if target_there { Place::Scraps } else { Place::Nothing };
    let mut partial = Place::Nothing;
    let mut at = 0;
    loop {
        let fail = fails.get(at).copied().unwrap_or(false);
        at += 1;
        let reply = match &step {
            MoveStep::FindSource => MoveReply::Answer(true),
            MoveStep::ProbeRoot => MoveReply::Kind(PathKind::Directory),
            MoveStep::ProbeTarget => MoveReply::Kind(if target_there {
                PathKind::Directory
            } else {
                PathKind::Missing
            }),
            MoveStep::ProbePartial { .. } => MoveReply::Answer(false),
            MoveStep::CopyToTarget => {
                target = if fail { Place::Scraps } else { source };
                if fail { failed() } else { MoveReply::Done }
            }
            MoveStep::CopyToPartial => {
                partial = if fail { Place::Scraps } else { source };
                if fail { failed() } else { MoveReply::Done }
            }
            MoveStep::CopyBack { .. } => {
                source = if fail { Place::Scraps } else { target };
                if fail { failed() } else { MoveReply::Done }
            }
            MoveStep::RenameToTarget if !fail => {
                target = source;
                source = Place::Nothing;
                MoveReply::Done
            }
            MoveStep::RenamePartial if !fail => {
                target = partial;
                partial = Place::Nothing;
                MoveReply::Done
            }
            MoveStep::RenameBack { .. } if !fail => {
                source = target;
                target = Place::Nothing;
                MoveReply::Done
            }
            MoveStep::JunctionAfterRename if !fail => {
                source = Place::Junction;
                MoveReply::Done
            }
            MoveStep::RemoveCopied { .. } => {
                target = if fail { Place::Scraps } else { Place::Nothing };
                MoveReply::Done
            }
            MoveStep::DropPartial => MoveReply::Done,
            MoveStep::PlaceJunction => {
                if fail {
                    MoveReply::Placed(Err(LinkError::Junction("x".to_string())))
                } else {
                    source = Place::Junction;
                    MoveReply::Placed(Ok(0))
                }
            }
            MoveStep::LinkChildren { .. } => MoveReply::Children { linked: 0, total: 0 },
            MoveStep::Measure { .. } => measured(),
            MoveStep::Finished(result) => return (source, target, result.is_ok()),
            _ => if fail { failed() } else { MoveReply::Done },
        };
        step = job.next(step, reply);
    }
}

#[test]
fn folder_is_never_lost() {
    for bits in 0..4096u32 {
        let fails: Vec<bool> = (0..12).map(|i| bits >> i & 1 == 1).collect();
        for target_there in [false, true] {
            let (source, target, ok) = play(&fails, target_there);
            assert!(source == Place::Folder || target == Place::Folder);
            if ok {
                assert_eq!((source, target), (Place::Junction, Place::Folder));
            }
        }
    }
}

#[test]
fn rename_that_is_taken_back_restores_the_folder() {
    // The rename works, the junction fails, and renaming back works.
    let (source, target, ok) = play(&[false, false, false, false, false, true], false);
    assert_eq!((source, target, ok), (Place::Folder, Place::Nothing, false));
}

#[test]
fn failed_copy_leaves_no_trace_at_the_target() {
    // The rename fails, and then the copy.
    let (source, target, ok) = play(&[false, false, false, false, true, false, true], false);
    assert_eq!((source, target, ok), (Place::Folder, Place::Nothing, false));
}
