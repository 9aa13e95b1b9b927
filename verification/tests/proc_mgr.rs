use windows_clear::proc_mgr::{ProcError, ProcMgr, QueryReply, QueryStep, ERROR_MORE_DATA};

fn start() -> QueryStep {
    ProcMgr::check_locking_processes("d".to_string(), vec!["d\\a".to_string()])
}

fn session() -> QueryStep {
    let step = start();
    assert!(matches!(step, QueryStep::Start { .. }));
    let step = step.next(QueryReply::Code(0));
    assert!(matches!(step, QueryStep::Register { .. }));
    step
}

fn finish(step: QueryStep) -> Result<Vec<u32>, String> {
    assert!(matches!(step, QueryStep::End { .. }));
    match step.next(QueryReply::Done) {
        QueryStep::Finished(result) => result.map_err(|e| e.message()),
        other => panic!("{:?}", other),
    }
}

fn fetched(code: u32, filled: u32, pids: Vec<u32>) -> Result<Vec<u32>, String> {
    let step = session().next(QueryReply::Code(0));
    assert!(matches!(step, QueryStep::Count));
    let step = step.next(QueryReply::Needed(pids.len() as u32));
    assert!(matches!(step, QueryStep::Fetch { length } if length == pids.len() as u32));
    finish(step.next(QueryReply::Fetched { code, filled, pids }))
}

#[test]
fn lists_the_processes() {
    assert_eq!(fetched(0, 2, vec![4, 8]), Ok(vec![4, 8]));
}

#[test]
fn lists_only_what_was_filled_in() {
    assert_eq!(fetched(0, 2, vec![4, 8, 0]), Ok(vec![4, 8]));
    assert_eq!(fetched(0, 0, vec![4]), Ok(vec![]));
    assert_eq!(fetched(0, 9, vec![4]), Ok(vec![4]));
}

#[test]
fn longer_list_is_no_error() {
    assert_eq!(ERROR_MORE_DATA, 234);
    assert_eq!(fetched(234, 1, vec![4]), Ok(vec![4]));
}

#[test]
fn nobody_holds_the_file() {
    let step = session().next(QueryReply::Code(0)).next(QueryReply::Needed(0));
    assert_eq!(finish(step), Ok(vec![]));
}

#[test]
fn session_that_does_not_start_is_not_ended() {
    let step = start().next(QueryReply::Code(121));
    match step {
        QueryStep::Finished(Err(error)) => {
            assert!(matches!(error, ProcError::NoSession(121)));
            assert_eq!(error.message(), "无法启动 Restart Manager 会话: 121");
        }
        other => panic!("{:?}", other),
    }
}

#[test]
fn session_is_ended_after_every_error() {
    let step = session().next(QueryReply::Code(5));
    assert_eq!(finish(step), Err("无法注册资源: 5".to_string()));
    assert_eq!(fetched(29, 1, vec![4]), Err("获取进程列表失败: 29".to_string()));
}

#[test]
fn ends_a_process() {
    assert!(ProcMgr::kill_process(7, Ok(true), true).is_ok());
}

#[test]
fn process_that_cannot_be_ended() {
    let refused = ProcMgr::kill_process(7, Err("Access is denied.".to_string()), true);
    assert_eq!(refused.map_err(|e| e.message()), Err("Access is denied.".to_string()));
    let invalid = ProcMgr::kill_process(7, Ok(false), true);
    assert_eq!(invalid.map_err(|e| e.message()), Err("无法打开进程 7".to_string()));
    let alive = ProcMgr::kill_process(4294967295, Ok(true), false);
    assert_eq!(
        alive.map_err(|e| e.message()),
        Err("无法结束进程 4294967295: (错误码不明)".to_string()),
    );
}

#[test]
fn path_and_files_below_are_registered() {
    let below = vec!["C:\\d\\a".to_string(), "C:\\d\\e\\b".to_string()];
    let step = ProcMgr::check_locking_processes("C:\\d".to_string(), below);
    match step.next(QueryReply::Code(0)) {
        QueryStep::Register { files } => {
            assert_eq!(files, vec!["C:\\d", "C:\\d\\a", "C:\\d\\e\\b"]);
        }
        other => panic!("{:?}", other),
    }
    let step = ProcMgr::check_locking_processes("C:\\f".to_string(), Vec::new());
    match step.next(QueryReply::Code(0)) {
        QueryStep::Register { files } => assert_eq!(files, vec!["C:\\f"]),
        other => panic!("{:?}", other),
    }
}
