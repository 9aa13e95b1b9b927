use windows_clear::mover::link::{
    Backup, BackupDir, LinkError, LinkJob, LinkReply, LinkStep, Round, KILL_PAUSE_MS,
    LAST_BACKUP_INDEX, RENAME_PAUSE_MS, RENAME_TRIES,
};
use windows_clear::mover::{FailureKind, Mover, OsFailure};

fn begin(has_parent: bool, auto_kill: bool) -> (LinkJob, LinkStep) {
    Mover::place_junction_with_backup(Some("Chrome".to_string()), 1700000000, has_parent, auto_kill)
}

fn failed(kind: FailureKind, code: Option<i32>, text: &str) -> LinkReply {
    LinkReply::Failed(OsFailure { kind, code, text: text.to_string() })
}

fn other(text: &str) -> LinkReply {
    failed(FailureKind::Other, Some(32), text)
}

fn denied(text: &str) -> LinkReply {
    failed(FailureKind::PermissionDenied, None, text)
}

fn crossed(text: &str) -> LinkReply {
    failed(FailureKind::CrossesDevices, Some(17), text)
}

/// Up to the first rename.
fn to_first_rename(job: &LinkJob, step: LinkStep) -> LinkStep {
    assert!(matches!(step, LinkStep::MakeBackupRoot));
    let step = job.next(step, LinkReply::Done);
    assert!(matches!(step, LinkStep::Probe { round: Round::First, index: 0 }));
    let step = job.next(step, LinkReply::Answer(false));
    let place = Backup { dir: BackupDir::Temp, index: 0 };
    assert!(matches!(step, LinkStep::CheckSource { backup } if backup == place));
    let step = job.next(step, LinkReply::Answer(false));
    assert!(matches!(
        step,
        LinkStep::Rename { round: Round::First, backup, tries: 0 } if backup == place
    ));
    step
}

/// Fails all renames of a round.
fn fail_round(job: &LinkJob, step: LinkStep, reply: fn(&str) -> LinkReply) -> LinkStep {
    let mut step = step;
    for tried in 1..=RENAME_TRIES {
        assert!(matches!(step, LinkStep::Rename { tries, .. } if tries + 1 == tried));
        step = job.next(step, reply(&format!("try {}", tried)));
        assert!(matches!(step, LinkStep::PauseAfterRename { tries, .. } if tries == tried));
        step = job.next(step, LinkReply::Done);
    }
    step
}

fn backup_failed(job: &LinkJob, step: LinkStep, pids: Vec<u32>) -> String {
    assert!(matches!(step, LinkStep::NameLockers { .. }));
    match job.next(step, LinkReply::Pids(pids)) {
        LinkStep::Finished(Err(error)) => {
            assert!(matches!(error, LinkError::BackupFailed { .. }));
            error.message()
        }
        other => panic!("{:?}", other),
    }
}

#[test]
fn folder_is_replaced() {
    let (job, step) = begin(true, false);
    let step = to_first_rename(&job, step);
    let step = job.next(step, LinkReply::Done);
    assert!(matches!(step, LinkStep::CreateJunction { .. }));
    let step = job.next(step, LinkReply::Done);
    assert!(matches!(step, LinkStep::RemoveBackup { .. }));
    let step = job.next(step, LinkReply::Done);
    assert!(matches!(step, LinkStep::Finished(Ok(0))));
}

#[test]
fn backup_that_stays_is_measured() {
    let (job, step) = begin(true, false);
    let step = to_first_rename(&job, step);
    let step = job.next(step, LinkReply::Done);
    let step = job.next(step, LinkReply::Done);
    let step = job.next(step, other("in use"));
    assert!(matches!(step, LinkStep::MeasureBackup { .. }));
    let step = job.next(step, LinkReply::Size(4711));
    assert!(matches!(step, LinkStep::Finished(Ok(4711))));
}

#[test]
fn folder_without_a_name_is_refused() {
    let (_, step) = Mover::place_junction_with_backup(None, 1, true, true);
    match step {
        LinkStep::Finished(Err(error)) => assert_eq!(error.message(), "无效的源路径"),
        other => panic!("{:?}", other),
    }
}

#[test]
fn taken_backup_names_are_passed_over() {
    let (job, step) = begin(true, false);
    let step = job.next(step, LinkReply::Done);
    let step = job.next(step, LinkReply::Answer(true));
    assert!(matches!(step, LinkStep::Probe { round: Round::First, index: 1 }));
    let step = job.next(step, LinkReply::Answer(true));
    let step = job.next(step, LinkReply::Answer(false));
    assert!(matches!(
        step,
        LinkStep::CheckSource { backup: Backup { dir: BackupDir::Temp, index: 2 } }
    ));
}

#[test]
fn first_backup_name_is_used_when_all_are_taken() {
    let (job, step) = begin(true, false);
    let mut step = job.next(step, LinkReply::Done);
    let mut asked = 0;
    while matches!(step, LinkStep::Probe { .. }) {
        step = job.next(step, LinkReply::Answer(true));
        asked += 1;
    }
    assert_eq!(asked, LAST_BACKUP_INDEX + 1);
    assert!(matches!(step, LinkStep::CheckSource { backup: Backup { index: 0, .. } }));
}

#[test]
fn link_is_made_anew() {
    let (job, step) = begin(true, true);
    let step = job.next(step, LinkReply::Done);
    let step = job.next(step, LinkReply::Answer(false));
    let step = job.next(step, LinkReply::Answer(true));
    assert!(matches!(step, LinkStep::DropOldLink));
    let step = job.next(step, LinkReply::Done);
    assert!(matches!(step, LinkStep::Relink));
    assert!(matches!(job.next(step, LinkReply::Done), LinkStep::Finished(Ok(0))));
    match job.next(LinkStep::Relink, other("mklink 失败: x")) {
        LinkStep::Finished(Err(error)) => assert_eq!(error.message(), "创建链接失败"),
        other => panic!("{:?}", other),
    }
}

#[test]
fn rename_is_tried_again() {
    let (job, step) = begin(true, false);
    let step = to_first_rename(&job, step);
    let step = job.next(step, other("busy"));
    let step = job.next(step, LinkReply::Done);
    assert!(matches!(step, LinkStep::Rename { round: Round::First, tries: 1, .. }));
    let step = job.next(step, LinkReply::Done);
    assert!(matches!(step, LinkStep::CreateJunction { .. }));
}

#[test]
fn error_tells_of_the_last_rename() {
    let (job, step) = begin(true, false);
    let step = fail_round(&job, to_first_rename(&job, step), other);
    assert_eq!(
        backup_failed(&job, step, vec![4, 8]),
        "备份源目录失败: try 3。可能被占用，相关进程 PID: [4, 8]",
    );
}

#[test]
fn denied_access_leads_to_the_parent() {
    let (job, step) = begin(true, false);
    let step = fail_round(&job, to_first_rename(&job, step), denied);
    assert!(matches!(step, LinkStep::Probe { round: Round::Denied, index: 0 }));
    let step = job.next(step, LinkReply::Answer(true));
    let step = job.next(step, LinkReply::Answer(false));
    let place = Backup { dir: BackupDir::Parent, index: 1 };
    assert!(matches!(
        step,
        LinkStep::Rename { round: Round::Denied, backup, tries: 0 } if backup == place
    ));
    let step = job.next(step, LinkReply::Done);
    assert!(matches!(step, LinkStep::CreateJunction { backup } if backup == place));
}

#[test]
fn error_number_five_is_denied_access() {
    let (job, step) = begin(true, false);
    let by_number: fn(&str) -> LinkReply = |text| failed(FailureKind::Other, Some(5), text);
    let step = fail_round(&job, to_first_rename(&job, step), by_number);
    assert!(matches!(step, LinkStep::Probe { round: Round::Denied, index: 0 }));
}

#[test]
fn denied_access_without_a_parent_is_the_end() {
    let (job, step) = begin(false, false);
    let step = fail_round(&job, to_first_rename(&job, step), denied);
    assert_eq!(
        backup_failed(&job, step, vec![]),
        "备份源目录失败: try 3。可能被占用，相关进程 PID: []",
    );
}

#[test]
fn other_device_leads_to_the_parent_at_once() {
    let (job, step) = begin(true, false);
    let step = job.next(to_first_rename(&job, step), crossed("other device"));
    assert!(matches!(step, LinkStep::Probe { round: Round::Crossed, index: 0 }));
    let step = job.next(step, LinkReply::Answer(false));
    let step = fail_round(&job, step, crossed);
    assert_eq!(
        backup_failed(&job, step, vec![9]),
        "备份源目录失败: try 3。可能被占用，相关进程 PID: [9]",
    );
}

#[test]
fn other_device_without_a_parent_is_refused() {
    let (job, step) = begin(false, false);
    let step = job.next(to_first_rename(&job, step), crossed("other device"));
    assert!(matches!(step, LinkStep::Finished(Err(LinkError::InvalidSource))));
}

#[test]
fn lockers_are_ended_where_that_is_allowed() {
    let (job, step) = begin(true, true);
    let step = fail_round(&job, to_first_rename(&job, step), other);
    assert!(matches!(step, LinkStep::FindLockers { .. }));
    let step = job.next(step, LinkReply::Pids(vec![4, 8]));
    assert!(matches!(&step, LinkStep::Kill { pids, .. } if *pids == vec![4, 8]));
    let step = job.next(step, LinkReply::Done);
    assert!(matches!(step, LinkStep::PauseAfterKill { .. }));
    let step = job.next(step, LinkReply::Done);
    assert!(matches!(
        step,
        LinkStep::Rename {
            round: Round::Killed,
            backup: Backup { dir: BackupDir::Temp, index: 0 },
            tries: 0,
        }
    ));
    let step = fail_round(&job, step, other);
    assert!(matches!(step, LinkStep::NameLockers { .. }));
}

#[test]
fn nobody_to_end_is_the_end() {
    let (job, step) = begin(true, true);
    let step = fail_round(&job, to_first_rename(&job, step), other);
    let step = job.next(step, LinkReply::Pids(vec![]));
    assert!(matches!(step, LinkStep::NameLockers { .. }));
}

#[test]
fn at_most_twelve_renames_are_made() {
    let (job, step) = begin(true, true);
    let mut step = to_first_rename(&job, step);
    let mut renames = 0;
    loop {
        let reply = match &step {
            LinkStep::Rename { round: Round::First, .. } => denied("denied"),
            LinkStep::Rename { .. } => crossed("crossed"),
            LinkStep::Probe { .. } => LinkReply::Answer(false),
            LinkStep::FindLockers { .. } | LinkStep::NameLockers { .. } => {
                LinkReply::Pids(vec![1])
            }
            LinkStep::Finished(_) => break,
            _ => LinkReply::Done,
        };
        if matches!(step, LinkStep::Rename { .. }) {
            renames += 1;
        }
        step = job.next(step, reply);
    }
    assert_eq!(renames, 12);
    assert!(matches!(step, LinkStep::Finished(Err(LinkError::BackupFailed { .. }))));
}

#[test]
fn failed_junction_brings_the_folder_back() {
    let (job, step) = begin(true, false);
    let step = job.next(to_first_rename(&job, step), LinkReply::Done);
    let step = job.next(step, other("mklink 失败: denied"));
    assert!(matches!(step, LinkStep::ClearSource { .. }));
    let step = job.next(step, LinkReply::Done);
    assert!(matches!(step, LinkStep::RestoreSource { .. }));
    match job.next(step, LinkReply::Done) {
        LinkStep::Finished(Err(error)) => {
            assert!(matches!(error, LinkError::Junction(_)));
            assert_eq!(error.message(), "mklink 失败: denied");
        }
        other => panic!("{:?}", other),
    }
}

#[test]
fn folder_that_cannot_be_brought_back_is_told_of() {
    let (job, step) = begin(true, false);
    let step = job.next(to_first_rename(&job, step), LinkReply::Done);
    let step = job.next(step, other("mklink 失败: denied"));
    let step = job.next(step, LinkReply::Done);
    match job.next(step, other("in use")) {
        LinkStep::Finished(Err(error)) => assert_eq!(error.message(), "恢复源目录失败"),
        other => panic!("{:?}", other),
    }
}

#[test]
fn backups_have_names_of_their_own() {
    let (job, _) = begin(true, false);
    assert_eq!(job.backup_file_name(0), "Chrome.windowsclear_bak_1700000000");
    assert_eq!(job.backup_file_name(1), "Chrome.windowsclear_bak_1700000000_1");
    assert_eq!(job.backup_file_name(999), "Chrome.windowsclear_bak_1700000000_999");
}

#[test]
fn junction_command_is_judged() {
    assert_eq!(Mover::create_junction(Ok((true, "ignored".to_string()))), Ok(()));
    assert_eq!(
        Mover::create_junction(Ok((false, "denied".to_string()))),
        Err("mklink 失败: denied".to_string()),
    );
    assert_eq!(
        Mover::create_junction(Err("no cmd".to_string())),
        Err("no cmd".to_string()),
    );
}

#[test]
fn pauses_are_short() {
    assert_eq!((RENAME_PAUSE_MS, KILL_PAUSE_MS), (200, 300));
}

#[test]
fn only_the_first_round_uses_the_temporary_directory() {
    assert_eq!(Round::First.dir(), BackupDir::Temp);
    for round in [Round::Denied, Round::Killed, Round::Crossed] {
        assert_eq!(round.dir(), BackupDir::Parent);
    }
}
