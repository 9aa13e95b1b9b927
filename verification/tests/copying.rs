use windows_clear::mover::copy::{
    CopyMode, FileJob, FileOutcome, FileReply, FileStep, TargetFile, COPY_PAUSE_MS, COPY_TRIES,
};
use windows_clear::mover::{FailureKind, Mover, OsFailure};

fn job(skippable: bool) -> FileJob {
    FileJob { size: 100, modified: 1700000000, skippable }
}

fn failed(code: Option<i32>) -> FileReply {
    FileReply::Failed(OsFailure { kind: FailureKind::Other, code, text: "x".to_string() })
}

/// The steps of a file whose copies fail with the given codes and then work.
fn play(job: FileJob, target: Option<TargetFile>, codes: &[Option<i32>]) -> (u32, u32, FileStep) {
    let mut step = job.start();
    let mut copies = 0;
    let mut reports = 0;
    while !matches!(step, FileStep::Finished(_)) {
        let reply = match &step {
            FileStep::ProbeTarget => FileReply::Target(target),
            FileStep::Copy { .. } => {
                copies += 1;
                match codes.get(copies as usize - 1) {
                    Some(code) => failed(*code),
                    None => FileReply::Done,
                }
            }
            FileStep::Report { .. } => {
                reports += 1;
                FileReply::Done
            }
            _ => FileReply::Done,
        };
        step = job.next(step, reply);
    }
    (copies, reports, step)
}

fn outcome(step: FileStep) -> Option<FileOutcome> {
    match step {
        FileStep::Finished(Ok(outcome)) => Some(outcome),
        _ => None,
    }
}

#[test]
fn more_than_one_worker_copies_in_parallel() {
    assert_eq!(Mover::copy_dir_all_auto(0), CopyMode::Sequential);
    assert_eq!(Mover::copy_dir_all_auto(1), CopyMode::Sequential);
    assert_eq!(Mover::copy_dir_all_auto(2), CopyMode::Parallel { workers: 2, queue: 512 });
    assert_eq!(Mover::copy_dir_all_auto(16), CopyMode::Parallel { workers: 16, queue: 4096 });
}

#[test]
fn queue_grows_with_the_workers() {
    for workers in [0, 1, 6, usize::MAX / 256, usize::MAX / 256 + 1, usize::MAX] {
        assert_eq!(Mover::queue_capacity(workers), workers.saturating_mul(256).max(256));
    }
}

#[test]
fn lock_of_a_database_may_be_left_out() {
    let path = "C:\\Users\\Me\\AppData\\Local\\Chrome\\LevelDB\\LOCK";
    assert!(Mover::is_safe_to_skip_on_lock(Some("LOCK"), path));
    assert!(Mover::is_safe_to_skip_on_lock(Some("lock"), path));
    assert!(Mover::is_safe_to_skip_on_lock(Some("Lock"), "É\\LEVELDB\\Lock"));
    assert!(!Mover::is_safe_to_skip_on_lock(Some("LOG"), path));
    assert!(!Mover::is_safe_to_skip_on_lock(None, path));
    assert!(!Mover::is_safe_to_skip_on_lock(Some("LOCK"), "C:\\data\\LOCK"));
    assert!(!Mover::is_safe_to_skip_on_lock(Some("LOCK"), "C:\\leveldb2\\LOCK"));
}

#[test]
fn lower_case_path_decides() {
    assert!(Mover::is_lock_in_leveldb(Some("LOCK"), "c:\\leveldb\\lock"));
    assert!(!Mover::is_lock_in_leveldb(Some("LOCK"), "C:\\LevelDB\\LOCK"));
    assert!(!Mover::is_lock_in_leveldb(Some("LOCKED"), "c:\\leveldb\\locked"));
    assert!(!Mover::is_lock_in_leveldb(None, "c:\\leveldb\\lock"));
}

#[test]
fn same_file_is_not_copied() {
    let there = TargetFile { is_file: true, size: 100, modified: 1700000000 };
    assert!(job(false).is_up_to_date(Some(there)));
    let (copies, reports, step) = play(job(false), Some(there), &[]);
    assert_eq!((copies, reports, outcome(step)), (0, 1, Some(FileOutcome::UpToDate)));
}

#[test]
fn changed_file_is_copied() {
    let same = TargetFile { is_file: true, size: 100, modified: 1700000000 };
    for there in [
        None,
        Some(TargetFile { is_file: false, ..same }),
        Some(TargetFile { size: 99, ..same }),
        Some(TargetFile { modified: 1700000001, ..same }),
    ] {
        assert!(!job(false).is_up_to_date(there));
        let (copies, reports, step) = play(job(false), there, &[]);
        assert_eq!((copies, reports, outcome(step)), (1, 0, Some(FileOutcome::Copied)));
    }
}

#[test]
fn locked_file_is_tried_three_times() {
    for code in [5, 32, 33] {
        let code = Some(code);
        let (copies, _, step) = play(job(false), None, &[code, code]);
        assert_eq!((copies, outcome(step)), (3, Some(FileOutcome::Copied)));
        let (copies, reports, step) = play(job(false), None, &[code, code, code, code]);
        assert_eq!((copies, reports), (COPY_TRIES, 0));
        assert!(matches!(step, FileStep::Finished(Err(_))));
    }
    assert_eq!(COPY_PAUSE_MS, 300);
}

#[test]
fn other_failures_count_at_once() {
    for code in [None, Some(2), Some(112)] {
        let (copies, _, step) = play(job(true), None, &[code]);
        assert_eq!(copies, 1);
        assert!(matches!(step, FileStep::Finished(Err(failure)) if failure.code == code));
    }
}

#[test]
fn locked_file_that_may_be_left_out_is_reported() {
    let (copies, reports, step) = play(job(true), None, &[Some(32)]);
    assert_eq!((copies, reports, outcome(step)), (1, 1, Some(FileOutcome::Skipped)));
}
