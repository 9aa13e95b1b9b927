use std::collections::VecDeque;

use windows_clear::mover::walk::CopyError;
use windows_clear::mover::worker::{keep_first, parallel_result, WorkerReply, WorkerStep};

fn file(path: &str) -> CopyError {
    CopyError::File { path: path.to_string() }
}

struct Shared {
    queue: VecDeque<u32>,
    failed: bool,
    slot: Option<CopyError>,
    copied: Vec<u32>,
}

/// Lets workers take turns by the given rule until all have stopped; the file `bad` fails.
fn play(workers: usize, files: u32, bad: Option<u32>, turn: fn(usize) -> usize) -> Shared {
    let mut shared = Shared {
        queue: (0..files).collect(),
        failed: false,
        slot: None,
        copied: Vec::new(),
    };
    let mut steps: Vec<(WorkerStep, u32)> =
        (0..workers).map(|_| (WorkerStep::start(), 0)).collect();
    let mut tick = 0;
    while steps.iter().any(|(step, _)| !matches!(step, WorkerStep::Finished)) {
        let at = turn(tick) % workers;
        tick += 1;
        let (step, task) = std::mem::replace(&mut steps[at], (WorkerStep::Finished, 0));
        let mut task = task;
        let reply = match &step {
            WorkerStep::Finished => continue,
            WorkerStep::Receive => match shared.queue.pop_front() {
                Some(next) => {
                    task = next;
                    WorkerReply::Task
                }
                None => WorkerReply::Closed,
            },
            WorkerStep::CheckFailed => WorkerReply::Answer(shared.failed),
            WorkerStep::CopyFile => {
                if Some(task) == bad {
                    WorkerReply::Failed(file(&format!("{}", task)))
                } else {
                    shared.copied.push(task);
                    WorkerReply::Done
                }
            }
            WorkerStep::RaiseFailure { error } => {
                shared.failed = true;
                shared.slot = keep_first(shared.slot.take(), file(&error.message()));
                WorkerReply::Done
            }
            _ => WorkerReply::Done,
        };
        steps[at] = (step.next(reply), task);
    }
    shared
}

#[test]
fn worker_copies_a_file() {
    let step = WorkerStep::start();
    assert!(matches!(step, WorkerStep::Receive));
    let step = step.next(WorkerReply::Task);
    assert!(matches!(step, WorkerStep::CheckFailed));
    let step = step.next(WorkerReply::Answer(false));
    assert!(matches!(step, WorkerStep::WaitWhilePaused));
    let step = step.next(WorkerReply::Done);
    assert!(matches!(step, WorkerStep::MakeParent));
    let step = step.next(WorkerReply::Done);
    assert!(matches!(step, WorkerStep::CopyFile));
    let step = step.next(WorkerReply::Done);
    assert!(matches!(step, WorkerStep::Receive));
    assert!(matches!(step.next(WorkerReply::Closed), WorkerStep::Finished));
}

#[test]
fn worker_stops_when_another_failed() {
    let step = WorkerStep::CheckFailed.next(WorkerReply::Answer(true));
    assert!(matches!(step, WorkerStep::Finished));
}

#[test]
fn failed_worker_raises_its_failure_and_stops() {
    let step = WorkerStep::CopyFile.next(WorkerReply::Failed(file("a")));
    match &step {
        WorkerStep::RaiseFailure { error } => assert_eq!(error.message(), "复制文件失败: a"),
        other => panic!("{:?}", other),
    }
    assert!(matches!(step.next(WorkerReply::Done), WorkerStep::Finished));
}

#[test]
fn first_error_stays() {
    let slot = keep_first(None, file("a"));
    let slot = keep_first(slot, file("b"));
    assert_eq!(slot.unwrap().message(), "复制文件失败: a");
}

#[test]
fn result_of_a_parallel_copy() {
    assert!(parallel_result(Ok(()), None).is_ok());
    let worker = parallel_result(Ok(()), Some(file("a")));
    assert_eq!(worker.unwrap_err().message(), "复制文件失败: a");
    let walker = parallel_result(Err(CopyError::QueueClosed), Some(file("a")));
    assert_eq!(walker.unwrap_err().message(), "任务队列已关闭");
    assert!(parallel_result(Err(CopyError::QueueClosed), None).is_err());
}

#[test]
fn workers_copy_every_file() {
    for turn in [|tick| tick, |tick| tick / 3, |tick| tick % 7] as [fn(usize) -> usize; 3] {
        for workers in [1, 2, 5] {
            let mut end = play(workers, 40, None, turn);
            end.copied.sort();
            assert_eq!(end.copied, (0..40).collect::<Vec<u32>>());
            assert!(parallel_result(Ok(()), end.slot).is_ok());
        }
    }
}

#[test]
fn failure_of_one_file_is_the_result() {
    for workers in [1, 2, 5] {
        let end = play(workers, 40, Some(7), |tick| tick);
        assert!(end.failed);
        assert!(!end.copied.contains(&7));
        assert!(end.copied.len() < 39);
        assert!(end.slot.is_some());
        assert!(parallel_result(Ok(()), end.slot).is_err());
    }
}
