use std::collections::HashMap;

use windows_clear::mover::copy::{FileJob, FileReply, FileStep, TargetFile};
use windows_clear::mover::walk::{EntryKind, Walk, WalkReply, WalkStep};

/// A flat directory of files by their lengths, and where it is copied to.
struct Disk {
    source: Vec<FileJob>,
    target: HashMap<usize, TargetFile>,
}

/// What a copy did.
#[derive(PartialEq, Debug)]
struct Done {
    order: Vec<usize>,
    copies: u32,
    reported: u64,
}

fn copy_file(disk: &mut Disk, file: usize, locked: &[usize], done: &mut Done) {
    let job = disk.source[file];
    let mut opened = 0;
    let mut step = job.start();
    loop {
        let reply = match &step {
            FileStep::Finished(result) => {
                assert!(result.is_ok());
                return;
            }
            FileStep::ProbeTarget => FileReply::Target(disk.target.get(&file).copied()),
            FileStep::Copy { .. } => {
                opened += 1;
                if locked.contains(&file) && opened == 1 {
                    FileReply::Failed(windows_clear::mover::OsFailure {
                        kind: windows_clear::mover::FailureKind::Other,
                        code: Some(32),
                        text: "locked".to_string(),
                    })
                } else {
                    done.copies += 1;
                    done.reported += job.size;
                    let copy =
                        TargetFile { is_file: true, size: job.size, modified: job.modified };
                    disk.target.insert(file, copy);
                    FileReply::Done
                }
            }
            FileStep::Report { .. } => {
                done.reported += job.size;
                FileReply::Done
            }
            FileStep::Pause { .. } => FileReply::Done,
        };
        step = job.next(step, reply);
    }
}

fn copy_tree(disk: &mut Disk, walk: Walk, locked: &[usize]) -> Done {
    let mut done = Done { order: Vec::new(), copies: 0, reported: 0 };
    let mut at = 0;
    let mut step = walk.start();
    loop {
        let reply = match &step {
            WalkStep::Finished(result) => {
                assert!(result.is_ok());
                return done;
            }
            WalkStep::NextEntry { .. } => {
                at += 1;
                if at <= disk.source.len() { WalkReply::Entry } else { WalkReply::End }
            }
            WalkStep::CheckFailed { .. } => WalkReply::Answer(false),
            WalkStep::Inspect { .. } => WalkReply::Kind(EntryKind::File),
            WalkStep::HandleFile { .. } => {
                done.order.push(at - 1);
                copy_file(disk, at - 1, locked, &mut done);
                WalkReply::Done
            }
            _ => WalkReply::Done,
        };
        step = walk.next(step, reply);
    }
}

fn disk() -> Disk {
    let file = |size| FileJob { size, modified: 1700000000, skippable: false };
    Disk { source: vec![file(10), file(0), file(300)], target: HashMap::new() }
}

#[test]
fn tree_reports_every_byte() {
    let done = copy_tree(&mut disk(), Walk { queued: false }, &[]);
    assert_eq!(done, Done { order: vec![0, 1, 2], copies: 3, reported: 310 });
    // A file that is locked at first is reported once all the same.
    let done = copy_tree(&mut disk(), Walk { queued: false }, &[2]);
    assert_eq!(done, Done { order: vec![0, 1, 2], copies: 3, reported: 310 });
}

#[test]
fn second_copy_writes_nothing() {
    let mut disk = disk();
    copy_tree(&mut disk, Walk { queued: false }, &[]);
    let done = copy_tree(&mut disk, Walk { queued: false }, &[]);
    assert_eq!(done, Done { order: vec![0, 1, 2], copies: 0, reported: 310 });
}

#[test]
fn both_modes_hand_on_the_same_files() {
    let on_the_spot = copy_tree(&mut disk(), Walk { queued: false }, &[]);
    let queued = copy_tree(&mut disk(), Walk { queued: true }, &[]);
    assert_eq!(on_the_spot.order, queued.order);
}

#[test]
fn other_files_at_the_target_are_spared() {
    let mut disk = disk();
    let other = TargetFile { is_file: true, size: 5, modified: 3 };
    disk.target.insert(99, other);
    disk.target.insert(0, other);
    let done = copy_tree(&mut disk, Walk { queued: false }, &[]);
    assert_eq!(done.order, vec![0, 1, 2]);
    assert_eq!(disk.target.get(&99), Some(&other));
    assert_eq!(disk.target.get(&0).map(|file| file.size), Some(10));
}
