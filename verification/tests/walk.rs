use windows_clear::mover::walk::{CopyError, EntryKind, Walk, WalkReply, WalkStep};
use windows_clear::mover::{FailureKind, OsFailure};

enum Node {
    File(u32),
    Dir(Vec<Node>),
    Link,
    Other,
}

fn tree() -> Vec<Node> {
    vec![
        Node::File(1),
        Node::Dir(vec![
            Node::File(2),
            Node::Link,
            Node::Dir(vec![]),
            Node::Dir(vec![Node::File(3), Node::Other]),
        ]),
        Node::Link,
        Node::File(4),
    ]
}

fn io(text: &str) -> CopyError {
    CopyError::Io(OsFailure { kind: FailureKind::Other, code: None, text: text.to_string() })
}

/// Walks through a tree; the given number of a file fails.
fn play(walk: Walk, nodes: &Vec<Node>, bad: Option<u32>) -> (Vec<u32>, u32, WalkStep) {
    let mut open: Vec<(&Vec<Node>, usize)> = vec![(nodes, 0)];
    let mut handled = Vec::new();
    let mut created = 0;
    let mut waited = false;
    let mut step = walk.start();
    loop {
        let (dir, at) = open[open.len() - 1];
        let reply = match &step {
            WalkStep::Finished(_) => return (handled, created, step),
            WalkStep::CreateDir { depth } => {
                assert_eq!(*depth as usize + 1, open.len());
                created += 1;
                WalkReply::Done
            }
            WalkStep::NextEntry { .. } => {
                if at == dir.len() {
                    WalkReply::End
                } else {
                    let top = open.len() - 1;
                    open[top].1 += 1;
                    waited = false;
                    WalkReply::Entry
                }
            }
            WalkStep::CheckFailed { .. } => {
                assert!(walk.queued);
                WalkReply::Answer(false)
            }
            WalkStep::WaitWhilePaused { .. } => {
                waited = true;
                WalkReply::Done
            }
            WalkStep::Inspect { .. } => {
                assert!(waited);
                WalkReply::Kind(match &dir[at - 1] {
                    Node::File(_) => EntryKind::File,
                    Node::Dir(_) => EntryKind::Directory,
                    Node::Link => EntryKind::Link,
                    Node::Other => EntryKind::Other,
                })
            }
            WalkStep::HandleFile { .. } => match &dir[at - 1] {
                Node::File(id) if Some(*id) == bad => {
                    WalkReply::Failed(CopyError::File { path: format!("file {}", id) })
                }
                Node::File(id) => {
                    handled.push(*id);
                    WalkReply::Done
                }
                _ => panic!("not a file"),
            },
            WalkStep::Enter { .. } => {
                match &dir[at - 1] {
                    Node::Dir(children) => open.push((children, 0)),
                    _ => panic!("not a directory"),
                }
                WalkReply::Done
            }
            WalkStep::Leave { .. } => {
                open.pop();
                WalkReply::Done
            }
            _ => WalkReply::Done,
        };
        step = walk.next(step, reply);
    }
}

#[test]
fn every_file_is_reached_once() {
    for queued in [false, true] {
        let (handled, created, step) = play(Walk { queued }, &tree(), None);
        assert_eq!(handled, vec![1, 2, 3, 4]);
        assert_eq!(created, 4);
        assert!(matches!(step, WalkStep::Finished(Ok(()))));
    }
}

#[test]
fn empty_tree_has_one_directory() {
    let (handled, created, step) = play(Walk { queued: false }, &Vec::new(), None);
    assert_eq!((handled.len(), created), (0, 1));
    assert!(matches!(step, WalkStep::Finished(Ok(()))));
}

#[test]
fn failure_ends_the_walk() {
    let (handled, _, step) = play(Walk { queued: false }, &tree(), Some(3));
    assert_eq!(handled, vec![1, 2]);
    match step {
        WalkStep::Finished(Err(error)) => {
            assert_eq!(error.message(), "复制文件失败: file 3");
        }
        other => panic!("{:?}", other),
    }
}

#[test]
fn directory_that_cannot_be_created() {
    let walk = Walk { queued: false };
    let step = walk.next(WalkStep::CreateDir { depth: 2 }, WalkReply::Failed(io("full")));
    assert!(matches!(step, WalkStep::Finished(Err(_))));
    let walk = Walk { queued: true };
    let step = walk.next(WalkStep::CreateDir { depth: 0 }, WalkReply::Failed(io("full")));
    assert!(matches!(step, WalkStep::Finished(Err(_))));
    // Where files are queued the workers create what is missing.
    let step = walk.next(WalkStep::CreateDir { depth: 2 }, WalkReply::Failed(io("full")));
    assert!(matches!(step, WalkStep::Open { depth: 2 }));
}

#[test]
fn unreadable_directory_or_entry_ends_the_walk() {
    for queued in [false, true] {
        let walk = Walk { queued };
        let step = walk.next(WalkStep::Open { depth: 1 }, WalkReply::Failed(io("denied")));
        match step {
            WalkStep::Finished(Err(error)) => assert_eq!(error.message(), "denied"),
            other => panic!("{:?}", other),
        }
        let step = walk.next(WalkStep::Inspect { depth: 1 }, WalkReply::Failed(io("denied")));
        assert!(matches!(step, WalkStep::Finished(Err(_))));
    }
}

#[test]
fn failed_worker_stops_the_walk() {
    let walk = Walk { queued: true };
    let step = walk.next(WalkStep::CheckFailed { depth: 2 }, WalkReply::Answer(true));
    assert!(matches!(step, WalkStep::Leave { depth: 2 }));
    let step = walk.next(WalkStep::CheckFailed { depth: 0 }, WalkReply::Answer(true));
    assert!(matches!(step, WalkStep::Finished(Ok(()))));
}

#[test]
fn closed_queue_is_told_of() {
    let walk = Walk { queued: true };
    let reply = WalkReply::Failed(CopyError::QueueClosed);
    match walk.next(WalkStep::HandleFile { depth: 0 }, reply) {
        WalkStep::Finished(Err(error)) => assert_eq!(error.message(), "任务队列已关闭"),
        other => panic!("{:?}", other),
    }
}
