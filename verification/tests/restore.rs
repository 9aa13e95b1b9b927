use windows_clear::mover::restore::{
    RestoreError, RestoreJob, RestoreReply, RestoreStep, SourceKind,
};
use windows_clear::mover::{FailureKind, Mover, OsFailure, PathKind};

fn failed() -> RestoreReply {
    RestoreReply::Failed(OsFailure {
        kind: FailureKind::Other,
        code: Some(5),
        text: "denied".to_string(),
    })
}

fn run(job: (RestoreJob, RestoreStep), replies: Vec<RestoreReply>) -> RestoreStep {
    let (job, mut step) = job;
    for reply in replies {
        step = job.next(step, reply);
    }
    step
}

fn message(step: RestoreStep) -> String {
    match step {
        RestoreStep::Finished(Err(error)) => error.message("C:\\s", "D:\\t"),
        other => panic!("{:?}", other),
    }
}

/// The replies up to the rename, with a junction in the old place.
fn ready() -> Vec<RestoreReply> {
    vec![
        RestoreReply::Answer(true),
        RestoreReply::Source(SourceKind::Link),
        RestoreReply::Done,
        RestoreReply::Answer(true),
    ]
}

fn after_ready(more: Vec<RestoreReply>) -> RestoreStep {
    let mut replies = ready();
    replies.extend(more);
    run(Mover::restore_migration(true, false), replies)
}

#[test]
fn folder_is_renamed_back() {
    assert!(matches!(after_ready(vec![]), RestoreStep::RenameBack));
    let step = after_ready(vec![RestoreReply::Done]);
    assert!(matches!(step, RestoreStep::ForgetRecord));
    let step = after_ready(vec![RestoreReply::Done, RestoreReply::Done]);
    assert!(matches!(step, RestoreStep::Finished(Ok(()))));
}

#[test]
fn folder_is_copied_back_where_it_cannot_be_renamed() {
    let done = || RestoreReply::Done;
    assert!(matches!(after_ready(vec![failed()]), RestoreStep::ProbePartial));
    let step = after_ready(vec![failed(), RestoreReply::Answer(true)]);
    assert!(matches!(step, RestoreStep::RemovePartial));
    let step = after_ready(vec![failed(), RestoreReply::Answer(true), done()]);
    assert!(matches!(step, RestoreStep::CreatePartial));
    let step = after_ready(vec![failed(), RestoreReply::Answer(false), done()]);
    assert!(matches!(step, RestoreStep::CopyToPartial));
    let step = after_ready(vec![failed(), RestoreReply::Answer(false), done(), done()]);
    assert!(matches!(step, RestoreStep::RenamePartial));
    let step = after_ready(vec![failed(), RestoreReply::Answer(false), done(), done(), done()]);
    assert!(matches!(step, RestoreStep::RemoveTarget));
    let step = after_ready(vec![
        failed(),
        RestoreReply::Answer(false),
        done(),
        done(),
        done(),
        done(),
        done(),
    ]);
    assert!(matches!(step, RestoreStep::Finished(Ok(()))));
}

#[test]
fn target_must_exist() {
    let step = run(Mover::restore_migration(true, true), vec![RestoreReply::Answer(false)]);
    assert_eq!(
        message(step),
        "移动目标文件 D:\\t 已经不存在，无法自动还原。建议直接移除失效快捷方式",
    );
}

#[test]
fn lockers_are_ended_before_the_folder_is_looked_at() {
    let step = run(Mover::restore_migration(true, true), vec![RestoreReply::Answer(true)]);
    assert!(matches!(step, RestoreStep::FindLockers));
    let step = run(
        Mover::restore_migration(true, true),
        vec![RestoreReply::Answer(true), RestoreReply::Pids(vec![4])],
    );
    assert!(matches!(&step, RestoreStep::Kill { pids } if *pids == vec![4]));
    let step = run(
        Mover::restore_migration(true, true),
        vec![RestoreReply::Answer(true), RestoreReply::Pids(vec![]), RestoreReply::Done],
    );
    assert!(matches!(step, RestoreStep::ProbeSource));
}

#[test]
fn lockers_are_left_alone_where_that_is_not_allowed() {
    let step = run(Mover::restore_migration(true, false), vec![RestoreReply::Answer(true)]);
    assert!(matches!(step, RestoreStep::ProbeSource));
}

#[test]
fn directory_in_the_old_place_is_spared() {
    let step = run(
        Mover::restore_migration(true, false),
        vec![
            RestoreReply::Answer(true),
            RestoreReply::Source(SourceKind::Plain(PathKind::Directory)),
        ],
    );
    assert_eq!(
        message(step),
        "还原位置 C:\\s 已包含非链接目录，为保护数据取消还原。请先手动清理",
    );
}

#[test]
fn nothing_in_the_old_place_needs_removing() {
    for kind in [PathKind::Missing, PathKind::Other] {
        let replies = vec![
            RestoreReply::Answer(true),
            RestoreReply::Source(SourceKind::Plain(kind)),
        ];
        let step = run(Mover::restore_migration(true, false), replies);
        assert!(matches!(step, RestoreStep::FindParent));
    }
    let replies = vec![
        RestoreReply::Answer(true),
        RestoreReply::Source(SourceKind::Plain(PathKind::Missing)),
    ];
    let step = run(Mover::restore_migration(false, false), replies);
    assert!(matches!(step, RestoreStep::RenameBack));
}

#[test]
fn link_that_stays_is_an_error() {
    let step = run(
        Mover::restore_migration(true, false),
        vec![RestoreReply::Answer(true), RestoreReply::Source(SourceKind::Link), failed()],
    );
    assert_eq!(message(step), "解除原来的连接失败: denied");
}

#[test]
fn parent_is_created() {
    let mut replies = ready();
    replies.pop();
    replies.push(RestoreReply::Answer(false));
    let step = run(Mover::restore_migration(true, false), replies);
    assert!(matches!(step, RestoreStep::CreateParent));
    let (job, _) = Mover::restore_migration(true, false);
    assert!(matches!(
        job.next(RestoreStep::CreateParent, RestoreReply::Done),
        RestoreStep::RenameBack
    ));
    assert_eq!(
        message(job.next(RestoreStep::CreateParent, failed())),
        "无法创建原路径父目录",
    );
}

#[test]
fn failed_restore_keeps_the_target() {
    let step = after_ready(vec![failed(), RestoreReply::Answer(false), failed()]);
    assert_eq!(message(step), "无法创建临时还原目录");
    let step = after_ready(vec![
        failed(),
        RestoreReply::Answer(false),
        RestoreReply::Done,
        failed(),
    ]);
    assert!(matches!(step, RestoreStep::DropPartial));
    let step = after_ready(vec![
        failed(),
        RestoreReply::Answer(false),
        RestoreReply::Done,
        failed(),
        RestoreReply::Done,
    ]);
    assert_eq!(message(step), "文件复制回原路径失败");
    let step = after_ready(vec![
        failed(),
        RestoreReply::Answer(false),
        RestoreReply::Done,
        RestoreReply::Done,
        failed(),
    ]);
    assert_eq!(message(step), "整理被还原的目录失败");
    assert!(matches!(RestoreError::CopyFailed.message("s", "t").as_str(), "文件复制回原路径失败"));
}

#[test]
fn partial_copy_takes_the_place_of_the_extension() {
    for name in ["Chrome", "a.b", "a.b.c", ".hidden", ".a.b", "a.", "数据.库", "a..b"] {
        let path = std::path::Path::new(name).with_extension("partial_restore");
        assert_eq!(RestoreJob::partial_file_name(name), path.to_string_lossy());
    }
    assert_eq!(RestoreJob::partial_file_name("Chrome"), "Chrome.partial_restore");
    assert_eq!(RestoreJob::partial_file_name("com.app.v2"), "com.app.partial_restore");
}

/// What stands at a place: nothing, the folder, a junction, or something else.
#[derive(Clone, Copy, PartialEq, Debug)]
enum Place {
    Nothing,
    Folder,
    Junction,
    Scraps,
}

/// Brings a folder back on a disk where the steps that `fails` names fail. Returns what is
/// in its old place and at the target, and whether its record is still there.
fn play(fails: &[bool], before: Place) -> (Place, Place, bool, bool) {
    let (job, mut step) = Mover::restore_migration(true, false);
    let mut source = before;
    let mut target = Place::Folder;
    let mut partial = Place::Nothing;
    let mut recorded = true;
    let mut at = 0;
    loop {
        let fail = fails.get(at).copied().unwrap_or(false);
        at += 1;
        let reply = match &step {
            RestoreStep::FindTarget | RestoreStep::FindParent => RestoreReply::Answer(true),
            RestoreStep::ProbePartial => RestoreReply::Answer(false),
            RestoreStep::ProbeSource => RestoreReply::Source(match source {
                Place::Junction => SourceKind::Link,
                Place::Nothing => SourceKind::Plain(PathKind::Missing),
                _ => SourceKind::Plain(PathKind::Directory),
            }),
            RestoreStep::CopyToPartial => {
                partial = if fail { Place::Scraps } else { target };
                if fail { failed() } else { RestoreReply::Done }
            }
            RestoreStep::RemoveLink if !fail => {
                assert_eq!(source, Place::Junction);
                source = Place::Nothing;
                RestoreReply::Done
            }
            RestoreStep::RenameBack if !fail => {
                source = target;
                target = Place::Nothing;
                RestoreReply::Done
            }
            RestoreStep::RenamePartial if !fail => {
                source = partial;
                partial = Place::Nothing;
                RestoreReply::Done
            }
            RestoreStep::RemoveTarget => {
                target = if fail { Place::Scraps } else { Place::Nothing };
                RestoreReply::Done
            }
            RestoreStep::DropPartial => RestoreReply::Done,
            RestoreStep::ForgetRecord => {
                assert_eq!(source, Place::Folder);
                recorded = false;
                RestoreReply::Done
            }
            RestoreStep::Finished(result) => return (source, target, recorded, result.is_ok()),
            _ => if fail { failed() } else { RestoreReply::Done },
        };
        step = job.next(step, reply);
    }
}

#[test]
fn moved_folder_comes_back() {
    for bits in 0..4096u32 {
        let fails: Vec<bool> = (0..12).map(|i| bits >> i & 1 == 1).collect();
        let (source, target, recorded, ok) = play(&fails, Place::Junction);
        assert!(source == Place::Folder || target == Place::Folder);
        assert_eq!(recorded, !ok);
        if ok {
            assert_eq!(source, Place::Folder);
        } else {
            assert_eq!(target, Place::Folder);
        }
    }
}

#[test]
fn folder_in_its_old_place_is_not_touched() {
    assert_eq!(play(&[], Place::Folder), (Place::Folder, Place::Folder, true, false));
}
