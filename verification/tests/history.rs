use std::path::PathBuf;

use windows_clear::history::{HistoryManager, MigrationRecord};
use windows_clear::mover::migrate::{Batch, MoveError, MoveJob, Moved};
use windows_clear::mover::Mover;

fn record(id: &str) -> MigrationRecord {
    MigrationRecord {
        id: id.to_string(),
        name: "Chrome".to_string(),
        source_path: PathBuf::from("C:\\Users\\me\\AppData\\Local\\Chrome"),
        target_path: PathBuf::from("D:\\AppData\\Local\\Chrome"),
        size_bytes: 1024,
        timestamp: 1700000000,
        batch_id: Some("batch".to_string()),
        batch_timestamp: Some(1700000001),
    }
}

fn ids(records: &[MigrationRecord]) -> Vec<&str> {
    records.iter().map(|r| r.id.as_str()).collect()
}

fn job(name: &str) -> MoveJob {
    MoveJob { name: Some(name.to_string()) }
}

fn moved() -> Moved {
    Moved { left_behind: 5, size_bytes: 4096, timestamp: 1700000007 }
}

fn batch() -> Batch {
    Batch { id: "b-1".to_string(), timestamp: 1700000002 }
}

fn assert_is_random_id(id: &str) {
    let chars: Vec<char> = id.chars().collect();
    assert_eq!(chars.len(), 36);
    for (i, c) in chars.iter().enumerate() {
        if [8, 13, 18, 23].contains(&i) {
            assert_eq!(*c, '-');
        } else {
            assert!(c.is_ascii_digit() || ('a'..='f').contains(c));
        }
    }
    assert_eq!(chars[14], '4');
    assert!(['8', '9', 'a', 'b'].contains(&chars[19]));
}

#[test]
fn unreadable_history_is_empty() {
    assert!(HistoryManager::load_records(None).is_empty());
    let stored = HistoryManager::load_records(Some(vec![record("a"), record("b")]));
    assert_eq!(ids(&stored), vec!["a", "b"]);
}

#[test]
fn records_are_added_at_the_end() {
    let records = HistoryManager::add_record(vec![record("a")], record("b"));
    assert_eq!(ids(&records), vec!["a", "b"]);
    let records = HistoryManager::add_record(Vec::new(), record("c"));
    assert_eq!(ids(&records), vec!["c"]);
}

#[test]
fn records_are_removed_by_id() {
    let all = vec![record("a"), record("b"), record("a"), record("c")];
    let rest = HistoryManager::remove_record(all, "a");
    assert_eq!(ids(&rest), vec!["b", "c"]);
    assert_eq!(rest[0].size_bytes, 1024);
    assert_eq!(rest[0].source_path, record("b").source_path);
}

#[test]
fn removing_an_unknown_id_changes_nothing() {
    let rest = HistoryManager::remove_record(vec![record("a"), record("b")], "A");
    assert_eq!(ids(&rest), vec!["a", "b"]);
    assert!(HistoryManager::remove_record(Vec::new(), "a").is_empty());
}

#[test]
fn removing_undoes_adding() {
    let records = HistoryManager::add_record(vec![record("a"), record("b")], record("c"));
    let records = HistoryManager::remove_record(records, "c");
    assert_eq!(ids(&records), vec!["a", "b"]);
}

#[test]
fn removing_twice_is_removing_once() {
    let once = HistoryManager::remove_record(vec![record("a"), record("b")], "a");
    let twice = HistoryManager::remove_record(once.clone(), "a");
    assert_eq!(ids(&once), ids(&twice));
}

#[test]
fn record_tells_of_the_move() {
    let source = PathBuf::from("C:\\s\\Chrome");
    let target = PathBuf::from("D:\\t\\Chrome");
    let r = Mover::record_with_id(
        "id".to_string(),
        job("Chrome"),
        moved(),
        source.clone(),
        target.clone(),
        batch(),
    );
    assert_eq!(r.id, "id");
    assert_eq!(r.name, "Chrome");
    assert_eq!(r.source_path, source);
    assert_eq!(r.target_path, target);
    assert_eq!(r.size_bytes, 4096);
    assert_eq!(r.timestamp, 1700000007);
    assert_eq!(r.batch_id, Some("b-1".to_string()));
    assert_eq!(r.batch_timestamp, Some(1700000002));
}

#[test]
fn moved_folder_is_recorded() {
    let source = PathBuf::from("C:\\s\\x");
    let target = PathBuf::from("D:\\t\\x");
    let (outcome, stored) = Mover::conclude(
        job("x"),
        Ok(moved()),
        source.clone(),
        target.clone(),
        batch(),
        vec![record("a"), record("b")],
    );
    let (left_behind, recorded) = outcome.unwrap();
    assert_eq!(left_behind, 5);
    assert_is_random_id(&recorded.id);
    assert_eq!(ids(&stored), vec!["a", "b", recorded.id.as_str()]);
    assert_eq!(stored[2].name, "x");
    assert_eq!(stored[2].source_path, source);
    assert_eq!(stored[2].target_path, target);
    assert_eq!(recorded.target_path, target);
    assert_eq!((stored[2].size_bytes, stored[2].timestamp), (4096, 1700000007));
    assert_eq!(stored[2].batch_id, Some("b-1".to_string()));
    assert_eq!(stored[2].batch_timestamp, Some(1700000002));
    // Forgetting the folder gives back the records as they were.
    let forgotten = HistoryManager::remove_record(stored, &recorded.id);
    assert_eq!(ids(&forgotten), vec!["a", "b"]);
}

#[test]
fn record_can_be_given_an_id() {
    let path = PathBuf::from("x");
    let (outcome, stored) = Mover::conclude_with_id(
        "id".to_string(),
        job("x"),
        Ok(moved()),
        path.clone(),
        path.clone(),
        batch(),
        Vec::new(),
    );
    assert_eq!(outcome.unwrap().1.id, "id");
    assert_eq!(ids(&stored), vec!["id"]);
}

#[test]
fn two_moves_get_ids_of_their_own() {
    let path = PathBuf::from("x");
    let mut stored = Vec::new();
    for _ in 0..2 {
        let concluded = Mover::conclude(
            job("x"),
            Ok(moved()),
            path.clone(),
            path.clone(),
            batch(),
            stored,
        );
        stored = concluded.1;
    }
    assert_eq!(stored.len(), 2);
    assert_ne!(stored[0].id, stored[1].id);
}

#[test]
fn failed_move_leaves_the_history() {
    let path = PathBuf::from("x");
    let (outcome, stored) = Mover::conclude(
        MoveJob { name: None },
        Err(MoveError::CopyFailed),
        path.clone(),
        path,
        batch(),
        vec![record("a"), record("b")],
    );
    assert!(matches!(outcome, Err(MoveError::CopyFailed)));
    assert_eq!(ids(&stored), vec!["a", "b"]);
}

#[test]
fn batch_gets_a_fresh_id() {
    let a = Batch::begin(1700000002);
    let b = Batch::begin(1700000003);
    assert_is_random_id(&a.id);
    assert_is_random_id(&b.id);
    assert_ne!(a.id, b.id);
    assert_eq!((a.timestamp, b.timestamp), (1700000002, 1700000003));
}
