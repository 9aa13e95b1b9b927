use std::path::PathBuf;

use windows_clear::scanner::{
    AppDataCategory, EntryMeta, FolderSize, ScanResult, Scanner,
};

fn folder(name: &str, parent: u64, size: u64) -> FolderSize {
    FolderSize {
        path: PathBuf::from(format!("C:\\{}\\{}", parent, name)),
        name: name.to_string(),
        category: if parent == 0 { AppDataCategory::Local } else { AppDataCategory::Roaming },
        parent,
        size,
    }
}

fn names(results: &[ScanResult]) -> Vec<&str> {
    results.iter().map(|r| r.name.as_str()).collect()
}

fn file(len: u64) -> EntryMeta {
    EntryMeta { is_file: true, len }
}

#[test]
fn directory_size_counts_files_only() {
    let entries = vec![
        file(10),
        EntryMeta { is_file: false, len: 4096 },
        file(0),
        file(32),
    ];
    assert_eq!(Scanner::get_dir_size(&entries), 42);
    assert_eq!(Scanner::get_dir_size(&Vec::new()), 0);
    assert_eq!(Scanner::get_dir_size(&vec![file(u64::MAX)]), u64::MAX);
}

#[test]
fn links_are_recognised() {
    assert!(Scanner::is_symlink_or_junction(Some(true)));
    assert!(!Scanner::is_symlink_or_junction(Some(false)));
    assert!(!Scanner::is_symlink_or_junction(None));
}

#[test]
fn only_real_directories_are_scanned() {
    assert!(Scanner::is_target(true, false));
    assert!(!Scanner::is_target(true, true));
    assert!(!Scanner::is_target(false, false));
    assert!(!Scanner::is_target(false, true));
}

#[test]
fn cache_is_used_for_unchanged_folders() {
    assert_eq!(Scanner::cached_size(Some((77, 1000)), 1000), Some(77));
    assert_eq!(Scanner::cached_size(Some((77, 1000)), 1001), None);
    assert_eq!(Scanner::cached_size(None, 1000), None);
}

#[test]
fn folder_at_a_tenth_is_not_large() {
    let results = Scanner::scan_large_folders(vec![folder("rest", 0, 90), folder("tenth", 0, 10)]);
    assert_eq!(names(&results), vec!["rest"]);
    let results = Scanner::scan_large_folders(vec![folder("rest", 0, 89), folder("more", 0, 10)]);
    assert_eq!(names(&results), vec!["rest", "more"]);
}

#[test]
fn threshold_is_not_rounded_up() {
    // A tenth of 105 is 10.5.
    let results = Scanner::scan_large_folders(vec![folder("a", 0, 94), folder("b", 0, 11)]);
    assert_eq!(names(&results), vec!["a", "b"]);
    let results = Scanner::scan_large_folders(vec![folder("a", 0, 95), folder("b", 0, 10)]);
    assert_eq!(names(&results), vec!["a"]);
}

#[test]
fn threshold_is_exact_for_huge_directories() {
    let total: u64 = 9007199254740989;
    let tenth: u64 = total / 10;
    let results = Scanner::scan_large_folders(vec![
        folder("rest", 0, total - tenth - 1),
        folder("just", 0, tenth + 1),
    ]);
    assert_eq!(names(&results), vec!["rest", "just"]);
    assert_eq!(results[0].parent_total_size, total);
}

#[test]
fn each_directory_has_its_own_total() {
    let results = Scanner::scan_large_folders(vec![
        folder("big", 0, 1000),
        folder("small", 0, 50),
        folder("tiny", 1, 3),
        folder("mite", 1, 1),
    ]);
    assert_eq!(names(&results), vec!["big", "tiny", "mite"]);
    assert_eq!(results[0].parent_total_size, 1050);
    assert_eq!(results[0].category, AppDataCategory::Local);
    assert_eq!(results[1].parent_total_size, 4);
    assert_eq!(results[1].category, AppDataCategory::Roaming);
    assert_eq!(results[1].path, PathBuf::from("C:\\1\\tiny"));
    assert_eq!(results[1].size_bytes, 3);
}

#[test]
fn empty_folders_are_no_results() {
    assert!(Scanner::scan_large_folders(Vec::new()).is_empty());
    assert!(Scanner::scan_large_folders(vec![folder("a", 0, 0), folder("b", 0, 0)]).is_empty());
}

#[test]
fn results_descend_and_ties_keep_their_order() {
    let results = Scanner::scan_large_folders(vec![
        folder("c", 0, 20),
        folder("a", 0, 30),
        folder("d", 0, 20),
        folder("b", 1, 30),
        folder("e", 0, 25),
    ]);
    assert_eq!(names(&results), vec!["a", "b", "e", "c", "d"]);
}

#[test]
fn at_most_nine_folders_are_large() {
    let ten: Vec<FolderSize> = (0..10).map(|i| folder(&format!("f{}", i), 0, 7)).collect();
    assert!(Scanner::scan_large_folders(ten).is_empty());
    let nine: Vec<FolderSize> = (0..9).map(|i| folder(&format!("f{}", i), 0, 7)).collect();
    assert_eq!(Scanner::scan_large_folders(nine).len(), 9);
}

#[test]
fn cache_keeps_the_results() {
    let results = Scanner::scan_large_folders(vec![folder("a", 0, 30), folder("b", 0, 20)]);
    let cache = Scanner::save_cache(&results, &vec![111, 222]);
    assert_eq!(cache.len(), 2);
    assert_eq!(cache[0].path, PathBuf::from("C:\\0\\a"));
    assert_eq!((cache[0].size, cache[0].modified_time), (30, 111));
    assert_eq!(cache[1].path, PathBuf::from("C:\\0\\b"));
    assert_eq!((cache[1].size, cache[1].modified_time), (20, 222));
    assert!(Scanner::save_cache(&Vec::new(), &Vec::new()).is_empty());
}

#[test]
fn unchanged_folder_keeps_its_size() {
    let results = Scanner::scan_large_folders(vec![folder("a", 0, 30)]);
    let cache = Scanner::save_cache(&results, &vec![111]);
    let kept = Some((cache[0].size, cache[0].modified_time));
    assert_eq!(Scanner::cached_size(kept, 111), Some(30));
    assert_eq!(Scanner::cached_size(kept, 112), None);
}

#[test]
fn results_stay_within_their_directory() {
    let results = Scanner::scan_large_folders(vec![
        folder("a", 0, 40),
        folder("b", 0, 35),
        folder("c", 0, 5),
        folder("d", 1, 9),
    ]);
    assert_eq!(names(&results), vec!["a", "b", "d"]);
    assert!(results.iter().all(|r| r.size_bytes <= r.parent_total_size));
    let in_first: u64 = results
        .iter()
        .filter(|r| r.category == AppDataCategory::Local)
        .map(|r| r.size_bytes)
        .sum();
    assert_eq!((in_first, results[0].parent_total_size), (75, 80));
}

#[test]
fn no_folder_is_listed_twice() {
    let results = Scanner::scan_large_folders(vec![
        folder("same", 0, 9),
        folder("same", 1, 9),
        folder("other", 0, 9),
    ]);
    let mut paths: Vec<&PathBuf> = results.iter().map(|r| &r.path).collect();
    paths.sort();
    paths.dedup();
    assert_eq!(paths.len(), 3);
}
