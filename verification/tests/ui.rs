use std::path::PathBuf;

use windows_clear::i18n::{I18n, Language};
use windows_clear::scanner::{AppDataCategory, ScanResult};
use windows_clear::ui::{App, AppEvent, MoveButton, ProcessingType};

fn result(name: &str, size_bytes: u64) -> ScanResult {
    ScanResult {
        path: PathBuf::from(name),
        name: name.to_string(),
        size_bytes,
        category: AppDataCategory::Local,
        parent_total_size: 10000,
    }
}

fn english() -> (App, I18n) {
    let mut i18n = I18n::new();
    let mut app = App::new(&i18n);
    app.set_language(Language::English, &mut i18n);
    (app, i18n)
}

fn scanned() -> (App, I18n) {
    let (mut app, i18n) = english();
    app.start_scan(&i18n);
    let results = vec![result("a", 4000), result("b", 3000), result("c", 2000)];
    app.handle(AppEvent::ScanComplete(results), &i18n, "");
    (app, i18n)
}

fn moving() -> (App, I18n) {
    let (mut app, i18n) = scanned();
    app.set_selected(1, true);
    assert!(app.press_move(&i18n).is_some());
    (app, i18n)
}

#[test]
fn window_opens_idle() {
    let i18n = I18n::new();
    let app = App::new(&i18n);
    assert_eq!(app.status_msg, "准备就绪");
    assert_eq!(app.processing_type, ProcessingType::Idle);
    assert!(app.parallel_copy && !app.auto_kill);
    assert_eq!(app.parallelism, 6);
    assert_eq!(app.lang, Language::Chinese);
    assert!(app.can_scan() && app.can_press_move());
    assert_eq!(app.move_button(), MoveButton::Start);
    assert_eq!(app.scan_count_label(), "0/0");
    assert_eq!(app.move_bytes_label(), "0 B/0 B");
}

#[test]
fn scan_shows_its_progress() {
    let (mut app, i18n) = english();
    app.start_scan(&i18n);
    assert_eq!(app.status_msg, "Initializing scan...");
    assert!(app.is_scanning && app.is_processing);
    assert!(!app.can_scan() && !app.can_press_move());
    app.handle(AppEvent::ScanProgress(3, 12, "Chrome".to_string()), &i18n, "");
    assert_eq!(app.status_msg, "Scanning: Chrome (3/12)");
    assert_eq!(app.scan_count_label(), "3/12");
    assert_eq!(app.scan_item_label(), "Analyzing: Chrome");
}

#[test]
fn scan_shows_its_progress_in_chinese() {
    let i18n = I18n::new();
    let mut app = App::new(&i18n);
    app.start_scan(&i18n);
    assert_eq!(app.status_msg, "正在初始化扫描...");
    app.handle(AppEvent::ScanProgress(1, 2, "微信".to_string()), &i18n, "");
    assert_eq!(app.status_msg, "正在扫描: 微信 (1/2)");
    assert_eq!(app.scan_item_label(), "正在分析: 微信");
    app.handle(AppEvent::ScanComplete(vec![result("a", 1)]), &i18n, "");
    assert_eq!(app.status_msg, "扫描完成，共找到 1 个大文件夹");
}

#[test]
fn scan_ends() {
    let (app, _) = scanned();
    assert_eq!(app.status_msg, "Scan complete, found 3 large folders");
    assert_eq!(app.processing_type, ProcessingType::Idle);
    assert!(!app.is_scanning && !app.is_processing);
    assert_eq!(app.scan_results.len(), 3);
    assert_eq!(app.result_label(0), "a (3.91 KB)");
}

#[test]
fn scan_fails() {
    let (mut app, i18n) = english();
    app.start_scan(&i18n);
    app.handle(AppEvent::ScanError("no APPDATA".to_string()), &i18n, "");
    assert_eq!(app.status_msg, "Scan error: : no APPDATA");
    assert!(!app.is_scanning && !app.is_processing);
}

#[test]
fn move_needs_a_selection() {
    let (mut app, i18n) = scanned();
    assert!(app.press_move(&i18n).is_none());
    assert_eq!(app.status_msg, "Please select folders to move first");
    assert!(!app.is_processing);
    // A number that no result has does not count.
    app.set_selected(9, true);
    assert!(app.press_move(&i18n).is_none());
}

#[test]
fn selected_folders_are_moved() {
    let (mut app, i18n) = scanned();
    app.set_selected(2, true);
    app.set_selected(0, true);
    app.set_selected(1, true);
    app.set_selected(1, false);
    app.auto_kill = true;
    let plan = app.press_move(&i18n).unwrap();
    assert_eq!(plan.tasks, vec![0, 2]);
    assert_eq!(plan.total_bytes, 6000);
    assert_eq!(plan.parallelism, 6);
    assert!(plan.auto_kill);
    assert_eq!(app.processing_type, ProcessingType::Moving);
    assert!(app.is_processing && !app.is_paused);
}

#[test]
fn one_worker_without_parallel_copies() {
    let (mut app, i18n) = scanned();
    app.set_selected(0, true);
    app.parallel_copy = false;
    assert_eq!(app.press_move(&i18n).unwrap().parallelism, 1);
    let (mut app, i18n) = scanned();
    app.set_selected(0, true);
    app.parallelism = 0;
    assert_eq!(app.press_move(&i18n).unwrap().parallelism, 1);
}

#[test]
fn move_is_paused_and_resumed() {
    let (mut app, i18n) = moving();
    assert_eq!(app.move_button(), MoveButton::Pause);
    assert!(app.can_press_move() && !app.can_scan());
    assert!(app.press_move(&i18n).is_none());
    assert!(app.is_paused);
    assert_eq!(app.move_button(), MoveButton::Resume);
    assert!(app.can_scan());
    assert!(app.press_move(&i18n).is_none());
    assert!(!app.is_paused);
}

#[test]
fn only_a_move_is_paused() {
    let (mut app, i18n) = english();
    app.toggle_pause();
    assert!(!app.is_paused);
    app.start_scan(&i18n);
    app.toggle_pause();
    assert!(!app.is_paused);
}

#[test]
fn scan_during_a_paused_move_keeps_the_move() {
    let (mut app, i18n) = moving();
    app.press_move(&i18n);
    app.start_scan(&i18n);
    assert_eq!(app.processing_type, ProcessingType::Moving);
    assert_eq!(app.scan_results.len(), 3);
    assert!(app.selected_items.contains(&1));
    app.handle(AppEvent::ScanComplete(vec![result("d", 9)]), &i18n, "");
    assert!(app.is_processing && !app.is_scanning);
    assert_eq!(app.processing_type, ProcessingType::Moving);
    assert_eq!(app.scan_results.len(), 1);
}

#[test]
fn move_shows_its_progress() {
    let (mut app, i18n) = moving();
    app.handle(AppEvent::MoveStart(3000), &i18n, "");
    assert_eq!(app.status_msg, "Preparing to move... Total size: 2.93 KB");
    app.handle(AppEvent::MoveProgressBytes(1000), &i18n, "");
    app.handle(AppEvent::MoveProgressBytes(500), &i18n, "");
    assert_eq!(app.move_current_bytes, 1500);
    assert_eq!(app.remaining_bytes(), 1500);
    assert_eq!(app.move_bytes_label(), "1.46 KB/2.93 KB");
    app.handle(AppEvent::MoveProgressBytes(5000), &i18n, "");
    assert_eq!(app.remaining_bytes(), 0);
    assert_eq!(app.speed_label(2048), "Speed: 2.00 KB/s");
    assert_eq!(app.time_left_label(61), "ETA: 1m 1s");
    app.lang = Language::Chinese;
    assert_eq!(app.speed_label(2048), "速度: 2.00 KB/s");
    assert_eq!(app.time_left_label(61), "剩余: 1m 1s");
}

#[test]
fn move_ends_well() {
    let (mut app, i18n) = moving();
    app.handle(AppEvent::MoveStart(3000), &i18n, "");
    app.handle(AppEvent::MoveTaskComplete(1), &i18n, "");
    app.handle(AppEvent::MoveComplete, &i18n, "C:\\log.txt");
    assert_eq!(app.status_msg, "All tasks completed");
    assert!(app.completed_tasks.contains(&1));
    assert!(!app.completed_tasks.contains(&0));
    assert_eq!(app.move_current_bytes, 3000);
    assert_eq!(app.processing_type, ProcessingType::Idle);
    assert!(!app.is_processing && !app.is_paused);
}

#[test]
fn move_ends_with_errors() {
    let (mut app, i18n) = moving();
    app.handle(AppEvent::MoveStart(3000), &i18n, "");
    app.handle(AppEvent::MoveError("b 失败: 文件复制失败".to_string()), &i18n, "");
    assert_eq!(app.status_msg, "Error: : b 失败: 文件复制失败");
    assert_eq!(app.last_error, "b 失败: 文件复制失败");
    app.handle(AppEvent::MoveError("again".to_string()), &i18n, "");
    assert_eq!(app.move_error_count, 2);
    app.handle(AppEvent::MoveComplete, &i18n, "C:\\log.txt");
    assert_eq!(app.status_msg, "Finished with 2 error(s). Log: C:\\log.txt");
    app.lang = Language::Chinese;
    app.handle(AppEvent::MoveComplete, &i18n, "C:\\log.txt");
    assert_eq!(app.status_msg, "迁移完成，但有 2 个错误。日志: C:\\log.txt");
    // The next move starts without errors.
    app.handle(AppEvent::MoveStart(1), &i18n, "");
    assert_eq!(app.move_error_count, 0);
    assert_eq!(app.last_error, "");
    assert_eq!(app.status_msg, "准备迁移... 总大小: 1 B");
}

#[test]
fn error_count_stops_at_its_highest_value() {
    let (mut app, i18n) = moving();
    app.move_error_count = u32::MAX;
    app.handle(AppEvent::MoveError("x".to_string()), &i18n, "");
    assert_eq!(app.move_error_count, u32::MAX);
}

#[test]
fn new_scan_clears_what_was_there() {
    let (mut app, i18n) = scanned();
    app.set_selected(0, true);
    app.handle(AppEvent::MoveTaskComplete(0), &i18n, "");
    app.start_scan(&i18n);
    assert!(app.scan_results.is_empty());
    assert!(app.selected_items.is_empty());
    assert!(app.completed_tasks.is_empty());
}

#[test]
fn language_is_switched() {
    let mut i18n = I18n::new();
    let mut app = App::new(&i18n);
    app.set_language(Language::Chinese, &mut i18n);
    assert_eq!(app.status_msg, "准备就绪");
    app.set_language(Language::English, &mut i18n);
    assert_eq!(app.status_msg, "Ready");
    assert_eq!(i18n.t("暂停"), "Pause");
    app.start_scan(&i18n);
    app.set_language(Language::Chinese, &mut i18n);
    assert_eq!(app.status_msg, "Initializing scan...");
    assert_eq!(app.lang, Language::Chinese);
}

#[test]
fn move_button_speaks_both_languages() {
    let mut i18n = I18n::new();
    assert_eq!(MoveButton::Start.label(&i18n), "执行迁移");
    assert_eq!(MoveButton::Pause.label(&i18n), "暂停");
    assert_eq!(MoveButton::Resume.label(&i18n), "继续");
    i18n.set_lang(Language::English);
    assert_eq!(MoveButton::Start.label(&i18n), "Move Folders");
    assert_eq!(MoveButton::Pause.label(&i18n), "Pause");
    assert_eq!(MoveButton::Resume.label(&i18n), "Resume");
}

#[test]
fn marks_of_what_is_under_way_agree() {
    let (mut app, mut i18n) = english();
    let mut n: u32 = 7;
    for _ in 0..3000 {
        n = n.wrapping_mul(1664525).wrapping_add(1013904223);
        match n >> 28 {
            0 => app.handle(AppEvent::ScanComplete(vec![result("a", 1)]), &i18n, ""),
            1 => app.handle(AppEvent::ScanError("x".to_string()), &i18n, ""),
            2 => app.handle(AppEvent::MoveStart(9), &i18n, ""),
            3 => app.handle(AppEvent::MoveTaskComplete(0), &i18n, ""),
            4 => app.handle(AppEvent::MoveComplete, &i18n, ""),
            5 => app.handle(AppEvent::MoveError("x".to_string()), &i18n, ""),
            6 | 7 => app.start_scan(&i18n),
            8 => app.toggle_pause(),
            9 => app.set_language(Language::Chinese, &mut i18n),
            10 => app.set_language(Language::English, &mut i18n),
            11 => app.set_selected(0, true),
            _ => {
                app.press_move(&i18n);
            }
        }
        assert_eq!(app.is_processing, app.processing_type != ProcessingType::Idle);
        assert!(!app.is_paused || app.processing_type == ProcessingType::Moving);
        assert!(app.processing_type != ProcessingType::Scanning || app.is_scanning);
    }
}

#[test]
fn progress_adds_up_whatever_else_happens() {
    let (mut app, i18n) = moving();
    app.move_current_bytes = 77;
    app.is_paused = true;
    app.handle(AppEvent::MoveError("old".to_string()), &i18n, "");
    app.handle(AppEvent::MoveStart(100), &i18n, "");
    let mut sum = 0;
    for bytes in [1, 0, 20, 79] {
        app.handle(AppEvent::MoveProgressBytes(bytes), &i18n, "");
        sum += bytes;
        assert_eq!((app.move_total_bytes, app.move_current_bytes), (100, sum));
    }
    assert_eq!(app.remaining_bytes(), 0);
    assert!(!app.is_paused);
    assert_eq!((app.move_error_count, app.last_error.as_str()), (0, ""));
    app.handle(AppEvent::MoveTaskComplete(1), &i18n, "");
    app.handle(AppEvent::MoveError("x".to_string()), &i18n, "");
    app.handle(AppEvent::MoveProgressBytes(5), &i18n, "");
    assert_eq!(app.move_current_bytes, 105);
}
