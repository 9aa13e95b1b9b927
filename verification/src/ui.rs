//! What the window shows, and what its buttons do.

use std::collections::HashSet;

use vstd::prelude::*;
use vstd::string::*;

use crate::i18n::{english_texts, wording, I18n, Language};
use crate::scanner::ScanResult;
use crate::text::{
    append_decimal, contains, decimal, drop_placeholders, law_contained_text_has_sides,
    law_marks_are_left_out, law_text_without_marks_stays, without_placeholders,
};
use crate::units::{bytes_text, duration_text, format_bytes, format_duration};

verus! {

broadcast use vstd::std_specs::hash::group_hash_axioms;

/// What the scan and the move tell the window.
#[derive(Debug)]
pub enum AppEvent {
    /// How many folders are done, of how many, and the name of the last one.
    ScanProgress(usize, usize, String),
    ScanComplete(Vec<ScanResult>),
    ScanError(String),
    /// How many bytes are to be moved.
    MoveStart(u64),
    /// How many bytes have been moved since the last report.
    MoveProgressBytes(u64),
    /// The number of a folder that has been moved.
    MoveTaskComplete(usize),
    MoveComplete,
    MoveError(String),
}

/// What is under way.
#[derive(Clone, Copy, PartialEq, Eq, Structural, Debug)]
pub enum ProcessingType {
    Idle,
    Scanning,
    Moving,
}

/// What the button for moving does.
#[derive(Clone, Copy, PartialEq, Eq, Structural, Debug)]
pub enum MoveButton {
    Start,
    Pause,
    Resume,
}

/// The folders to move, and how.
#[derive(Debug)]
pub struct MovePlan {
    /// The numbers of the folders among the results of the scan.
    pub tasks: Vec<usize>,
    /// The size of all of them.
    pub total_bytes: u64,
    /// How many files are copied at a time.
    pub parallelism: usize,
    /// Whether processes that hold the folders may be ended.
    pub auto_kill: bool,
}

/// The state of the window.
#[derive(Debug)]
pub struct App {
    pub scan_results: Vec<ScanResult>,
    pub selected_items: HashSet<usize>,
    pub completed_tasks: HashSet<usize>,
    pub is_scanning: bool,
    pub is_processing: bool,
    pub is_paused: bool,
    pub processing_type: ProcessingType,
    pub status_msg: String,
    pub last_error: String,
    pub move_error_count: u32,
    pub scan_current: usize,
    pub scan_total: usize,
    pub scan_current_item: String,
    pub move_total_bytes: u64,
    pub move_current_bytes: u64,
    pub auto_kill: bool,
    pub parallel_copy: bool,
    pub parallelism: usize,
    pub lang: Language,
}

/// The state of the window, with its texts and sets by their contents.
#[verifier::ext_equal]
pub struct AppView {
    pub scan_results: Seq<ScanResult>,
    pub selected_items: Set<usize>,
    pub completed_tasks: Set<usize>,
    pub is_scanning: bool,
    pub is_processing: bool,
    pub is_paused: bool,
    pub processing_type: ProcessingType,
    pub status_msg: Seq<char>,
    pub last_error: Seq<char>,
    pub move_error_count: u32,
    pub scan_current: usize,
    pub scan_total: usize,
    pub scan_current_item: Seq<char>,
    pub move_total_bytes: u64,
    pub move_current_bytes: u64,
    pub auto_kill: bool,
    pub parallel_copy: bool,
    pub parallelism: usize,
    pub lang: Language,
}

impl View for App {
    type V = AppView;

    open spec fn view(&self) -> AppView {
        AppView {
            scan_results: self.scan_results@,
            selected_items: self.selected_items@,
            completed_tasks: self.completed_tasks@,
            is_scanning: self.is_scanning,
            is_processing: self.is_processing,
            is_paused: self.is_paused,
            processing_type: self.processing_type,
            status_msg: self.status_msg@,
            last_error: self.last_error@,
            move_error_count: self.move_error_count,
            scan_current: self.scan_current,
            scan_total: self.scan_total,
            scan_current_item: self.scan_current_item@,
            move_total_bytes: self.move_total_bytes,
            move_current_bytes: self.move_current_bytes,
            auto_kill: self.auto_kill,
            parallel_copy: self.parallel_copy,
            parallelism: self.parallelism,
            lang: self.lang,
        }
    }
}

/// The state in which the window opens.
pub open spec fn opening_view(i18n_lang: Language) -> AppView {
    AppView {
        scan_results: Seq::empty(),
        selected_items: Set::empty(),
        completed_tasks: Set::empty(),
        is_scanning: false,
        is_processing: false,
        is_paused: false,
        processing_type: ProcessingType::Idle,
        status_msg: wording(i18n_lang, "准备就绪"@),
        last_error: Seq::empty(),
        move_error_count: 0,
        scan_current: 0,
        scan_total: 0,
        scan_current_item: Seq::empty(),
        move_total_bytes: 0,
        move_current_bytes: 0,
        auto_kill: false,
        parallel_copy: true,
        parallelism: 6,
        lang: Language::Chinese,
    }
}

/// One of two texts, by the language.
pub open spec fn in_language(lang: Language, english: Seq<char>, chinese: Seq<char>) -> Seq<char> {
    if lang == Language::English {
        english
    } else {
        chinese
    }
}

/// What is shown of a failure: its heading without the mark for the text, a colon, and the
/// text.
pub open spec fn failure_text(heading: Seq<char>, text: Seq<char>) -> Seq<char> {
    without_placeholders(heading) + ": "@ + text
}

/// The state when a scan is over.
pub open spec fn scan_over(v: AppView) -> AppView {
    if v.processing_type == ProcessingType::Scanning {
        AppView {
            is_scanning: false,
            is_processing: false,
            processing_type: ProcessingType::Idle,
            ..v
        }
    } else {
        AppView { is_scanning: false, ..v }
    }
}

/// A counter that stops at its highest value.
pub open spec fn one_more(count: u32) -> u32 {
    if count == u32::MAX {
        count
    } else {
        (count + 1) as u32
    }
}

/// The state after an event. `i18n_lang` is the language of the texts, `log_path` the path
/// of the log.
pub open spec fn after_event(
    v: AppView,
    event: AppEvent,
    i18n_lang: Language,
    log_path: Seq<char>,
) -> AppView {
    match event {
        AppEvent::ScanProgress(current, total, name) => AppView {
            scan_current: current,
            scan_total: total,
            scan_current_item: name@,
            status_msg: in_language(v.lang, "Scanning: "@, "正在扫描: "@) + name@ + " ("@
                + decimal(current as nat) + "/"@ + decimal(total as nat) + ")"@,
            ..v
        },
        AppEvent::ScanComplete(results) => AppView {
            scan_results: results@,
            completed_tasks: Set::empty(),
            status_msg: in_language(
                v.lang,
                "Scan complete, found "@ + decimal(results@.len()) + " large folders"@,
                "扫描完成，共找到 "@ + decimal(results@.len()) + " 个大文件夹"@,
            ),
            ..scan_over(v)
        },
        AppEvent::ScanError(text) => AppView {
            status_msg: failure_text(wording(i18n_lang, "扫描出错: {}"@), text@),
            ..scan_over(v)
        },
        AppEvent::MoveStart(total_bytes) => AppView {
            move_total_bytes: total_bytes,
            move_current_bytes: 0,
            is_paused: false,
            last_error: Seq::empty(),
            move_error_count: 0,
            status_msg: in_language(
                v.lang,
                "Preparing to move... Total size: "@,
                "准备迁移... 总大小: "@,
            ) + bytes_text(total_bytes),
            ..v
        },
        AppEvent::MoveProgressBytes(bytes) => AppView {
            move_current_bytes: (v.move_current_bytes + bytes) as u64,
            ..v
        },
        AppEvent::MoveTaskComplete(index) => AppView {
            completed_tasks: v.completed_tasks.insert(index),
            ..v
        },
        AppEvent::MoveComplete => AppView {
            is_processing: false,
            processing_type: ProcessingType::Idle,
            is_paused: false,
            status_msg: if v.move_error_count > 0 {
                in_language(
                    v.lang,
                    "Finished with "@ + decimal(v.move_error_count as nat) + " error(s). Log: "@,
                    "迁移完成，但有 "@ + decimal(v.move_error_count as nat)
                        + " 个错误。日志: "@,
                ) + log_path
            } else {
                wording(i18n_lang, "所有迁移任务完成"@)
            },
            move_current_bytes: v.move_total_bytes,
            ..v
        },
        AppEvent::MoveError(text) => AppView {
            last_error: text@,
            move_error_count: one_more(v.move_error_count),
            status_msg: failure_text(wording(i18n_lang, "错误: {}"@), text@),
            ..v
        },
    }
}

fn pick(lang: Language, english: &'static str, chinese: &'static str) -> (r: String)
    ensures
        r@ == in_language(lang, english@, chinese@),
{
    match lang {
        Language::English => english.to_owned(),
        Language::Chinese => chinese.to_owned(),
    }
}

fn failure(heading: &str, text: &str) -> (r: String)
    ensures
        r@ == failure_text(heading@, text@),
{
    let mut r = drop_placeholders(heading);
    r.append(": ");
    r.append(text);
    r
}

impl App {
    /// The window as it opens.
    pub fn new(i18n: &I18n) -> (r: App)
        ensures
            r@ == opening_view(i18n.language()),
    {
        let r = App {
            scan_results: Vec::new(),
            selected_items: HashSet::new(),
            completed_tasks: HashSet::new(),
            is_scanning: false,
            is_processing: false,
            is_paused: false,
            processing_type: ProcessingType::Idle,
            status_msg: i18n.t("准备就绪").to_owned(),
            last_error: String::new(),
            move_error_count: 0,
            scan_current: 0,
            scan_total: 0,
            scan_current_item: String::new(),
            move_total_bytes: 0,
            move_current_bytes: 0,
            auto_kill: false,
            parallel_copy: true,
            parallelism: 6,
            lang: Language::Chinese,
        };
        assert(r@ =~= opening_view(i18n.language()));
        r
    }

    fn end_scan(&mut self)
        ensures
            final(self)@ == scan_over(old(self)@),
    {
        self.is_scanning = false;
        if self.processing_type == ProcessingType::Scanning {
            self.is_processing = false;
            self.processing_type = ProcessingType::Idle;
        }
    }

    /// Takes in an event.
    pub fn handle(&mut self, event: AppEvent, i18n: &I18n, log_path: &str)
        requires
            event matches AppEvent::MoveProgressBytes(bytes) ==> old(self).move_current_bytes
                + bytes <= u64::MAX,
        ensures
            final(self)@ == after_event(old(self)@, event, i18n.language(), log_path@),
    {
        match event {
            AppEvent::ScanProgress(current, total, name) => {
                let mut status = pick(self.lang, "Scanning: ", "正在扫描: ");
                status.append(name.as_str());
                status.append(" (");
                append_decimal(&mut status, current as u64);
                status.append("/");
                append_decimal(&mut status, total as u64);
                status.append(")");
                self.scan_current = current;
                self.scan_total = total;
                self.scan_current_item = name;
                self.status_msg = status;
            },
            AppEvent::ScanComplete(results) => {
                self.end_scan();
                let mut status = pick(
                    self.lang,
                    "Scan complete, found ",
                    "扫描完成，共找到 ",
                );
                append_decimal(&mut status, results.len() as u64);
                let ending = pick(self.lang, " large folders", " 个大文件夹");
                status.append(ending.as_str());
                self.scan_results = results;
                self.completed_tasks.clear();
                self.status_msg = status;
            },
            AppEvent::ScanError(text) => {
                self.end_scan();
                self.status_msg = failure(i18n.t("扫描出错: {}"), text.as_str());
            },
            AppEvent::MoveStart(total_bytes) => {
                self.move_total_bytes = total_bytes;
                self.move_current_bytes = 0;
                self.is_paused = false;
                self.last_error = String::new();
                self.move_error_count = 0;
                let mut status = pick(
                    self.lang,
                    "Preparing to move... Total size: ",
                    "准备迁移... 总大小: ",
                );
                let size = format_bytes(total_bytes);
                status.append(size.as_str());
                self.status_msg = status;
            },
            AppEvent::MoveProgressBytes(bytes) => {
                self.move_current_bytes = self.move_current_bytes + bytes;
            },
            AppEvent::MoveTaskComplete(index) => {
                self.completed_tasks.insert(index);
            },
            AppEvent::MoveComplete => {
                self.is_processing = false;
                self.processing_type = ProcessingType::Idle;
                self.is_paused = false;
                if self.move_error_count > 0 {
                    let mut status = pick(self.lang, "Finished with ", "迁移完成，但有 ");
                    append_decimal(&mut status, self.move_error_count as u64);
                    let ending = pick(
                        self.lang,
                        " error(s). Log: ",
                        " 个错误。日志: ",
                    );
                    status.append(ending.as_str());
                    status.append(log_path);
                    self.status_msg = status;
                } else {
                    self.status_msg = i18n.t("所有迁移任务完成").to_owned();
                }
                self.move_current_bytes = self.move_total_bytes;
            },
            AppEvent::MoveError(text) => {
                self.move_error_count = self.move_error_count.saturating_add(1);
                self.status_msg = failure(i18n.t("错误: {}"), text.as_str());
                self.last_error = text;
            },
        }
        assert(self@ =~= after_event(old(self)@, event, i18n.language(), log_path@));
    }
}

/// Whether a scan can be started: none is under way, and nothing else is, or a move that is
/// paused.
pub open spec fn scan_allowed(v: AppView) -> bool {
    !v.is_scanning && (!v.is_processing || (v.processing_type == ProcessingType::Moving
        && v.is_paused))
}

/// Whether a folder is being moved.
pub open spec fn is_moving(v: AppView) -> bool {
    v.is_processing && v.processing_type == ProcessingType::Moving
}

/// Whether the button for moving can be pressed: nothing is under way but a move.
pub open spec fn move_allowed(v: AppView) -> bool {
    !v.is_processing || v.processing_type == ProcessingType::Moving
}

/// The state after a scan was started. The results of the last scan stay while a move is
/// under way.
pub open spec fn scan_started(v: AppView, i18n_lang: Language) -> AppView {
    let begun = AppView {
        is_scanning: true,
        status_msg: wording(i18n_lang, "正在初始化扫描..."@),
        scan_current: 0,
        scan_total: 0,
        ..v
    };
    if v.processing_type == ProcessingType::Moving {
        begun
    } else {
        AppView {
            is_processing: true,
            processing_type: ProcessingType::Scanning,
            scan_results: Seq::empty(),
            selected_items: Set::empty(),
            completed_tasks: Set::empty(),
            ..begun
        }
    }
}

/// The state after pausing a move, or resuming one that is paused.
pub open spec fn pause_toggled(v: AppView) -> AppView {
    if v.processing_type == ProcessingType::Moving {
        AppView { is_paused: !v.is_paused, ..v }
    } else {
        v
    }
}

/// The numbers below `n` that are selected, in ascending order.
pub open spec fn selected_below(selected: Set<usize>, n: nat) -> Seq<usize>
    decreases n,
{
    if n == 0 {
        Seq::empty()
    } else {
        let before = selected_below(selected, (n - 1) as nat);
        if selected.contains((n - 1) as usize) {
            before.push((n - 1) as usize)
        } else {
            before
        }
    }
}

/// The numbers of the results that are selected.
pub open spec fn selected_tasks(v: AppView) -> Seq<usize> {
    selected_below(v.selected_items, v.scan_results.len())
}

/// The size of the results with the given numbers.
pub open spec fn tasks_size(results: Seq<ScanResult>, tasks: Seq<usize>) -> nat
    decreases tasks.len(),
{
    if tasks.len() == 0 {
        0
    } else {
        tasks_size(results, tasks.drop_last()) + results[tasks.last() as int].size_bytes as nat
    }
}

/// How many files are copied at a time.
pub open spec fn copy_parallelism(v: AppView) -> usize {
    if v.parallel_copy && v.parallelism > 1 {
        v.parallelism
    } else {
        1
    }
}

/// The state after the button for moving was pressed.
pub open spec fn move_pressed(v: AppView, i18n_lang: Language) -> AppView {
    if is_moving(v) {
        pause_toggled(v)
    } else if selected_tasks(v).len() == 0 {
        AppView { status_msg: wording(i18n_lang, "请先勾选需要迁移的文件夹"@), ..v }
    } else {
        AppView {
            is_processing: true,
            processing_type: ProcessingType::Moving,
            is_paused: false,
            last_error: Seq::empty(),
            ..v
        }
    }
}

/// Whether pressing the button for moving begins a move.
pub open spec fn begins_move(v: AppView) -> bool {
    !is_moving(v) && selected_tasks(v).len() > 0
}

/// The state after a language was chosen.
pub open spec fn language_chosen(v: AppView, lang: Language) -> AppView {
    if lang == v.lang {
        v
    } else if v.is_processing {
        AppView { lang, ..v }
    } else {
        AppView { lang, status_msg: wording(lang, "准备就绪"@), ..v }
    }
}

/// How many bytes are still to be moved.
pub open spec fn bytes_left(v: AppView) -> int {
    if v.move_current_bytes < v.move_total_bytes {
        v.move_total_bytes - v.move_current_bytes
    } else {
        0
    }
}

/// What the button for moving does.
pub open spec fn button_for(v: AppView) -> MoveButton {
    if !is_moving(v) {
        MoveButton::Start
    } else if v.is_paused {
        MoveButton::Resume
    } else {
        MoveButton::Pause
    }
}

/// The state after a result was selected, or its selection taken back.
pub open spec fn with_selection(v: AppView, index: usize, selected: bool) -> AppView {
    AppView {
        selected_items: if selected {
            v.selected_items.insert(index)
        } else {
            v.selected_items.remove(index)
        },
        ..v
    }
}

/// The language of the texts after a language was chosen; `texts` is the one before.
pub open spec fn texts_language(v: AppView, lang: Language, texts: Language) -> Language {
    if lang == v.lang {
        texts
    } else {
        lang
    }
}

/// How many folders are scanned, of how many.
pub open spec fn scan_count_text(v: AppView) -> Seq<char> {
    decimal(v.scan_current as nat) + "/"@ + decimal(v.scan_total as nat)
}

/// Which folder was scanned last.
pub open spec fn scan_item_text(v: AppView) -> Seq<char> {
    in_language(v.lang, "Analyzing: "@, "正在分析: "@) + v.scan_current_item
}

/// How many bytes are moved, of how many.
pub open spec fn move_bytes_text(v: AppView) -> Seq<char> {
    bytes_text(v.move_current_bytes) + "/"@ + bytes_text(v.move_total_bytes)
}

/// How fast the move is, for a number of bytes per second.
pub open spec fn speed_text(v: AppView, bytes_per_second: u64) -> Seq<char> {
    in_language(v.lang, "Speed: "@, "速度: "@) + bytes_text(bytes_per_second) + "/s"@
}

/// How long the move will still take, for a number of seconds.
pub open spec fn time_left_text(v: AppView, secs: u64) -> Seq<char> {
    in_language(v.lang, "ETA: "@, "剩余: "@) + duration_text(secs)
}

/// The name and the size of a result.
pub open spec fn result_text(v: AppView, index: usize) -> Seq<char> {
    let result = v.scan_results[index as int];
    result.name@ + " ("@ + bytes_text(result.size_bytes) + ")"@
}

proof fn lemma_tasks_grow(results: Seq<ScanResult>, selected: Set<usize>, n: nat)
    requires
        n <= results.len(),
    ensures
        tasks_size(results, selected_below(selected, n)) <= tasks_size(
            results,
            selected_below(selected, results.len()),
        ),
    decreases results.len() - n,
{
    if n < results.len() {
        lemma_tasks_grow(results, selected, n + 1);
        let longer = selected_below(selected, n + 1);
        if selected.contains(n as usize) {
            assert(longer.drop_last() =~= selected_below(selected, n));
        }
    }
}

impl App {
    /// Whether a scan can be started.
    pub fn can_scan(&self) -> (r: bool)
        ensures
            r == scan_allowed(self@),
    {
        !self.is_scanning && (!self.is_processing || (self.processing_type
            == ProcessingType::Moving && self.is_paused))
    }

    /// Starts a scan.
    pub fn start_scan(&mut self, i18n: &I18n)
        ensures
            final(self)@ == scan_started(old(self)@, i18n.language()),
    {
        self.is_scanning = true;
        if self.processing_type != ProcessingType::Moving {
            self.is_processing = true;
            self.processing_type = ProcessingType::Scanning;
            self.scan_results.clear();
            self.selected_items.clear();
            self.completed_tasks.clear();
        }
        self.status_msg = i18n.t("正在初始化扫描...").to_owned();
        self.scan_current = 0;
        self.scan_total = 0;
        assert(self@ =~= scan_started(old(self)@, i18n.language()));
    }

    /// What the button for moving does.
    pub fn move_button(&self) -> (r: MoveButton)
        ensures
            r == button_for(self@),
    {
        if self.is_processing && self.processing_type == ProcessingType::Moving {
            if self.is_paused {
                MoveButton::Resume
            } else {
                MoveButton::Pause
            }
        } else {
            MoveButton::Start
        }
    }

    /// Whether the button for moving can be pressed.
    pub fn can_press_move(&self) -> (r: bool)
        ensures
            r == move_allowed(self@),
    {
        !self.is_processing || self.processing_type == ProcessingType::Moving
    }

    /// Pauses a move, or resumes one that is paused.
    pub fn toggle_pause(&mut self)
        ensures
            final(self)@ == pause_toggled(old(self)@),
    {
        if self.processing_type == ProcessingType::Moving {
            self.is_paused = !self.is_paused;
        }
    }

    /// Does what the button for moving does: pauses or resumes a move, or begins one with the
    /// folders that are selected. If a move begins, returns what is to be moved.
    pub fn press_move(&mut self, i18n: &I18n) -> (r: Option<MovePlan>)
        requires
            begins_move(old(self)@) ==> tasks_size(
                old(self).scan_results@,
                selected_tasks(old(self)@),
            ) <= u64::MAX,
        ensures
            final(self)@ == move_pressed(old(self)@, i18n.language()),
            match r {
                Some(plan) => {
                    &&& begins_move(old(self)@)
                    &&& plan.tasks@ == selected_tasks(old(self)@)
                    &&& plan.total_bytes == tasks_size(old(self).scan_results@, plan.tasks@)
                    &&& plan.parallelism == copy_parallelism(old(self)@)
                    &&& plan.auto_kill == old(self).auto_kill
                },
                None => !begins_move(old(self)@),
            },
    {
        if self.is_processing && self.processing_type == ProcessingType::Moving {
            self.toggle_pause();
            return None;
        }
        let ghost results = self.scan_results@;
        let ghost selected = self.selected_items@;
        let mut tasks: Vec<usize> = Vec::new();
        let mut total_bytes: u64 = 0;
        let mut i: usize = 0;
        while i < self.scan_results.len()
            invariant
                *self == *old(self),
                results == self.scan_results@,
                selected == self.selected_items@,
                !is_moving(self@),
                i <= results.len(),
                tasks@ == selected_below(selected, i as nat),
                total_bytes == tasks_size(results, tasks@),
                begins_move(self@) ==> tasks_size(results, selected_tasks(self@)) <= u64::MAX,
            decreases results.len() - i,
        {
            if self.selected_items.contains(&i) {
                proof {
                    let longer = selected_below(selected, (i + 1) as nat);
                    lemma_tasks_grow(results, selected, (i + 1) as nat);
                    lemma_selected_grow(selected, (i + 1) as nat, results.len());
                    assert(longer == tasks@.push(i));
                    assert(longer.drop_last() =~= tasks@);
                }
                total_bytes = total_bytes + self.scan_results[i].size_bytes;
                tasks.push(i);
            }
            i += 1;
        }
        if tasks.len() == 0 {
            self.status_msg = i18n.t("请先勾选需要迁移的文件夹").to_owned();
            return None;
        }
        let parallelism: usize = if self.parallel_copy && self.parallelism > 1 {
            self.parallelism
        } else {
            1
        };
        self.is_processing = true;
        self.processing_type = ProcessingType::Moving;
        self.is_paused = false;
        self.last_error = String::new();
        assert(self@ =~= move_pressed(old(self)@, i18n.language()));
        Some(MovePlan { tasks, total_bytes, parallelism, auto_kill: self.auto_kill })
    }

    /// Selects a result, or takes the selection back.
    pub fn set_selected(&mut self, index: usize, selected: bool)
        ensures
            final(self)@ == with_selection(old(self)@, index, selected),
    {
        if selected {
            self.selected_items.insert(index);
        } else {
            self.selected_items.remove(&index);
        }
    }

    /// Chooses the language of the window and of its texts.
    pub fn set_language(&mut self, lang: Language, i18n: &mut I18n)
        ensures
            final(self)@ == language_chosen(old(self)@, lang),
            final(i18n).language() == texts_language(old(self)@, lang, old(i18n).language()),
    {
        if lang != self.lang {
            self.lang = lang;
            i18n.set_lang(lang);
            if !self.is_processing {
                self.status_msg = i18n.t("准备就绪").to_owned();
            }
        }
    }

    /// How many bytes are still to be moved.
    pub fn remaining_bytes(&self) -> (r: u64)
        ensures
            r == bytes_left(self@),
    {
        self.move_total_bytes.saturating_sub(self.move_current_bytes)
    }
}

/// The text on the button for moving.
pub open spec fn move_button_label(button: MoveButton) -> Seq<char> {
    match button {
        MoveButton::Start => "执行迁移"@,
        MoveButton::Pause => "暂停"@,
        MoveButton::Resume => "继续"@,
    }
}

impl MoveButton {
    /// The text on the button.
    pub fn label(self, i18n: &I18n) -> (r: String)
        ensures
            r@ == wording(i18n.language(), move_button_label(self)),
    {
        let key = match self {
            MoveButton::Start => "执行迁移",
            MoveButton::Pause => "暂停",
            MoveButton::Resume => "继续",
        };
        i18n.t(key).to_owned()
    }
}

impl App {
    /// How many folders are scanned, of how many.
    pub fn scan_count_label(&self) -> (r: String)
        ensures
            r@ == scan_count_text(self@),
    {
        let mut r = String::new();
        append_decimal(&mut r, self.scan_current as u64);
        r.append("/");
        append_decimal(&mut r, self.scan_total as u64);
        assert(r@ =~= scan_count_text(self@));
        r
    }

    /// Which folder was scanned last.
    pub fn scan_item_label(&self) -> (r: String)
        ensures
            r@ == scan_item_text(self@),
    {
        let r = pick(self.lang, "Analyzing: ", "正在分析: ");
        r.concat(self.scan_current_item.as_str())
    }

    /// How many bytes are moved, of how many.
    pub fn move_bytes_label(&self) -> (r: String)
        ensures
            r@ == move_bytes_text(self@),
    {
        let total = format_bytes(self.move_total_bytes);
        let mut r = format_bytes(self.move_current_bytes);
        r.append("/");
        r.append(total.as_str());
        r
    }

    /// How fast the move is, for a number of bytes per second.
    pub fn speed_label(&self, bytes_per_second: u64) -> (r: String)
        ensures
            r@ == speed_text(self@, bytes_per_second),
    {
        let speed = format_bytes(bytes_per_second);
        let mut r = pick(self.lang, "Speed: ", "速度: ");
        r.append(speed.as_str());
        r.append("/s");
        r
    }

    /// How long the move will still take, for a number of seconds.
    pub fn time_left_label(&self, secs: u64) -> (r: String)
        ensures
            r@ == time_left_text(self@, secs),
    {
        let left = format_duration(secs);
        let r = pick(self.lang, "ETA: ", "剩余: ");
        r.concat(left.as_str())
    }

    /// The name and the size of a result.
    pub fn result_label(&self, index: usize) -> (r: String)
        requires
            index < self.scan_results@.len(),
        ensures
            r@ == result_text(self@, index),
    {
        let size = format_bytes(self.scan_results[index].size_bytes);
        let mut r = self.scan_results[index].name.clone();
        r.append(" (");
        r.append(size.as_str());
        r.append(")");
        r
    }
}

proof fn lemma_selected_grow(selected: Set<usize>, n: nat, m: nat)
    requires
        n <= m,
    ensures
        selected_below(selected, n).len() <= selected_below(selected, m).len(),
    decreases m,
{
    if n < m {
        lemma_selected_grow(selected, n, (m - 1) as nat);
    }
}

proof fn lemma_selected_below(selected: Set<usize>, n: nat)
    requires
        n <= usize::MAX,
    ensures
        forall|i: int|
            0 <= i < selected_below(selected, n).len() ==> {
                let task = #[trigger] selected_below(selected, n)[i];
                task < n && selected.contains(task)
            },
        forall|i: int, j: int|
            0 <= i < j < selected_below(selected, n).len() ==> #[trigger] selected_below(
                selected,
                n,
            )[i] < #[trigger] selected_below(selected, n)[j],
        forall|k: usize|
            k < n && selected.contains(k) ==> #[trigger] selected_below(selected, n).contains(k),
    decreases n,
{
    if n > 0 {
        let m = (n - 1) as nat;
        let shorter = selected_below(selected, m);
        let whole = selected_below(selected, n);
        lemma_selected_below(selected, m);
        assert forall|i: int| 0 <= i < whole.len() implies {
            let task = #[trigger] whole[i];
            task < n && selected.contains(task)
        } by {
            if i < shorter.len() {
                assert(whole[i] == shorter[i]);
            }
        }
        assert forall|i: int, j: int| 0 <= i < j < whole.len() implies #[trigger] whole[i]
            < #[trigger] whole[j] by {
            assert(whole[i] == shorter[i]);
            if j < shorter.len() {
                assert(whole[j] == shorter[j]);
            }
        }
        assert forall|k: usize| k < n && selected.contains(k) implies #[trigger] whole.contains(
            k,
        ) by {
            if k < m {
                assert(shorter.contains(k));
                let i = choose|i: int| 0 <= i < shorter.len() && shorter[i] == k;
                assert(whole[i] == k);
            } else {
                assert(whole[whole.len() - 1] == k);
            }
        }
    }
}

/// The folders that are moved are exactly the results that are selected, each of them once,
/// in the order in which they are listed.
pub proof fn law_selected_folders_are_moved(v: AppView)
    requires
        v.scan_results.len() <= usize::MAX,
    ensures
        forall|i: int|
            0 <= i < selected_tasks(v).len() ==> {
                let task = #[trigger] selected_tasks(v)[i];
                task < v.scan_results.len() && v.selected_items.contains(task)
            },
        forall|i: int, j: int|
            0 <= i < j < selected_tasks(v).len() ==> #[trigger] selected_tasks(v)[i]
                < #[trigger] selected_tasks(v)[j],
        forall|k: usize|
            k < v.scan_results.len() && v.selected_items.contains(k)
                ==> #[trigger] selected_tasks(v).contains(k),
{
    lemma_selected_below(v.selected_items, v.scan_results.len());
}

/// Whether the marks of what is under way agree: something is under way exactly if it has a
/// kind, only a move is paused, and while a scan is what is under way the scan runs.
pub open spec fn consistent(v: AppView) -> bool {
    &&& v.is_processing <==> v.processing_type != ProcessingType::Idle
    &&& v.is_paused ==> v.processing_type == ProcessingType::Moving
    &&& v.processing_type == ProcessingType::Scanning ==> v.is_scanning
}

/// The marks of what is under way agree when the window opens, and go on to agree whatever
/// happens and whatever is pressed.
pub proof fn law_window_stays_consistent(
    v: AppView,
    event: AppEvent,
    lang: Language,
    chosen: Language,
    log_path: Seq<char>,
)
    requires
        consistent(v),
    ensures
        consistent(opening_view(lang)),
        consistent(after_event(v, event, lang, log_path)),
        consistent(scan_started(v, lang)),
        consistent(pause_toggled(v)),
        consistent(move_pressed(v, lang)),
        consistent(language_chosen(v, chosen)),
{
}

/// A move can be paused and resumed at any time, and pausing and resuming it changes nothing
/// else.
pub proof fn law_move_can_be_paused(v: AppView, lang: Language)
    requires
        is_moving(v),
    ensures
        move_allowed(v),
        move_pressed(v, lang) == (AppView { is_paused: !v.is_paused, ..v }),
        move_pressed(move_pressed(v, lang), lang) == v,
{
}

/// No scan can be started while one runs, nor during a move that is not paused; and while a
/// scan is what is under way, no move can. (A scan that was begun during a paused move is not
/// what is under way, also when it outlives that move.)
pub proof fn law_one_thing_at_a_time(v: AppView)
    requires
        consistent(v),
    ensures
        v.is_scanning ==> !scan_allowed(v),
        is_moving(v) && !v.is_paused ==> !scan_allowed(v),
        v.processing_type == ProcessingType::Scanning ==> !move_allowed(v),
        !v.is_processing && !v.is_scanning ==> scan_allowed(v) && move_allowed(v),
{
}

/// The errors are counted from the start of a move on: each adds one, and nothing else
/// changes the count.
pub proof fn law_errors_are_counted(
    v: AppView,
    event: AppEvent,
    lang: Language,
    log_path: Seq<char>,
)
    requires
        v.move_error_count < u32::MAX,
    ensures
        after_event(v, event, lang, log_path).move_error_count == match event {
            AppEvent::MoveStart(_) => 0,
            AppEvent::MoveError(_) => v.move_error_count + 1,
            _ => v.move_error_count as int,
        },
{
}

/// The state after a row of events.
pub open spec fn after_events(
    v: AppView,
    events: Seq<AppEvent>,
    lang: Language,
    log_path: Seq<char>,
) -> AppView
    decreases events.len(),
{
    if events.len() == 0 {
        v
    } else {
        after_event(
            after_events(v, events.drop_last(), lang, log_path),
            events.last(),
            lang,
            log_path,
        )
    }
}

/// The bytes that a row of events reports as moved.
pub open spec fn progress_sum(events: Seq<AppEvent>) -> nat
    decreases events.len(),
{
    if events.len() == 0 {
        0
    } else {
        progress_sum(events.drop_last()) + match events.last() {
            AppEvent::MoveProgressBytes(bytes) => bytes as nat,
            _ => 0,
        }
    }
}

/// From the start of a move to its end, the window shows as moved exactly the sum of all bytes
/// that were reported, whatever it showed before and whatever else happens meanwhile.
pub proof fn law_progress_adds_up(
    v: AppView,
    total: u64,
    events: Seq<AppEvent>,
    lang: Language,
    log_path: Seq<char>,
)
    requires
        progress_sum(events) <= u64::MAX,
        forall|i: int|
            0 <= i < events.len() ==> !(#[trigger] events[i] is MoveStart) && !(events[i]
                is MoveComplete),
    ensures
        ({
            let start = after_event(v, AppEvent::MoveStart(total), lang, log_path);
            let now = after_events(start, events, lang, log_path);
            &&& now.move_total_bytes == total
            &&& now.move_current_bytes == progress_sum(events)
            &&& bytes_left(now) == if progress_sum(events) < total {
                total - progress_sum(events)
            } else {
                0
            }
        }),
    decreases events.len(),
{
    if events.len() > 0 {
        let shorter = events.drop_last();
        assert forall|i: int| 0 <= i < shorter.len() implies !(#[trigger] shorter[i] is MoveStart)
            && !(shorter[i] is MoveComplete) by {
            assert(shorter[i] == events[i]);
        }
        assert(!(events[events.len() - 1] is MoveStart));
        law_progress_adds_up(v, total, shorter, lang, log_path);
    }
}

/// A move that has started and only made progress since is neither paused nor has it errors,
/// and once as many bytes are moved as there are, none are left.
pub proof fn law_started_move_is_clean(
    v: AppView,
    total: u64,
    events: Seq<AppEvent>,
    lang: Language,
    log_path: Seq<char>,
)
    requires
        progress_sum(events) <= u64::MAX,
        forall|i: int| 0 <= i < events.len() ==> #[trigger] events[i] is MoveProgressBytes,
    ensures
        ({
            let start = after_event(v, AppEvent::MoveStart(total), lang, log_path);
            let now = after_events(start, events, lang, log_path);
            &&& now == (AppView { move_current_bytes: progress_sum(events) as u64, ..start })
            &&& now.move_total_bytes == total
            &&& !now.is_paused
            &&& now.move_error_count == 0
            &&& now.last_error == Seq::<char>::empty()
            &&& progress_sum(events) >= total ==> bytes_left(now) == 0
        }),
    decreases events.len(),
{
    if events.len() > 0 {
        let shorter = events.drop_last();
        assert forall|i: int| 0 <= i < shorter.len() implies #[trigger] shorter[i]
            is MoveProgressBytes by {
            assert(shorter[i] == events[i]);
        }
        assert(events[events.len() - 1] is MoveProgressBytes);
        law_started_move_is_clean(v, total, shorter, lang, log_path);
    }
}

/// When a move is complete the window shows all of it as done, and is free for the next.
pub proof fn law_complete_move_is_shown(v: AppView, lang: Language, log_path: Seq<char>)
    ensures
        ({
            let done = after_event(v, AppEvent::MoveComplete, lang, log_path);
            &&& done.move_current_bytes == done.move_total_bytes
            &&& !done.is_processing
            &&& !done.is_paused
            &&& move_allowed(done)
        }),
{
}

/// Every text on the button for moving has an English wording.
pub proof fn law_move_button_is_bilingual(button: MoveButton)
    ensures
        english_texts().contains_key(move_button_label(button)),
{
}

/// The window opens with nothing under way, nothing found, nothing selected and no error, with
/// six files copied at a time and no process ended.
pub proof fn law_window_opens_idle(lang: Language)
    ensures
        ({
            let v = opening_view(lang);
            &&& v.scan_results.len() == 0
            &&& forall|k: usize| !v.selected_items.contains(k) && !v.completed_tasks.contains(k)
            &&& !v.is_scanning && !v.is_processing && !v.is_paused
            &&& scan_allowed(v) && move_allowed(v) && !begins_move(v)
            &&& v.last_error.len() == 0 && v.move_error_count == 0
            &&& v.scan_current == 0 && v.scan_total == 0 && v.scan_current_item.len() == 0
            &&& v.move_total_bytes == 0 && v.move_current_bytes == 0 && bytes_left(v) == 0
            &&& !v.auto_kill && copy_parallelism(v) == 6
            &&& v.lang == Language::Chinese
            &&& v.status_msg == wording(lang, "准备就绪"@)
        }),
{
}

/// A text is shown in the language of the window.
pub proof fn law_text_is_in_the_language(english: Seq<char>, chinese: Seq<char>)
    ensures
        in_language(Language::English, english, chinese) == english,
        in_language(Language::Chinese, english, chinese) == chinese,
{
}

/// The report of a scan shows the numbers and the name that it brings, and changes nothing
/// else.
pub proof fn law_scan_progress_is_shown(
    v: AppView,
    current: usize,
    total: usize,
    name: String,
    lang: Language,
    log_path: Seq<char>,
)
    ensures
        ({
            let now = after_event(
                v,
                AppEvent::ScanProgress(current, total, name),
                lang,
                log_path,
            );
            &&& now.scan_current == current
            &&& now.scan_total == total
            &&& now.scan_current_item == name@
            &&& contains(now.status_msg, name@)
            &&& contains(
                now.status_msg,
                "("@ + decimal(current as nat) + "/"@ + decimal(total as nat) + ")"@,
            )
            &&& v == (AppView {
                scan_current: v.scan_current,
                scan_total: v.scan_total,
                scan_current_item: v.scan_current_item,
                status_msg: v.status_msg,
                ..now
            })
        }),
{
    reveal_strlit(" (");
    reveal_strlit("(");
    let now = after_event(v, AppEvent::ScanProgress(current, total, name), lang, log_path);
    let head = in_language(v.lang, "Scanning: "@, "正在扫描: "@);
    let count = decimal(current as nat) + "/"@ + decimal(total as nat) + ")"@;
    let none = Seq::<char>::empty();
    assert(now.status_msg =~= head + name@ + (" ("@ + count));
    law_contained_text_has_sides(now.status_msg, head, name@, " ("@ + count);
    let told = "("@ + decimal(current as nat) + "/"@ + decimal(total as nat) + ")"@;
    assert(now.status_msg =~= (head + name@ + seq![' ']) + told + none);
    law_contained_text_has_sides(now.status_msg, head + name@ + seq![' '], told, none);
}

/// Whether a scan that is over has left the window as it must: the scan does not run, it is no
/// longer what is under way, a move that is under way stays so, and nothing of the move is
/// changed.
pub open spec fn scan_is_over(v: AppView, now: AppView) -> bool {
    &&& !now.is_scanning
    &&& v.processing_type == ProcessingType::Scanning ==> !now.is_processing
        && now.processing_type == ProcessingType::Idle
    &&& v.processing_type != ProcessingType::Scanning ==> now.is_processing == v.is_processing
        && now.processing_type == v.processing_type
    &&& v == (AppView {
        is_scanning: v.is_scanning,
        is_processing: v.is_processing,
        processing_type: v.processing_type,
        scan_results: v.scan_results,
        completed_tasks: v.completed_tasks,
        status_msg: v.status_msg,
        ..now
    })
}

/// A scan that is complete shows exactly its results, none of them as moved, and their number.
pub proof fn law_scan_results_are_shown(
    v: AppView,
    results: Vec<ScanResult>,
    lang: Language,
    log_path: Seq<char>,
)
    ensures
        ({
            let now = after_event(v, AppEvent::ScanComplete(results), lang, log_path);
            &&& scan_is_over(v, now)
            &&& now.scan_results == results@
            &&& forall|k: usize| !now.completed_tasks.contains(k)
            &&& contains(now.status_msg, decimal(results@.len()))
        }),
{
    let now = after_event(v, AppEvent::ScanComplete(results), lang, log_path);
    let n = decimal(results@.len());
    if v.lang == Language::English {
        law_contained_text_has_sides(
            now.status_msg,
            "Scan complete, found "@,
            n,
            " large folders"@,
        );
    } else {
        law_contained_text_has_sides(
            now.status_msg,
            "扫描完成，共找到 "@,
            n,
            " 个大文件夹"@,
        );
    }
}

/// A scan that failed shows why, and keeps what was shown of the folders.
pub proof fn law_scan_error_is_shown(
    v: AppView,
    text: String,
    lang: Language,
    log_path: Seq<char>,
)
    ensures
        ({
            let now = after_event(v, AppEvent::ScanError(text), lang, log_path);
            &&& scan_is_over(v, now)
            &&& now.scan_results == v.scan_results
            &&& now.completed_tasks == v.completed_tasks
            &&& now.last_error == v.last_error
            &&& now.status_msg.skip(now.status_msg.len() - text@.len()) == text@
        }),
{
    let now = after_event(v, AppEvent::ScanError(text), lang, log_path);
    law_failure_keeps_text(wording(lang, "扫描出错: {}"@), text@);
}

/// What is shown of a failure ends with its text, after a colon; before it stands the heading
/// without its mark for the text.
pub proof fn law_failure_keeps_text(heading: Seq<char>, text: Seq<char>)
    ensures
        failure_text(heading, text).skip(failure_text(heading, text).len() - text.len()) == text,
        contains(failure_text(heading, text), ": "@ + text),
        (forall|i: int|
            0 <= i < heading.len() - 1 ==> !(#[trigger] heading[i] == '{' && heading[i + 1]
                == '}')) ==> failure_text(heading + seq!['{', '}'], text) == heading + ": "@
            + text && failure_text(heading, text) == heading + ": "@ + text,
{
    let shown = failure_text(heading, text);
    let none = Seq::<char>::empty();
    assert(shown.skip(shown.len() - text.len()) =~= text);
    assert(shown =~= without_placeholders(heading) + (": "@ + text) + none);
    law_contained_text_has_sides(shown, without_placeholders(heading), ": "@ + text, none);
    if forall|i: int|
        0 <= i < heading.len() - 1 ==> !(#[trigger] heading[i] == '{' && heading[i + 1] == '}') {
        law_text_without_marks_stays(heading);
        law_marks_are_left_out(heading, none);
        assert(heading + seq!['{', '}'] + none =~= heading + seq!['{', '}']);
        assert(heading + without_placeholders(none) =~= heading);
    }
}

/// A move that starts has its size and nothing of it done, no errors, and is not paused; what
/// is under way and what is shown of the folders stays.
pub proof fn law_move_start_is_shown(v: AppView, total: u64, lang: Language, log_path: Seq<char>)
    ensures
        ({
            let now = after_event(v, AppEvent::MoveStart(total), lang, log_path);
            &&& now.move_total_bytes == total
            &&& now.move_current_bytes == 0
            &&& bytes_left(now) == total
            &&& !now.is_paused
            &&& now.last_error.len() == 0
            &&& now.move_error_count == 0
            &&& now.status_msg.skip(now.status_msg.len() - bytes_text(total).len()) == bytes_text(
                total,
            )
            &&& v == (AppView {
                move_total_bytes: v.move_total_bytes,
                move_current_bytes: v.move_current_bytes,
                is_paused: v.is_paused,
                last_error: v.last_error,
                move_error_count: v.move_error_count,
                status_msg: v.status_msg,
                ..now
            })
        }),
{
    let now = after_event(v, AppEvent::MoveStart(total), lang, log_path);
    assert(now.status_msg.skip(now.status_msg.len() - bytes_text(total).len()) =~= bytes_text(
        total,
    ));
}

/// A report of progress adds its bytes, and a folder that is moved is marked as such, along
/// with those before it; neither changes anything else.
pub proof fn law_move_progress_is_shown(
    v: AppView,
    bytes: u64,
    index: usize,
    lang: Language,
    log_path: Seq<char>,
)
    ensures
        ({
            let now = after_event(v, AppEvent::MoveProgressBytes(bytes), lang, log_path);
            &&& v.move_current_bytes + bytes <= u64::MAX ==> now.move_current_bytes
                == v.move_current_bytes + bytes
            &&& v == (AppView { move_current_bytes: v.move_current_bytes, ..now })
        }),
        ({
            let now = after_event(v, AppEvent::MoveTaskComplete(index), lang, log_path);
            &&& forall|k: usize| #[trigger]
                now.completed_tasks.contains(k) <==> k == index || v.completed_tasks.contains(k)
            &&& v == (AppView { completed_tasks: v.completed_tasks, ..now })
        }),
{
}

/// The end of a move frees the window and shows all as done; if there were errors their number
/// and the log are shown, else that all is done. What is shown of the folders and of the last
/// error stays.
pub proof fn law_move_end_is_shown(v: AppView, lang: Language, log_path: Seq<char>)
    ensures
        ({
            let now = after_event(v, AppEvent::MoveComplete, lang, log_path);
            &&& !now.is_processing
            &&& now.processing_type == ProcessingType::Idle
            &&& !now.is_paused
            &&& now.move_current_bytes == v.move_total_bytes
            &&& v.move_error_count == 0 ==> now.status_msg == wording(lang, "所有迁移任务完成"@)
            &&& v.move_error_count > 0 ==> contains(
                now.status_msg,
                decimal(v.move_error_count as nat),
            ) && now.status_msg.skip(now.status_msg.len() - log_path.len()) == log_path
            &&& v == (AppView {
                is_processing: v.is_processing,
                processing_type: v.processing_type,
                is_paused: v.is_paused,
                move_current_bytes: v.move_current_bytes,
                status_msg: v.status_msg,
                ..now
            })
        }),
{
    let now = after_event(v, AppEvent::MoveComplete, lang, log_path);
    let n = decimal(v.move_error_count as nat);
    if v.move_error_count > 0 {
        let (a, b) = if v.lang == Language::English {
            ("Finished with "@, " error(s). Log: "@)
        } else {
            ("迁移完成，但有 "@, " 个错误。日志: "@)
        };
        assert(now.status_msg =~= a + n + (b + log_path));
        law_contained_text_has_sides(now.status_msg, a, n, b + log_path);
        assert(now.status_msg.skip(now.status_msg.len() - log_path.len()) =~= log_path);
    }
}

/// An error of a move is shown and kept as the last one, and counted as far as the counter
/// goes; the move goes on.
pub proof fn law_move_error_is_shown(
    v: AppView,
    text: String,
    lang: Language,
    log_path: Seq<char>,
)
    ensures
        ({
            let now = after_event(v, AppEvent::MoveError(text), lang, log_path);
            &&& now.last_error == text@
            &&& now.move_error_count == v.move_error_count + 1 || (v.move_error_count == u32::MAX
                && now.move_error_count == u32::MAX)
            &&& now.status_msg.skip(now.status_msg.len() - text@.len()) == text@
            &&& v == (AppView {
                last_error: v.last_error,
                move_error_count: v.move_error_count,
                status_msg: v.status_msg,
                ..now
            })
        }),
{
    law_failure_keeps_text(wording(lang, "错误: {}"@), text@);
}

/// A scan that is started runs, from nothing. It is what is under way, and what was shown of
/// the folders goes, unless a move is under way, of which nothing changes.
pub proof fn law_scan_starts_afresh(v: AppView, lang: Language)
    ensures
        ({
            let now = scan_started(v, lang);
            &&& now.is_scanning
            &&& !scan_allowed(now)
            &&& now.scan_current == 0 && now.scan_total == 0
            &&& now.status_msg == wording(lang, "正在初始化扫描..."@)
            &&& v.processing_type != ProcessingType::Moving ==> {
                &&& now.is_processing && now.processing_type == ProcessingType::Scanning
                &&& now.scan_results.len() == 0
                &&& forall|k: usize|
                    !now.selected_items.contains(k) && !now.completed_tasks.contains(k)
            }
            &&& v.processing_type == ProcessingType::Moving ==> {
                &&& now.is_processing == v.is_processing
                &&& now.processing_type == ProcessingType::Moving
                &&& now.scan_results == v.scan_results
                &&& now.selected_items == v.selected_items
                &&& now.completed_tasks == v.completed_tasks
            }
            &&& v == (AppView {
                is_scanning: v.is_scanning,
                is_processing: v.is_processing,
                processing_type: v.processing_type,
                scan_results: v.scan_results,
                selected_items: v.selected_items,
                completed_tasks: v.completed_tasks,
                scan_current: v.scan_current,
                scan_total: v.scan_total,
                status_msg: v.status_msg,
                ..now
            })
        }),
{
}

/// A scan can be started exactly if none runs and nothing else is under way but a move that is
/// paused; the button for moving can be pressed exactly if nothing is under way or a move is.
pub proof fn law_buttons_are_exact(v: AppView)
    ensures
        v.is_scanning ==> !scan_allowed(v),
        !v.is_scanning && !v.is_processing ==> scan_allowed(v),
        !v.is_scanning && v.is_processing ==> scan_allowed(v) == (v.processing_type
            == ProcessingType::Moving && v.is_paused),
        !v.is_processing ==> move_allowed(v),
        v.is_processing ==> move_allowed(v) == (v.processing_type == ProcessingType::Moving),
{
}

/// Pausing is undone by resuming, changes nothing else, and does nothing where no move is under
/// way.
pub proof fn law_pause_is_undone(v: AppView)
    ensures
        pause_toggled(pause_toggled(v)) == v,
        v.processing_type == ProcessingType::Moving ==> pause_toggled(v).is_paused
            == !v.is_paused,
        v.processing_type != ProcessingType::Moving ==> pause_toggled(v) == v,
        v == (AppView { is_paused: v.is_paused, ..pause_toggled(v) }),
{
}

/// Pressing the button for moving begins a move exactly if none is under way and a result is
/// selected: a move is then under way, not paused and without an error. With nothing selected
/// only a hint is shown. The results and the selection stay.
pub proof fn law_pressing_begins_move(v: AppView, lang: Language)
    requires
        v.scan_results.len() <= usize::MAX,
        !(v.is_processing && v.processing_type == ProcessingType::Moving),
    ensures
        begins_move(v) <==> exists|k: usize|
            k < v.scan_results.len() && #[trigger] v.selected_items.contains(k),
        begins_move(v) ==> {
            let now = move_pressed(v, lang);
            &&& now.is_processing && now.processing_type == ProcessingType::Moving
            &&& !now.is_paused
            &&& now.last_error.len() == 0
            &&& v == (AppView {
                is_processing: v.is_processing,
                processing_type: v.processing_type,
                is_paused: v.is_paused,
                last_error: v.last_error,
                ..now
            })
        },
        !begins_move(v) ==> {
            let now = move_pressed(v, lang);
            &&& now.status_msg == wording(lang, "请先勾选需要迁移的文件夹"@)
            &&& v == (AppView { status_msg: v.status_msg, ..now })
        },
{
    law_selected_folders_are_moved(v);
    let tasks = selected_tasks(v);
    if tasks.len() > 0 {
        let first = tasks[0];
        assert(v.selected_items.contains(first));
    }
    if exists|k: usize| k < v.scan_results.len() && #[trigger] v.selected_items.contains(k) {
        let k = choose|k: usize|
            k < v.scan_results.len() && #[trigger] v.selected_items.contains(k);
        assert(selected_tasks(v).contains(k));
    }
}

/// The size of what is moved is the sum of the sizes of the folders, each counted once.
pub proof fn law_task_sizes_add_up(
    results: Seq<ScanResult>,
    a: Seq<usize>,
    b: Seq<usize>,
    task: usize,
)
    ensures
        tasks_size(results, Seq::empty()) == 0,
        tasks_size(results, a + b) == tasks_size(results, a) + tasks_size(results, b),
        tasks_size(results, seq![task]) == results[task as int].size_bytes,
    decreases b.len(),
{
    assert(seq![task].drop_last() =~= Seq::<usize>::empty());
    assert(tasks_size(results, seq![task].drop_last()) == 0);
    if b.len() == 0 {
        assert(a + b =~= a);
    } else {
        law_task_sizes_add_up(results, a, b.drop_last(), task);
        assert((a + b).drop_last() =~= a + b.drop_last());
    }
}

/// As many files are copied at a time as the window says, if it says to copy in parallel, but
/// always at least one; else one after the other.
pub proof fn law_parallelism_is_exact(v: AppView)
    ensures
        copy_parallelism(v) >= 1,
        v.parallel_copy && v.parallelism >= 1 ==> copy_parallelism(v) == v.parallelism,
        v.parallel_copy && v.parallelism == 0 ==> copy_parallelism(v) == 1,
        !v.parallel_copy ==> copy_parallelism(v) == 1,
{
}

/// What is left of a move and what is done add up to its size, as long as no more is done than
/// there is; beyond that nothing is left.
pub proof fn law_bytes_left_and_done_add_up(v: AppView)
    ensures
        v.move_current_bytes <= v.move_total_bytes ==> bytes_left(v) + v.move_current_bytes
            == v.move_total_bytes,
        v.move_current_bytes >= v.move_total_bytes ==> bytes_left(v) == 0,
{
}

/// A result that is selected is selected, one whose selection is taken back is not, and the
/// others stay as they are; the last word counts.
pub proof fn law_selection_is_exact(v: AppView, index: usize, first: bool, second: bool)
    ensures
        with_selection(v, index, first).selected_items.contains(index) == first,
        forall|k: usize|
            k != index ==> #[trigger] with_selection(v, index, first).selected_items.contains(k)
                == v.selected_items.contains(k),
        with_selection(with_selection(v, index, first), index, second) == with_selection(
            v,
            index,
            second,
        ),
        v == (AppView { selected_items: v.selected_items, ..with_selection(v, index, first) }),
{
    let once = with_selection(v, index, second);
    let twice = with_selection(with_selection(v, index, first), index, second);
    assert(twice.selected_items =~= once.selected_items);
}

/// The language that is chosen is that of the window; a new one shows that the window is ready
/// unless something is under way; choosing the same again changes nothing. The language of the
/// texts goes along.
pub proof fn law_language_is_chosen(v: AppView, lang: Language, texts: Language)
    ensures
        ({
            let now = language_chosen(v, lang);
            &&& now.lang == lang
            &&& lang == v.lang ==> now == v
            &&& lang != v.lang && !v.is_processing ==> now.status_msg == wording(
                lang,
                "准备就绪"@,
            )
            &&& v.is_processing ==> now.status_msg == v.status_msg
            &&& v == (AppView { lang: v.lang, status_msg: v.status_msg, ..now })
        }),
        texts == v.lang ==> texts_language(v, lang, texts) == lang,
        lang != v.lang ==> texts_language(v, lang, texts) == lang,
        lang == v.lang ==> texts_language(v, lang, texts) == texts,
{
}

/// The button starts a move where none is under way, and pauses or resumes one that is;
/// pressing it turns pausing into resuming and back.
pub proof fn law_move_button_is_exact(v: AppView, lang: Language)
    ensures
        button_for(v) == MoveButton::Start <==> !(v.is_processing && v.processing_type
            == ProcessingType::Moving),
        button_for(v) == MoveButton::Resume ==> v.is_paused,
        button_for(v) == MoveButton::Pause ==> !v.is_paused,
        button_for(v) == MoveButton::Pause ==> button_for(move_pressed(v, lang))
            == MoveButton::Resume,
        button_for(v) == MoveButton::Resume ==> button_for(move_pressed(v, lang))
            == MoveButton::Pause,
        begins_move(v) ==> button_for(v) == MoveButton::Start && button_for(move_pressed(v, lang))
            == MoveButton::Pause,
{
}

/// The labels show what they are about: each number, name, size or time stands in its place.
pub proof fn law_labels_show_state(v: AppView, amount: u64, index: usize)
    requires
        index < v.scan_results.len(),
    ensures
        ({
            let text = scan_count_text(v);
            let current = decimal(v.scan_current as nat);
            let total = decimal(v.scan_total as nat);
            &&& text.take(current.len() as int) == current
            &&& text.skip(current.len() as int) == "/"@ + total
        }),
        ({
            let text = scan_item_text(v);
            text.skip(text.len() - v.scan_current_item.len()) == v.scan_current_item
        }),
        ({
            let text = move_bytes_text(v);
            let current = bytes_text(v.move_current_bytes);
            &&& text.take(current.len() as int) == current
            &&& text.skip(current.len() as int) == "/"@ + bytes_text(v.move_total_bytes)
        }),
        contains(speed_text(v, amount), bytes_text(amount) + "/s"@),
        ({
            let text = time_left_text(v, amount);
            text.skip(text.len() - duration_text(amount).len()) == duration_text(amount)
        }),
        ({
            let text = result_text(v, index);
            let name = v.scan_results[index as int].name@;
            &&& text.take(name.len() as int) == name
            &&& text.skip(name.len() as int) == " ("@ + bytes_text(
                v.scan_results[index as int].size_bytes,
            ) + ")"@
        }),
{
    let none = Seq::<char>::empty();
    let current = decimal(v.scan_current as nat);
    let total = decimal(v.scan_total as nat);
    assert(scan_count_text(v).take(current.len() as int) =~= current);
    assert(scan_count_text(v).skip(current.len() as int) =~= "/"@ + total);
    let item = scan_item_text(v);
    assert(item.skip(item.len() - v.scan_current_item.len()) =~= v.scan_current_item);
    let moved = bytes_text(v.move_current_bytes);
    assert(move_bytes_text(v).take(moved.len() as int) =~= moved);
    assert(move_bytes_text(v).skip(moved.len() as int) =~= "/"@ + bytes_text(v.move_total_bytes));
    let head = in_language(v.lang, "Speed: "@, "速度: "@);
    let speed = bytes_text(amount) + "/s"@;
    assert(speed_text(v, amount) =~= head + speed + none);
    law_contained_text_has_sides(speed, head, speed, none);
    let left = time_left_text(v, amount);
    assert(left.skip(left.len() - duration_text(amount).len()) =~= duration_text(amount));
    let name = v.scan_results[index as int].name@;
    let size = bytes_text(v.scan_results[index as int].size_bytes);
    assert(result_text(v, index).take(name.len() as int) =~= name);
    assert(result_text(v, index).skip(name.len() as int) =~= " ("@ + size + ")"@);
}

} // verus!
