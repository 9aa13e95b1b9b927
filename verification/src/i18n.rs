//! The texts of the interface, in Chinese and in English.
//!
//! A text is named by its Chinese wording. The English wording is looked up.

use vstd::hash_map::StringHashMap;
use vstd::prelude::*;
use vstd::string::*;

verus! {

/// The languages of the interface.
#[derive(Clone, Copy, PartialEq, Eq, Structural, Debug)]
pub enum Language {
    Chinese,
    English,
}

/// The English wording of each text that has one, by its Chinese wording.
pub open spec fn english_texts() -> Map<Seq<char>, Seq<char>> {
    Map::empty()
        .insert("AppData Mover"@, "AppData Mover"@)
        .insert("扫描大文件夹"@, "Scan Large Folders"@)
        .insert("正在初始化扫描..."@, "Initializing scan..."@)
        .insert("执行迁移"@, "Move Folders"@)
        .insert("请先勾选需要迁移的文件夹"@, "Please select folders to move first"@)
        .insert("目标根目录:"@, "Target Root:"@)
        .insert("选择..."@, "Browse..."@)
        .insert("扫描目录:"@, "Scan folders:"@)
        .insert("添加..."@, "Add..."@)
        .insert("自动结束占用进程 (慎用)"@, "Auto-kill locking processes (Use with caution)"@)
        .insert("打开日志"@, "Open Log"@)
        .insert("使用步骤：1 扫描大文件夹 → 2 勾选目录 → 3 执行迁移"@, "Steps: 1 Scan → 2 Select → 3 Move"@)
        .insert("并发传输"@, "Parallel copy"@)
        .insert("建议 SSD 硬盘使用，机械硬盘可能变慢或卡顿。"@, "Recommended for SSD. HDD may become slower or stutter."@)
        .insert("正在全盘扫描，请耐心等待..."@, "Full scanning, please wait..."@)
        .insert("准备就绪"@, "Ready"@)
        .insert("正在扫描: {} ({}/{})"@, "Scanning: {} ({}/{})"@)
        .insert("扫描完成，共找到 {} 个大文件夹"@, "Scan complete, found {} large folders"@)
        .insert("扫描出错: {}"@, "Scan error: {}"@)
        .insert("准备迁移... 总大小: {}"@, "Preparing to move... Total size: {}"@)
        .insert("正在迁移... {:.1}% - {}/s - 剩余约 {} "@, "Moving... {:.1}% - {}/s - ETA {} "@)
        .insert("所有迁移任务完成"@, "All tasks completed"@)
        .insert("错误: {}"@, "Error: {}"@)
        .insert("速度: {}/s"@, "Speed: {}/s"@)
        .insert("剩余时间: {}s"@, "Time left: {}s"@)
        .insert("剩余时间: {}"@, "Time left: {}"@)
        .insert("暂停"@, "Pause"@)
        .insert("继续"@, "Resume"@)
        .insert("已暂停"@, "Paused"@)
}

/// The wording of the text `key` in `lang`: where there is none in English, the key itself.
pub open spec fn wording(lang: Language, key: Seq<char>) -> Seq<char> {
    if lang == Language::English && english_texts().contains_key(key) {
        english_texts()[key]
    } else {
        key
    }
}

/// The texts of the interface in the language that is set.
pub struct I18n {
    lang: Language,
    en_map: StringHashMap<&'static str>,
}

fn listed(en_map: &mut StringHashMap<&'static str>, key: &'static str, english: &'static str)
    ensures
        final(en_map)@ == old(en_map)@.insert(key@, english),
{
    en_map.insert(key.to_owned(), english);
}

/// The wordings that a table of texts holds.
pub open spec fn wordings(table: Map<Seq<char>, &'static str>) -> Map<Seq<char>, Seq<char>> {
    table.map_values(|english: &'static str| english@)
}

impl I18n {
    /// The language that is set.
    pub closed spec fn language(&self) -> Language {
        self.lang
    }

    #[verifier::type_invariant]
    closed spec fn holds_all_texts(&self) -> bool {
        wordings(self.en_map@) == english_texts()
    }

    /// All texts, in Chinese.
    pub fn new() -> (r: I18n)
        ensures
            r.language() == Language::Chinese,
    {
        let mut en_map = StringHashMap::<&'static str>::new();
        listed(&mut en_map, "AppData Mover", "AppData Mover");
        listed(&mut en_map, "扫描大文件夹", "Scan Large Folders");
        listed(&mut en_map, "正在初始化扫描...", "Initializing scan...");
        listed(&mut en_map, "执行迁移", "Move Folders");
        listed(&mut en_map, "请先勾选需要迁移的文件夹", "Please select folders to move first");
        listed(&mut en_map, "目标根目录:", "Target Root:");
        listed(&mut en_map, "选择...", "Browse...");
        listed(&mut en_map, "扫描目录:", "Scan folders:");
        listed(&mut en_map, "添加...", "Add...");
        listed(&mut en_map, "自动结束占用进程 (慎用)", "Auto-kill locking processes (Use with caution)");
        listed(&mut en_map, "打开日志", "Open Log");
        listed(&mut en_map, "使用步骤：1 扫描大文件夹 → 2 勾选目录 → 3 执行迁移", "Steps: 1 Scan → 2 Select → 3 Move");
        listed(&mut en_map, "并发传输", "Parallel copy");
        listed(&mut en_map, "建议 SSD 硬盘使用，机械硬盘可能变慢或卡顿。", "Recommended for SSD. HDD may become slower or stutter.");
        listed(&mut en_map, "正在全盘扫描，请耐心等待...", "Full scanning, please wait...");
        listed(&mut en_map, "准备就绪", "Ready");
        listed(&mut en_map, "正在扫描: {} ({}/{})", "Scanning: {} ({}/{})");
        listed(&mut en_map, "扫描完成，共找到 {} 个大文件夹", "Scan complete, found {} large folders");
        listed(&mut en_map, "扫描出错: {}", "Scan error: {}");
        listed(&mut en_map, "准备迁移... 总大小: {}", "Preparing to move... Total size: {}");
        listed(&mut en_map, "正在迁移... {:.1}% - {}/s - 剩余约 {} ", "Moving... {:.1}% - {}/s - ETA {} ");
        listed(&mut en_map, "所有迁移任务完成", "All tasks completed");
        listed(&mut en_map, "错误: {}", "Error: {}");
        listed(&mut en_map, "速度: {}/s", "Speed: {}/s");
        listed(&mut en_map, "剩余时间: {}s", "Time left: {}s");
        listed(&mut en_map, "剩余时间: {}", "Time left: {}");
        listed(&mut en_map, "暂停", "Pause");
        listed(&mut en_map, "继续", "Resume");
        listed(&mut en_map, "已暂停", "Paused");
        assert(wordings(en_map@) =~= english_texts());
        I18n { lang: Language::Chinese, en_map }
    }

    /// Sets the language.
    pub fn set_lang(&mut self, lang: Language)
        ensures
            final(self).language() == lang,
    {
        proof {
            use_type_invariant(&*self);
        }
        self.lang = lang;
    }

    /// The wording of the text `key` in the language that is set.
    pub fn t<'a>(&self, key: &'a str) -> (r: &'a str)
        ensures
            r@ == wording(self.language(), key@),
    {
        proof {
            use_type_invariant(self);
        }
        match self.lang {
            Language::Chinese => key,
            Language::English => match self.en_map.get(key) {
                Some(english) => {
                    assert(wordings(self.en_map@)[key@] == (*english)@);
                    *english
                },
                None => {
                    assert(!wordings(self.en_map@).contains_key(key@));
                    key
                },
            },
        }
    }
}

/// The wording of the text `key` in the language of `i18n`, as a text of its own.
pub fn t(i18n: &I18n, key: &str) -> (r: String)
    ensures
        r@ == wording(i18n.language(), key@),
{
    i18n.t(key).to_owned()
}

/// In Chinese every text reads as it is named.
pub proof fn law_chinese_is_the_key(key: Seq<char>)
    ensures
        wording(Language::Chinese, key) == key,
{
}

/// A text without an English wording reads the same in both languages.
pub proof fn law_unlisted_is_the_key(lang: Language, key: Seq<char>)
    requires
        !english_texts().contains_key(key),
    ensures
        wording(lang, key) == key,
{
}

/// Whether a character is Chinese: an ideograph, or punctuation that goes with them.
pub open spec fn is_chinese(c: char) -> bool {
    ||| '\u{4E00}' <= c <= '\u{9FFF}'
    ||| '\u{3000}' <= c <= '\u{303F}'
    ||| '\u{FF00}' <= c <= '\u{FFEF}'
}

/// Whether a text holds no Chinese character.
pub open spec fn is_plain(text: Seq<char>) -> bool {
    forall|i: int| 0 <= i < text.len() ==> !is_chinese(#[trigger] text[i])
}

/// The texts that the window asks for by their names.
pub open spec fn interface_texts() -> Set<Seq<char>> {
    Set::empty()
        .insert("扫描大文件夹"@)
        .insert("正在初始化扫描..."@)
        .insert("执行迁移"@)
        .insert("暂停"@)
        .insert("继续"@)
        .insert("请先勾选需要迁移的文件夹"@)
        .insert("打开日志"@)
        .insert("使用步骤：1 扫描大文件夹 → 2 勾选目录 → 3 执行迁移"@)
        .insert("目标根目录:"@)
        .insert("选择..."@)
        .insert("扫描目录:"@)
        .insert("添加..."@)
        .insert("自动结束占用进程 (慎用)"@)
        .insert("并发传输"@)
        .insert("建议 SSD 硬盘使用，机械硬盘可能变慢或卡顿。"@)
        .insert("准备就绪"@)
        .insert("扫描出错: {}"@)
        .insert("错误: {}"@)
        .insert("所有迁移任务完成"@)
}

proof fn lemma_english_is_plain()
    ensures
        forall|key: Seq<char>| #[trigger]
            english_texts().contains_key(key) ==> is_plain(english_texts()[key]),
{
    assert(is_plain("AppData Mover"@)) by {
        reveal_strlit("AppData Mover");
    }
    assert(is_plain("Scan Large Folders"@)) by {
        reveal_strlit("Scan Large Folders");
    }
    assert(is_plain("Initializing scan..."@)) by {
        reveal_strlit("Initializing scan...");
    }
    assert(is_plain("Move Folders"@)) by {
        reveal_strlit("Move Folders");
    }
    assert(is_plain("Please select folders to move first"@)) by {
        reveal_strlit("Please select folders to move first");
    }
    assert(is_plain("Target Root:"@)) by {
        reveal_strlit("Target Root:");
    }
    assert(is_plain("Browse..."@)) by {
        reveal_strlit("Browse...");
    }
    assert(is_plain("Scan folders:"@)) by {
        reveal_strlit("Scan folders:");
    }
    assert(is_plain("Add..."@)) by {
        reveal_strlit("Add...");
    }
    assert(is_plain("Auto-kill locking processes (Use with caution)"@)) by {
        reveal_strlit("Auto-kill locking processes (Use with caution)");
    }
    assert(is_plain("Open Log"@)) by {
        reveal_strlit("Open Log");
    }
    assert(is_plain("Steps: 1 Scan → 2 Select → 3 Move"@)) by {
        reveal_strlit("Steps: 1 Scan → 2 Select → 3 Move");
    }
    assert(is_plain("Parallel copy"@)) by {
        reveal_strlit("Parallel copy");
    }
    assert(is_plain("Recommended for SSD. HDD may become slower or stutter."@)) by {
        reveal_strlit("Recommended for SSD. HDD may become slower or stutter.");
    }
    assert(is_plain("Full scanning, please wait..."@)) by {
        reveal_strlit("Full scanning, please wait...");
    }
    assert(is_plain("Ready"@)) by {
        reveal_strlit("Ready");
    }
    assert(is_plain("Scanning: {} ({}/{})"@)) by {
        reveal_strlit("Scanning: {} ({}/{})");
    }
    assert(is_plain("Scan complete, found {} large folders"@)) by {
        reveal_strlit("Scan complete, found {} large folders");
    }
    assert(is_plain("Scan error: {}"@)) by {
        reveal_strlit("Scan error: {}");
    }
    assert(is_plain("Preparing to move... Total size: {}"@)) by {
        reveal_strlit("Preparing to move... Total size: {}");
    }
    assert(is_plain("Moving... {:.1}% - {}/s - ETA {} "@)) by {
        reveal_strlit("Moving... {:.1}% - {}/s - ETA {} ");
    }
    assert(is_plain("All tasks completed"@)) by {
        reveal_strlit("All tasks completed");
    }
    assert(is_plain("Error: {}"@)) by {
        reveal_strlit("Error: {}");
    }
    assert(is_plain("Speed: {}/s"@)) by {
        reveal_strlit("Speed: {}/s");
    }
    assert(is_plain("Time left: {}s"@)) by {
        reveal_strlit("Time left: {}s");
    }
    assert(is_plain("Time left: {}"@)) by {
        reveal_strlit("Time left: {}");
    }
    assert(is_plain("Pause"@)) by {
        reveal_strlit("Pause");
    }
    assert(is_plain("Resume"@)) by {
        reveal_strlit("Resume");
    }
    assert(is_plain("Paused"@)) by {
        reveal_strlit("Paused");
    }
}

proof fn lemma_only_title_is_plain()
    ensures
        is_plain("AppData Mover"@),
        english_texts()["AppData Mover"@] == "AppData Mover"@,
        forall|key: Seq<char>| #[trigger]
            english_texts().contains_key(key) && is_plain(key) ==> key == "AppData Mover"@,
{
    assert(is_plain("AppData Mover"@)) by {
        reveal_strlit("AppData Mover");
    }
    assert(!is_plain("扫描大文件夹"@)) by {
        reveal_strlit("扫描大文件夹");
        assert(is_chinese("扫描大文件夹"@[0]));
    }
    assert(!is_plain("正在初始化扫描..."@)) by {
        reveal_strlit("正在初始化扫描...");
        assert(is_chinese("正在初始化扫描..."@[0]));
    }
    assert(!is_plain("执行迁移"@)) by {
        reveal_strlit("执行迁移");
        assert(is_chinese("执行迁移"@[0]));
    }
    assert(!is_plain("请先勾选需要迁移的文件夹"@)) by {
        reveal_strlit("请先勾选需要迁移的文件夹");
        assert(is_chinese("请先勾选需要迁移的文件夹"@[0]));
    }
    assert(!is_plain("目标根目录:"@)) by {
        reveal_strlit("目标根目录:");
        assert(is_chinese("目标根目录:"@[0]));
    }
    assert(!is_plain("选择..."@)) by {
        reveal_strlit("选择...");
        assert(is_chinese("选择..."@[0]));
    }
    assert(!is_plain("扫描目录:"@)) by {
        reveal_strlit("扫描目录:");
        assert(is_chinese("扫描目录:"@[0]));
    }
    assert(!is_plain("添加..."@)) by {
        reveal_strlit("添加...");
        assert(is_chinese("添加..."@[0]));
    }
    assert(!is_plain("自动结束占用进程 (慎用)"@)) by {
        reveal_strlit("自动结束占用进程 (慎用)");
        assert(is_chinese("自动结束占用进程 (慎用)"@[0]));
    }
    assert(!is_plain("打开日志"@)) by {
        reveal_strlit("打开日志");
        assert(is_chinese("打开日志"@[0]));
    }
    assert(!is_plain("使用步骤：1 扫描大文件夹 → 2 勾选目录 → 3 执行迁移"@)) by {
        reveal_strlit("使用步骤：1 扫描大文件夹 → 2 勾选目录 → 3 执行迁移");
        assert(is_chinese("使用步骤：1 扫描大文件夹 → 2 勾选目录 → 3 执行迁移"@[0]));
    }
    assert(!is_plain("并发传输"@)) by {
        reveal_strlit("并发传输");
        assert(is_chinese("并发传输"@[0]));
    }
    assert(!is_plain("建议 SSD 硬盘使用，机械硬盘可能变慢或卡顿。"@)) by {
        reveal_strlit("建议 SSD 硬盘使用，机械硬盘可能变慢或卡顿。");
        assert(is_chinese("建议 SSD 硬盘使用，机械硬盘可能变慢或卡顿。"@[0]));
    }
    assert(!is_plain("正在全盘扫描，请耐心等待..."@)) by {
        reveal_strlit("正在全盘扫描，请耐心等待...");
        assert(is_chinese("正在全盘扫描，请耐心等待..."@[0]));
    }
    assert(!is_plain("准备就绪"@)) by {
        reveal_strlit("准备就绪");
        assert(is_chinese("准备就绪"@[0]));
    }
    assert(!is_plain("正在扫描: {} ({}/{})"@)) by {
        reveal_strlit("正在扫描: {} ({}/{})");
        assert(is_chinese("正在扫描: {} ({}/{})"@[0]));
    }
    assert(!is_plain("扫描完成，共找到 {} 个大文件夹"@)) by {
        reveal_strlit("扫描完成，共找到 {} 个大文件夹");
        assert(is_chinese("扫描完成，共找到 {} 个大文件夹"@[0]));
    }
    assert(!is_plain("扫描出错: {}"@)) by {
        reveal_strlit("扫描出错: {}");
        assert(is_chinese("扫描出错: {}"@[0]));
    }
    assert(!is_plain("准备迁移... 总大小: {}"@)) by {
        reveal_strlit("准备迁移... 总大小: {}");
        assert(is_chinese("准备迁移... 总大小: {}"@[0]));
    }
    assert(!is_plain("正在迁移... {:.1}% - {}/s - 剩余约 {} "@)) by {
        reveal_strlit("正在迁移... {:.1}% - {}/s - 剩余约 {} ");
        assert(is_chinese("正在迁移... {:.1}% - {}/s - 剩余约 {} "@[0]));
    }
    assert(!is_plain("所有迁移任务完成"@)) by {
        reveal_strlit("所有迁移任务完成");
        assert(is_chinese("所有迁移任务完成"@[0]));
    }
    assert(!is_plain("错误: {}"@)) by {
        reveal_strlit("错误: {}");
        assert(is_chinese("错误: {}"@[0]));
    }
    assert(!is_plain("速度: {}/s"@)) by {
        reveal_strlit("速度: {}/s");
        assert(is_chinese("速度: {}/s"@[0]));
    }
    assert(!is_plain("剩余时间: {}s"@)) by {
        reveal_strlit("剩余时间: {}s");
        assert(is_chinese("剩余时间: {}s"@[0]));
    }
    assert(!is_plain("剩余时间: {}"@)) by {
        reveal_strlit("剩余时间: {}");
        assert(is_chinese("剩余时间: {}"@[0]));
    }
    assert(!is_plain("暂停"@)) by {
        reveal_strlit("暂停");
        assert(is_chinese("暂停"@[0]));
    }
    assert(!is_plain("继续"@)) by {
        reveal_strlit("继续");
        assert(is_chinese("继续"@[0]));
    }
    assert(!is_plain("已暂停"@)) by {
        reveal_strlit("已暂停");
        assert(is_chinese("已暂停"@[0]));
    }
}

/// Every text that the window asks for has an English wording, and that holds no Chinese
/// character; nor does any other English wording.
pub proof fn law_interface_is_bilingual(key: Seq<char>)
    ensures
        interface_texts().contains(key) ==> english_texts().contains_key(key),
        english_texts().contains_key(key) ==> is_plain(wording(Language::English, key)),
{
    lemma_english_is_plain();
}

/// Translating a text that is translated already changes nothing.
pub proof fn law_wording_of_wording(lang: Language, key: Seq<char>)
    ensures
        wording(lang, wording(lang, key)) == wording(lang, key),
{
    lemma_english_is_plain();
    lemma_only_title_is_plain();
}

/// Where the first closing brace from `from` on stands; the length where there is none.
pub open spec fn mark_end(template: Seq<char>, from: int) -> int
    decreases template.len() - from,
{
    if from >= template.len() {
        template.len() as int
    } else if template[from] == '}' {
        from
    } else {
        mark_end(template, from + 1)
    }
}

/// The marks for values in a template from `from` on, in order: each from an opening brace to
/// the next closing one.
pub open spec fn marks_from(template: Seq<char>, from: int) -> Seq<Seq<char>>
    decreases template.len() - from,
    via marks_from_ends
{
    if from < 0 || from >= template.len() {
        Seq::empty()
    } else if template[from] == '{' && mark_end(template, from) < template.len() {
        seq![template.subrange(from, mark_end(template, from) + 1)] + marks_from(
            template,
            mark_end(template, from) + 1,
        )
    } else {
        marks_from(template, from + 1)
    }
}

#[via_fn]
proof fn marks_from_ends(template: Seq<char>, from: int) {
    if 0 <= from < template.len() {
        lemma_mark_end_is_later(template, from);
    }
}

proof fn lemma_mark_end_is_later(template: Seq<char>, from: int)
    requires
        0 <= from <= template.len(),
    ensures
        from <= mark_end(template, from) <= template.len(),
    decreases template.len() - from,
{
    if from < template.len() {
        lemma_mark_end_is_later(template, from + 1);
    }
}

/// The marks for values in a template, in order.
pub open spec fn marks(template: Seq<char>) -> Seq<Seq<char>> {
    marks_from(template, 0)
}

proof fn lemma_mark_end_at(template: Seq<char>, from: int, end: int)
    requires
        0 <= from <= end < template.len(),
        template[end] == '}',
        forall|i: int| from <= i < end ==> #[trigger] template[i] != '}',
    ensures
        mark_end(template, from) == end,
    decreases end - from,
{
    if from < end {
        lemma_mark_end_at(template, from + 1, end);
    }
}

/// A template that begins with something that has no opening brace has the marks of the rest.
proof fn lemma_marks_after(template: Seq<char>, from: int, to: int)
    requires
        0 <= from <= to <= template.len(),
        forall|i: int| from <= i < to ==> #[trigger] template[i] != '{',
    ensures
        marks_from(template, from) == marks_from(template, to),
    decreases to - from,
{
    if from < to {
        lemma_marks_after(template, from + 1, to);
    }
}

/// The next mark of a template stands from `start` to `end`.
proof fn lemma_next_mark(template: Seq<char>, from: int, start: int, end: int, mark: Seq<char>)
    requires
        0 <= from <= start < end < template.len(),
        template[start] == '{',
        template[end] == '}',
        forall|i: int| from <= i < start ==> #[trigger] template[i] != '{',
        forall|i: int| start <= i < end ==> #[trigger] template[i] != '}',
        template.subrange(start, end + 1) == mark,
    ensures
        marks_from(template, from) == seq![mark] + marks_from(template, end + 1),
{
    lemma_marks_after(template, from, start);
    lemma_mark_end_at(template, start, end);
}

proof fn lemma_marks_are_kept()
    ensures
        forall|key: Seq<char>| #[trigger]
            english_texts().contains_key(key) ==> marks(english_texts()[key]) == marks(key),
{
    assert(marks("Scan Large Folders"@) == marks("扫描大文件夹"@)) by {
        reveal_strlit("扫描大文件夹");
        reveal_strlit("Scan Large Folders");
        lemma_marks_after("扫描大文件夹"@, 0, 6);
        lemma_marks_after("Scan Large Folders"@, 0, 18);
    }
    assert(marks("Initializing scan..."@) == marks("正在初始化扫描..."@)) by {
        reveal_strlit("正在初始化扫描...");
        reveal_strlit("Initializing scan...");
        lemma_marks_after("正在初始化扫描..."@, 0, 10);
        lemma_marks_after("Initializing scan..."@, 0, 20);
    }
    assert(marks("Move Folders"@) == marks("执行迁移"@)) by {
        reveal_strlit("执行迁移");
        reveal_strlit("Move Folders");
        lemma_marks_after("执行迁移"@, 0, 4);
        lemma_marks_after("Move Folders"@, 0, 12);
    }
    assert(marks("Please select folders to move first"@) == marks("请先勾选需要迁移的文件夹"@)) by {
        reveal_strlit("请先勾选需要迁移的文件夹");
        reveal_strlit("Please select folders to move first");
        lemma_marks_after("请先勾选需要迁移的文件夹"@, 0, 12);
        lemma_marks_after("Please select folders to move first"@, 0, 35);
    }
    assert(marks("Target Root:"@) == marks("目标根目录:"@)) by {
        reveal_strlit("目标根目录:");
        reveal_strlit("Target Root:");
        lemma_marks_after("目标根目录:"@, 0, 6);
        lemma_marks_after("Target Root:"@, 0, 12);
    }
    assert(marks("Browse..."@) == marks("选择..."@)) by {
        reveal_strlit("选择...");
        reveal_strlit("Browse...");
        lemma_marks_after("选择..."@, 0, 5);
        lemma_marks_after("Browse..."@, 0, 9);
    }
    assert(marks("Scan folders:"@) == marks("扫描目录:"@)) by {
        reveal_strlit("扫描目录:");
        reveal_strlit("Scan folders:");
        lemma_marks_after("扫描目录:"@, 0, 5);
        lemma_marks_after("Scan folders:"@, 0, 13);
    }
    assert(marks("Add..."@) == marks("添加..."@)) by {
        reveal_strlit("添加...");
        reveal_strlit("Add...");
        lemma_marks_after("添加..."@, 0, 5);
        lemma_marks_after("Add..."@, 0, 6);
    }
    assert(marks("Auto-kill locking processes (Use with caution)"@) == marks("自动结束占用进程 (慎用)"@)) by {
        reveal_strlit("自动结束占用进程 (慎用)");
        reveal_strlit("Auto-kill locking processes (Use with caution)");
        lemma_marks_after("自动结束占用进程 (慎用)"@, 0, 13);
        lemma_marks_after("Auto-kill locking processes (Use with caution)"@, 0, 46);
    }
    assert(marks("Open Log"@) == marks("打开日志"@)) by {
        reveal_strlit("打开日志");
        reveal_strlit("Open Log");
        lemma_marks_after("打开日志"@, 0, 4);
        lemma_marks_after("Open Log"@, 0, 8);
    }
    assert(marks("Steps: 1 Scan → 2 Select → 3 Move"@) == marks("使用步骤：1 扫描大文件夹 → 2 勾选目录 → 3 执行迁移"@)) by {
        reveal_strlit("使用步骤：1 扫描大文件夹 → 2 勾选目录 → 3 执行迁移");
        reveal_strlit("Steps: 1 Scan → 2 Select → 3 Move");
        lemma_marks_after("使用步骤：1 扫描大文件夹 → 2 勾选目录 → 3 执行迁移"@, 0, 31);
        lemma_marks_after("Steps: 1 Scan → 2 Select → 3 Move"@, 0, 33);
    }
    assert(marks("Parallel copy"@) == marks("并发传输"@)) by {
        reveal_strlit("并发传输");
        reveal_strlit("Parallel copy");
        lemma_marks_after("并发传输"@, 0, 4);
        lemma_marks_after("Parallel copy"@, 0, 13);
    }
    assert(marks("Recommended for SSD. HDD may become slower or stutter."@) == marks("建议 SSD 硬盘使用，机械硬盘可能变慢或卡顿。"@)) by {
        reveal_strlit("建议 SSD 硬盘使用，机械硬盘可能变慢或卡顿。");
        reveal_strlit("Recommended for SSD. HDD may become slower or stutter.");
        lemma_marks_after("建议 SSD 硬盘使用，机械硬盘可能变慢或卡顿。"@, 0, 24);
        lemma_marks_after("Recommended for SSD. HDD may become slower or stutter."@, 0, 54);
    }
    assert(marks("Full scanning, please wait..."@) == marks("正在全盘扫描，请耐心等待..."@)) by {
        reveal_strlit("正在全盘扫描，请耐心等待...");
        reveal_strlit("Full scanning, please wait...");
        lemma_marks_after("正在全盘扫描，请耐心等待..."@, 0, 15);
        lemma_marks_after("Full scanning, please wait..."@, 0, 29);
    }
    assert(marks("Ready"@) == marks("准备就绪"@)) by {
        reveal_strlit("准备就绪");
        reveal_strlit("Ready");
        lemma_marks_after("准备就绪"@, 0, 4);
        lemma_marks_after("Ready"@, 0, 5);
    }
    assert(marks("Scanning: {} ({}/{})"@) == marks("正在扫描: {} ({}/{})"@)) by {
        reveal_strlit("正在扫描: {} ({}/{})");
        reveal_strlit("Scanning: {} ({}/{})");
        assert("正在扫描: {} ({}/{})"@.subrange(6, 8) =~= seq!['{', '}']);
        lemma_next_mark("正在扫描: {} ({}/{})"@, 0, 6, 7, seq!['{', '}']);
        assert("正在扫描: {} ({}/{})"@.subrange(10, 12) =~= seq!['{', '}']);
        lemma_next_mark("正在扫描: {} ({}/{})"@, 8, 10, 11, seq!['{', '}']);
        assert("正在扫描: {} ({}/{})"@.subrange(13, 15) =~= seq!['{', '}']);
        lemma_next_mark("正在扫描: {} ({}/{})"@, 12, 13, 14, seq!['{', '}']);
        lemma_marks_after("正在扫描: {} ({}/{})"@, 15, 16);
        assert("Scanning: {} ({}/{})"@.subrange(10, 12) =~= seq!['{', '}']);
        lemma_next_mark("Scanning: {} ({}/{})"@, 0, 10, 11, seq!['{', '}']);
        assert("Scanning: {} ({}/{})"@.subrange(14, 16) =~= seq!['{', '}']);
        lemma_next_mark("Scanning: {} ({}/{})"@, 12, 14, 15, seq!['{', '}']);
        assert("Scanning: {} ({}/{})"@.subrange(17, 19) =~= seq!['{', '}']);
        lemma_next_mark("Scanning: {} ({}/{})"@, 16, 17, 18, seq!['{', '}']);
        lemma_marks_after("Scanning: {} ({}/{})"@, 19, 20);
    }
    assert(marks("Scan complete, found {} large folders"@) == marks("扫描完成，共找到 {} 个大文件夹"@)) by {
        reveal_strlit("扫描完成，共找到 {} 个大文件夹");
        reveal_strlit("Scan complete, found {} large folders");
        assert("扫描完成，共找到 {} 个大文件夹"@.subrange(9, 11) =~= seq!['{', '}']);
        lemma_next_mark("扫描完成，共找到 {} 个大文件夹"@, 0, 9, 10, seq!['{', '}']);
        lemma_marks_after("扫描完成，共找到 {} 个大文件夹"@, 11, 17);
        assert("Scan complete, found {} large folders"@.subrange(21, 23) =~= seq!['{', '}']);
        lemma_next_mark("Scan complete, found {} large folders"@, 0, 21, 22, seq!['{', '}']);
        lemma_marks_after("Scan complete, found {} large folders"@, 23, 37);
    }
    assert(marks("Scan error: {}"@) == marks("扫描出错: {}"@)) by {
        reveal_strlit("扫描出错: {}");
        reveal_strlit("Scan error: {}");
        assert("扫描出错: {}"@.subrange(6, 8) =~= seq!['{', '}']);
        lemma_next_mark("扫描出错: {}"@, 0, 6, 7, seq!['{', '}']);
        lemma_marks_after("扫描出错: {}"@, 8, 8);
        assert("Scan error: {}"@.subrange(12, 14) =~= seq!['{', '}']);
        lemma_next_mark("Scan error: {}"@, 0, 12, 13, seq!['{', '}']);
        lemma_marks_after("Scan error: {}"@, 14, 14);
    }
    assert(marks("Preparing to move... Total size: {}"@) == marks("准备迁移... 总大小: {}"@)) by {
        reveal_strlit("准备迁移... 总大小: {}");
        reveal_strlit("Preparing to move... Total size: {}");
        assert("准备迁移... 总大小: {}"@.subrange(13, 15) =~= seq!['{', '}']);
        lemma_next_mark("准备迁移... 总大小: {}"@, 0, 13, 14, seq!['{', '}']);
        lemma_marks_after("准备迁移... 总大小: {}"@, 15, 15);
        assert("Preparing to move... Total size: {}"@.subrange(33, 35) =~= seq!['{', '}']);
        lemma_next_mark("Preparing to move... Total size: {}"@, 0, 33, 34, seq!['{', '}']);
        lemma_marks_after("Preparing to move... Total size: {}"@, 35, 35);
    }
    assert(marks("Moving... {:.1}% - {}/s - ETA {} "@) == marks("正在迁移... {:.1}% - {}/s - 剩余约 {} "@)) by {
        reveal_strlit("正在迁移... {:.1}% - {}/s - 剩余约 {} ");
        reveal_strlit("Moving... {:.1}% - {}/s - ETA {} ");
        assert("正在迁移... {:.1}% - {}/s - 剩余约 {} "@.subrange(8, 13) =~= seq!['{', ':', '.', '1', '}']);
        lemma_next_mark("正在迁移... {:.1}% - {}/s - 剩余约 {} "@, 0, 8, 12, seq!['{', ':', '.', '1', '}']);
        assert("正在迁移... {:.1}% - {}/s - 剩余约 {} "@.subrange(17, 19) =~= seq!['{', '}']);
        lemma_next_mark("正在迁移... {:.1}% - {}/s - 剩余约 {} "@, 13, 17, 18, seq!['{', '}']);
        assert("正在迁移... {:.1}% - {}/s - 剩余约 {} "@.subrange(28, 30) =~= seq!['{', '}']);
        lemma_next_mark("正在迁移... {:.1}% - {}/s - 剩余约 {} "@, 19, 28, 29, seq!['{', '}']);
        lemma_marks_after("正在迁移... {:.1}% - {}/s - 剩余约 {} "@, 30, 31);
        assert("Moving... {:.1}% - {}/s - ETA {} "@.subrange(10, 15) =~= seq!['{', ':', '.', '1', '}']);
        lemma_next_mark("Moving... {:.1}% - {}/s - ETA {} "@, 0, 10, 14, seq!['{', ':', '.', '1', '}']);
        assert("Moving... {:.1}% - {}/s - ETA {} "@.subrange(19, 21) =~= seq!['{', '}']);
        lemma_next_mark("Moving... {:.1}% - {}/s - ETA {} "@, 15, 19, 20, seq!['{', '}']);
        assert("Moving... {:.1}% - {}/s - ETA {} "@.subrange(30, 32) =~= seq!['{', '}']);
        lemma_next_mark("Moving... {:.1}% - {}/s - ETA {} "@, 21, 30, 31, seq!['{', '}']);
        lemma_marks_after("Moving... {:.1}% - {}/s - ETA {} "@, 32, 33);
    }
    assert(marks("All tasks completed"@) == marks("所有迁移任务完成"@)) by {
        reveal_strlit("所有迁移任务完成");
        reveal_strlit("All tasks completed");
        lemma_marks_after("所有迁移任务完成"@, 0, 8);
        lemma_marks_after("All tasks completed"@, 0, 19);
    }
    assert(marks("Error: {}"@) == marks("错误: {}"@)) by {
        reveal_strlit("错误: {}");
        reveal_strlit("Error: {}");
        assert("错误: {}"@.subrange(4, 6) =~= seq!['{', '}']);
        lemma_next_mark("错误: {}"@, 0, 4, 5, seq!['{', '}']);
        lemma_marks_after("错误: {}"@, 6, 6);
        assert("Error: {}"@.subrange(7, 9) =~= seq!['{', '}']);
        lemma_next_mark("Error: {}"@, 0, 7, 8, seq!['{', '}']);
        lemma_marks_after("Error: {}"@, 9, 9);
    }
    assert(marks("Speed: {}/s"@) == marks("速度: {}/s"@)) by {
        reveal_strlit("速度: {}/s");
        reveal_strlit("Speed: {}/s");
        assert("速度: {}/s"@.subrange(4, 6) =~= seq!['{', '}']);
        lemma_next_mark("速度: {}/s"@, 0, 4, 5, seq!['{', '}']);
        lemma_marks_after("速度: {}/s"@, 6, 8);
        assert("Speed: {}/s"@.subrange(7, 9) =~= seq!['{', '}']);
        lemma_next_mark("Speed: {}/s"@, 0, 7, 8, seq!['{', '}']);
        lemma_marks_after("Speed: {}/s"@, 9, 11);
    }
    assert(marks("Time left: {}s"@) == marks("剩余时间: {}s"@)) by {
        reveal_strlit("剩余时间: {}s");
        reveal_strlit("Time left: {}s");
        assert("剩余时间: {}s"@.subrange(6, 8) =~= seq!['{', '}']);
        lemma_next_mark("剩余时间: {}s"@, 0, 6, 7, seq!['{', '}']);
        lemma_marks_after("剩余时间: {}s"@, 8, 9);
        assert("Time left: {}s"@.subrange(11, 13) =~= seq!['{', '}']);
        lemma_next_mark("Time left: {}s"@, 0, 11, 12, seq!['{', '}']);
        lemma_marks_after("Time left: {}s"@, 13, 14);
    }
    assert(marks("Time left: {}"@) == marks("剩余时间: {}"@)) by {
        reveal_strlit("剩余时间: {}");
        reveal_strlit("Time left: {}");
        assert("剩余时间: {}"@.subrange(6, 8) =~= seq!['{', '}']);
        lemma_next_mark("剩余时间: {}"@, 0, 6, 7, seq!['{', '}']);
        lemma_marks_after("剩余时间: {}"@, 8, 8);
        assert("Time left: {}"@.subrange(11, 13) =~= seq!['{', '}']);
        lemma_next_mark("Time left: {}"@, 0, 11, 12, seq!['{', '}']);
        lemma_marks_after("Time left: {}"@, 13, 13);
    }
    assert(marks("Pause"@) == marks("暂停"@)) by {
        reveal_strlit("暂停");
        reveal_strlit("Pause");
        lemma_marks_after("暂停"@, 0, 2);
        lemma_marks_after("Pause"@, 0, 5);
    }
    assert(marks("Resume"@) == marks("继续"@)) by {
        reveal_strlit("继续");
        reveal_strlit("Resume");
        lemma_marks_after("继续"@, 0, 2);
        lemma_marks_after("Resume"@, 0, 6);
    }
    assert(marks("Paused"@) == marks("已暂停"@)) by {
        reveal_strlit("已暂停");
        reveal_strlit("Paused");
        lemma_marks_after("已暂停"@, 0, 3);
        lemma_marks_after("Paused"@, 0, 6);
    }
}

/// The marks for values are kept: a wording has the same marks as the text it stands for, in
/// the same order.
pub proof fn law_wording_keeps_marks(lang: Language, key: Seq<char>)
    ensures
        marks(wording(lang, key)) == marks(key),
{
    lemma_marks_are_kept();
}

/// A text with an English wording reads so in English.
pub proof fn law_listed_reads_in_english(key: Seq<char>)
    requires
        english_texts().contains_key(key),
    ensures
        wording(Language::English, key) == english_texts()[key],
{
}

} // verus!
