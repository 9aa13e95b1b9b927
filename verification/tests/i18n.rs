use windows_clear::i18n::{t, I18n, Language};

const TEXTS: [(&str, &str); 29] = [
    ("AppData Mover", "AppData Mover"),
    ("扫描大文件夹", "Scan Large Folders"),
    ("正在初始化扫描...", "Initializing scan..."),
    ("执行迁移", "Move Folders"),
    ("请先勾选需要迁移的文件夹", "Please select folders to move first"),
    ("目标根目录:", "Target Root:"),
    ("选择...", "Browse..."),
    ("扫描目录:", "Scan folders:"),
    ("添加...", "Add..."),
    ("自动结束占用进程 (慎用)", "Auto-kill locking processes (Use with caution)"),
    ("打开日志", "Open Log"),
    ("使用步骤：1 扫描大文件夹 → 2 勾选目录 → 3 执行迁移", "Steps: 1 Scan → 2 Select → 3 Move"),
    ("并发传输", "Parallel copy"),
    (
        "建议 SSD 硬盘使用，机械硬盘可能变慢或卡顿。",
        "Recommended for SSD. HDD may become slower or stutter.",
    ),
    ("正在全盘扫描，请耐心等待...", "Full scanning, please wait..."),
    ("准备就绪", "Ready"),
    ("正在扫描: {} ({}/{})", "Scanning: {} ({}/{})"),
    ("扫描完成，共找到 {} 个大文件夹", "Scan complete, found {} large folders"),
    ("扫描出错: {}", "Scan error: {}"),
    ("准备迁移... 总大小: {}", "Preparing to move... Total size: {}"),
    ("正在迁移... {:.1}% - {}/s - 剩余约 {} ", "Moving... {:.1}% - {}/s - ETA {} "),
    ("所有迁移任务完成", "All tasks completed"),
    ("错误: {}", "Error: {}"),
    ("速度: {}/s", "Speed: {}/s"),
    ("剩余时间: {}s", "Time left: {}s"),
    ("剩余时间: {}", "Time left: {}"),
    ("暂停", "Pause"),
    ("继续", "Resume"),
    ("已暂停", "Paused"),
];

#[test]
fn starts_in_chinese() {
    let i18n = I18n::new();
    for (key, _) in TEXTS {
        assert_eq!(i18n.t(key), key);
    }
}

#[test]
fn speaks_english() {
    let mut i18n = I18n::new();
    i18n.set_lang(Language::English);
    for (key, english) in TEXTS {
        assert_eq!(i18n.t(key), english);
        assert_eq!(t(&i18n, key), english.to_string());
    }
}

#[test]
fn switches_back_to_chinese() {
    let mut i18n = I18n::new();
    i18n.set_lang(Language::English);
    i18n.set_lang(Language::Chinese);
    assert_eq!(i18n.t("暂停"), "暂停");
    assert_eq!(t(&i18n, "准备就绪"), "准备就绪");
}

#[test]
fn unlisted_text_is_its_key() {
    let mut i18n = I18n::new();
    i18n.set_lang(Language::English);
    assert_eq!(i18n.t("没有翻译"), "没有翻译");
    assert_eq!(i18n.t(""), "");
    assert_eq!(i18n.t("Ready"), "Ready");
}

fn is_chinese(c: char) -> bool {
    ('\u{4E00}'..='\u{9FFF}').contains(&c)
        || ('\u{3000}'..='\u{303F}').contains(&c)
        || ('\u{FF00}'..='\u{FFEF}').contains(&c)
}

#[test]
fn english_holds_no_chinese() {
    let mut i18n = I18n::new();
    i18n.set_lang(Language::English);
    for (key, _) in TEXTS {
        assert!(!i18n.t(key).chars().any(is_chinese));
        assert!(key == "AppData Mover" || key.chars().any(is_chinese));
    }
}

#[test]
fn translating_twice_is_translating_once() {
    let mut i18n = I18n::new();
    for lang in [Language::Chinese, Language::English] {
        i18n.set_lang(lang);
        for (key, _) in TEXTS {
            let once = t(&i18n, key);
            assert_eq!(i18n.t(&once), once);
        }
    }
}

fn marks(template: &str) -> Vec<&str> {
    let mut found = Vec::new();
    let mut rest = template;
    while let Some(start) = rest.find('{') {
        match rest[start..].find('}') {
            Some(end) => {
                found.push(&rest[start..start + end + 1]);
                rest = &rest[start + end + 1..];
            }
            None => rest = &rest[start + 1..],
        }
    }
    found
}

#[test]
fn translating_keeps_the_marks() {
    let mut i18n = I18n::new();
    i18n.set_lang(Language::English);
    for (key, _) in TEXTS {
        assert_eq!(marks(i18n.t(key)), marks(key));
    }
    assert_eq!(marks(i18n.t("正在迁移... {:.1}% - {}/s - 剩余约 {} ")), vec!["{:.1}", "{}", "{}"]);
}
