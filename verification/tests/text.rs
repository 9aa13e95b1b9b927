use windows_clear::text::{
    append_decimal, append_number_list, append_signed, chars_of, contains_text,
    drop_placeholders, equal_but_for_case,
};

fn decimal_of(n: u64) -> String {
    let mut out = String::from("n=");
    append_decimal(&mut out, n);
    out
}

#[test]
fn writes_decimals() {
    for n in [0, 7, 9, 10, 99, 100, 1234567890, u64::MAX] {
        assert_eq!(decimal_of(n), format!("n={}", n));
    }
}

#[test]
fn decimals_read_back() {
    for n in [0u64, 10, 101, 999, 1000, u64::MAX] {
        let mut out = String::new();
        append_decimal(&mut out, n);
        assert_eq!(out.parse::<u64>(), Ok(n));
    }
}

#[test]
fn writes_signed_decimals() {
    for i in [0, 5, -5, 1307, i32::MAX, i32::MIN] {
        let mut out = String::new();
        append_signed(&mut out, i);
        assert_eq!(out, format!("{}", i));
    }
}

#[test]
fn takes_a_text_apart() {
    assert_eq!(chars_of("aß中\u{1F600}"), vec!['a', 'ß', '中', '\u{1F600}']);
    assert!(chars_of("").is_empty());
}

#[test]
fn finds_a_text() {
    assert!(contains_text("c:\\app\\leveldb\\lock", "\\leveldb\\"));
    assert!(contains_text("abc", "abc"));
    assert!(contains_text("abc", ""));
    assert!(contains_text("", ""));
    assert!(contains_text("aab", "ab"));
    assert!(contains_text("数据库文件", "库文"));
    assert!(!contains_text("ab", "abc"));
    assert!(!contains_text("c:\\leveldb", "\\leveldb\\"));
    assert!(!contains_text("abab", "ba b"));
}

#[test]
fn compares_without_case() {
    assert!(equal_but_for_case("LOCK", "lock"));
    assert!(equal_but_for_case("LoCk", "lOcK"));
    assert!(equal_but_for_case("", ""));
    assert!(!equal_but_for_case("LOCK", "LOCKS"));
    assert!(!equal_but_for_case("LOCK", "BOCK"));
    // Only ASCII letters lose their case.
    assert!(!equal_but_for_case("Ä", "ä"));
    assert!(!equal_but_for_case("[", "{"));
    assert!(!equal_but_for_case("@", "`"));
}

#[test]
fn drops_placeholders() {
    for template in ["扫描出错: {}", "{}", "{}{}", "{{}}", "{ }", "}{", "", "a{}b{}c"] {
        assert_eq!(drop_placeholders(template), template.replace("{}", ""));
    }
    assert_eq!(drop_placeholders("Error: {}"), "Error: ");
}

#[test]
fn writes_number_lists() {
    for numbers in [vec![], vec![7u32], vec![4, 0, u32::MAX]] {
        let mut out = String::from("PID: ");
        append_number_list(&mut out, &numbers);
        assert_eq!(out, format!("PID: {:?}", numbers));
    }
}
