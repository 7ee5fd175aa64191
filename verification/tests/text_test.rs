use gas_codex::text::{ends_with, find_first, same_text, strip_prefix, trim_end};

#[test]
fn trimming_takes_the_whole_run() {
    assert_eq!(trim_end("https://api.example.com/v1///", '/'), "https://api.example.com/v1");
    assert_eq!(trim_end("///", '/'), "");
    assert_eq!(trim_end("", '/'), "");
    assert_eq!(trim_end("/a/b", '/'), "/a/b");
    assert_eq!(trim_end("模型//", '/'), "模型");
}

#[test]
fn trimming_twice_is_trimming_once() {
    let once = trim_end("a//b//", '/');
    assert_eq!(trim_end(&once, '/'), once);
}

#[test]
fn prefixes_come_off_once() {
    assert_eq!(strip_prefix("package/package/a", "package/"), Some("package/a".to_string()));
    assert_eq!(strip_prefix("pack", "package/"), None);
    assert_eq!(strip_prefix("packages/a", "package/"), None);
    assert_eq!(strip_prefix("package/", "package/"), Some(String::new()));
    assert_eq!(strip_prefix("a", ""), Some("a".to_string()));
}

#[test]
fn texts_are_compared_whole() {
    assert!(same_text("id", "id"));
    assert!(!same_text("id", "idx"));
    assert!(!same_text("id", "if"));
    assert!(same_text("", ""));
}

#[test]
fn what_stands_before_a_mark() {
    assert_eq!(find_first("x86/bin/codex", '/'), 3);
    assert_eq!(find_first("/bin", '/'), 0);
    assert_eq!(find_first("模型/bin", '/'), 2);
    assert_eq!(find_first("bin", '/'), 3);
    assert_eq!(find_first("", '/'), 0);
}

#[test]
fn ends() {
    assert!(ends_with("bin/", '/'));
    assert!(!ends_with("bin", '/'));
    assert!(!ends_with("", '/'));
}
