use program_volume::identity::{
    contains_text, extract_file_name_from_identifier, fold_target, identity_matches, name_matches,
};

fn wide(s: &str) -> Vec<u16> {
    s.encode_utf16().collect()
}

#[test]
fn short_name_after_last_backslash() {
    assert_eq!(
        extract_file_name_from_identifier("C:\\apps\\chrome.exe"),
        Some("chrome.exe".to_string())
    );
}

#[test]
fn short_name_after_last_slash() {
    assert_eq!(extract_file_name_from_identifier("/usr/bin/foo"), Some("foo".to_string()));
}

#[test]
fn short_name_without_separator() {
    assert_eq!(extract_file_name_from_identifier("bar.exe"), Some("bar.exe".to_string()));
}

#[test]
fn short_name_backslash_wins_over_slash() {
    assert_eq!(
        extract_file_name_from_identifier("a/b\\c/d.exe"),
        Some("c/d.exe".to_string())
    );
}

#[test]
fn short_name_of_trailing_separator_is_empty() {
    assert_eq!(extract_file_name_from_identifier("C:\\dir\\"), Some(String::new()));
    assert_eq!(extract_file_name_from_identifier(""), Some(String::new()));
}

#[test]
fn short_name_keeps_non_ascii() {
    assert_eq!(
        extract_file_name_from_identifier("C:\\程序\\音乐.exe"),
        Some("音乐.exe".to_string())
    );
}

#[test]
fn match_ignores_case() {
    assert!(name_matches("chrome.exe", "CHROME"));
    assert!(name_matches("Chrome.EXE", "chrome.exe"));
}

#[test]
fn match_is_a_substring_test() {
    assert!(name_matches("notepad.exe", "pad"));
    assert!(!name_matches("notepad.exe", "vlc"));
    assert!(!name_matches("pad", "notepad"));
}

#[test]
fn empty_target_matches_every_name() {
    assert!(name_matches("anything.exe", ""));
    assert!(name_matches("", ""));
    let target = fold_target(&[]);
    assert_eq!(target, "");
    assert!(identity_matches(&wide("C:\\Windows\\explorer.exe"), &target));
    assert!(!identity_matches(&wide(""), &target));
}

#[test]
fn contains_text_cases() {
    assert!(contains_text("abc", ""));
    assert!(contains_text("abc", "abc"));
    assert!(contains_text("abcabd", "abd"));
    assert!(!contains_text("ab", "abc"));
    assert!(!contains_text("", "a"));
    assert!(!contains_text("ABC", "abc"));
}

#[test]
fn fold_target_lowers_the_name() {
    assert_eq!(fold_target(&wide("NotePad")), "notepad");
}

#[test]
fn identity_matches_uses_the_short_name() {
    let target = fold_target(&wide("NOTEPAD"));
    assert!(identity_matches(&wide("C:\\Program Files\\App\\notepad.exe"), &target));
    let target = fold_target(&wide("program"));
    assert!(!identity_matches(&wide("C:\\Program Files\\App\\notepad.exe"), &target));
}
