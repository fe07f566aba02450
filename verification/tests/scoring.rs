use binstaller::asset::{score, AssetInfo};
use binstaller::text::{contains, is_listed, join_path, same_text};
use std::cmp::Ordering;

#[test]
fn full_match_scores_three() {
    assert_eq!(score("tool-linux-x86_64-gnu.tar.gz"), 3);
    assert_eq!(score("tool-x86_64-unknown-linux-musl.zip"), 3);
}

#[test]
fn no_signal_scores_zero() {
    assert_eq!(score("tool-darwin-arm64"), 0);
    assert_eq!(score(""), 0);
}

#[test]
fn each_signal_counts_one() {
    assert_eq!(score("linux"), 1);
    assert_eq!(score("x86_64"), 1);
    assert_eq!(score("gnu"), 1);
    assert_eq!(score("musl"), 1);
    assert_eq!(score("tool-linux-aarch64"), 1);
    assert_eq!(score("tool-linux-x86_64"), 2);
    assert_eq!(score("tool-windows-x86_64-gnu"), 2);
}

#[test]
fn both_libc_tokens_count_once() {
    assert_eq!(score("tool-gnu-musl"), 1);
    assert_eq!(score("tool-linux-x86_64-gnu-musl"), 3);
}

#[test]
fn signals_are_case_sensitive() {
    assert_eq!(score("tool-Linux-X86_64-GNU"), 0);
    assert_eq!(score("tool-LINUX-x86_64"), 1);
}

#[test]
fn repeated_token_counts_once() {
    assert_eq!(score("linux-linux-linux"), 1);
}

#[test]
fn broken_token_does_not_count() {
    assert_eq!(score("lin-ux-x86-64-gn-u"), 0);
    assert_eq!(score("x86_6"), 0);
}

#[test]
fn new_keeps_texts_and_scores_file_name() {
    let info = AssetInfo::new(
        "https://example.com/linux".to_string(),
        "tool-x86_64.zip".to_string(),
        "application/zip".to_string(),
    );
    assert_eq!(info.download_url(), "https://example.com/linux");
    assert_eq!(info.file_name(), "tool-x86_64.zip");
    assert_eq!(info.content_type(), "application/zip");
    assert_eq!(info.matches(), 1);
}

#[test]
fn clone_keeps_every_field() {
    let info = AssetInfo::new("u".to_string(), "linux-gnu".to_string(), "t".to_string());
    let copy = info.clone();
    assert_eq!(copy.download_url(), "u");
    assert_eq!(copy.file_name(), "linux-gnu");
    assert_eq!(copy.content_type(), "t");
    assert_eq!(copy.matches(), 2);
}

#[test]
fn assets_compare_by_score_alone() {
    let a = AssetInfo::new("a".to_string(), "tool-linux".to_string(), "x".to_string());
    let b = AssetInfo::new("b".to_string(), "other-musl".to_string(), "y".to_string());
    let c = AssetInfo::new("c".to_string(), "tool-linux-gnu".to_string(), "z".to_string());
    assert!(a == b);
    assert!(a != c);
    assert!(a < c);
    assert!(c > b);
    assert!(a <= b);
    assert_eq!(a.cmp(&b), Ordering::Equal);
    assert_eq!(a.cmp(&c), Ordering::Less);
    assert_eq!(c.cmp(&a), Ordering::Greater);
    assert_eq!(a.partial_cmp(&c), Some(Ordering::Less));
}

#[test]
fn contains_finds_text_anywhere() {
    assert!(contains("abcdef", "abc"));
    assert!(contains("abcdef", "cde"));
    assert!(contains("abcdef", "def"));
    assert!(contains("abcdef", "abcdef"));
    assert!(contains("abcdef", ""));
    assert!(contains("", ""));
    assert!(!contains("abcdef", "abd"));
    assert!(!contains("abc", "abcd"));
    assert!(!contains("", "a"));
    assert!(contains("aab", "ab"));
}

#[test]
fn contains_works_on_characters_beyond_ascii() {
    assert!(contains("werkzeug-für-linux", "linux"));
    assert!(contains("werkzeug-für-linux", "für"));
    assert!(!contains("werkzeug-für-linux", "fur"));
}

#[test]
fn same_text_compares_in_full() {
    assert!(same_text("application/zip", "application/zip"));
    assert!(!same_text("application/zip", "application/zi"));
    assert!(!same_text("application/zip", "application/zip "));
    assert!(!same_text("application/zip", "Application/zip"));
    assert!(same_text("", ""));
}

#[test]
fn is_listed_looks_for_the_whole_name() {
    let names = vec!["README.md".to_string(), "tool".to_string(), "LICENSE".to_string()];
    assert!(is_listed(&names, "tool"));
    assert!(is_listed(&names, "LICENSE"));
    assert!(!is_listed(&names, "too"));
    assert!(!is_listed(&names, "tool.exe"));
    assert!(!is_listed(&Vec::new(), "tool"));
}

#[test]
fn join_path_puts_one_separator() {
    assert_eq!(join_path("/home/user/.local/bin", "tool"), "/home/user/.local/bin/tool");
    assert_eq!(join_path("/home/user/.local/bin/", "tool"), "/home/user/.local/bin/tool");
    assert_eq!(join_path("", "tool"), "tool");
    assert_eq!(join_path("/", "tool"), "/tool");
}
