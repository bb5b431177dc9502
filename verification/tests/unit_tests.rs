use sorcery_server::numfmt::u32_to_string;
use sorcery_server::parsing::{extract_path_line_suffix, normalize_remote};
use sorcery_server::urlenc::{percent_decode, percent_encode};
use sorcery_server::validate::{
    validate_branch_name, validate_file_path, validate_remote_id, validate_workspace_name,
};

#[test]
fn test_line_suffix_split_numeric() {
    assert_eq!(extract_path_line_suffix("file.rs:42"), ("file.rs".to_string(), Some(42)));
}

#[test]
fn test_line_suffix_split_non_numeric() {
    assert_eq!(extract_path_line_suffix("file.rs:abc"), ("file.rs:abc".to_string(), None));
}

#[test]
fn test_line_suffix_no_colon() {
    assert_eq!(extract_path_line_suffix("file.rs"), ("file.rs".to_string(), None));
}

#[test]
fn test_line_suffix_splits_only_last_colon() {
    assert_eq!(extract_path_line_suffix("C:/dir/file.rs:7"), ("C:/dir/file.rs".to_string(), Some(7)));
    assert_eq!(extract_path_line_suffix("a:1:2"), ("a:1".to_string(), Some(2)));
}

#[test]
fn test_line_suffix_zero_and_overflow_kept() {
    assert_eq!(extract_path_line_suffix("file.rs:0"), ("file.rs:0".to_string(), None));
    assert_eq!(
        extract_path_line_suffix("file.rs:99999999999"),
        ("file.rs:99999999999".to_string(), None)
    );
}

#[test]
fn test_line_suffix_empty_suffix_kept() {
    assert_eq!(extract_path_line_suffix("file.rs:"), ("file.rs:".to_string(), None));
}

#[test]
fn test_validators_accept_ordinary_strings() {
    assert!(validate_branch_name("feature/add-tests"));
    assert!(validate_remote_id("github.com/owner/repo"));
    assert!(validate_file_path("src/lib.rs"));
    assert!(validate_workspace_name("my.repo-x_1"));
}

#[test]
fn test_validators_reject_semicolon_backtick_dotdot() {
    assert!(!validate_branch_name("a;b"));
    assert!(!validate_branch_name("a`b"));
    assert!(!validate_branch_name("a/../b"));
    assert!(!validate_remote_id("a;b"));
    assert!(!validate_remote_id("a`b"));
    assert!(!validate_remote_id("a/../b"));
    assert!(!validate_file_path("a;b"));
    assert!(!validate_file_path("a`b"));
    assert!(!validate_file_path("a/../b"));
    assert!(!validate_file_path(".."));
}

#[test]
fn test_branch_rejects_shell_metachars_and_controls() {
    for s in ["a&b", "a|b", "a$b", "a(b", "a)b", "a<b", "a>b", "a\"b", "a'b", "a\u{1}b"] {
        assert!(!validate_branch_name(s), "expected rejection: {}", s);
    }
}

#[test]
fn test_file_path_rejects_its_charset() {
    for s in ["a?b", "a<b", "a>b", "a\"b", "a|b"] {
        assert!(!validate_file_path(s), "expected rejection: {}", s);
    }
}

#[test]
fn test_file_path_length_boundary() {
    let ok = "a".repeat(1024);
    let too_long = "a".repeat(1025);
    assert!(validate_file_path(&ok));
    assert!(!validate_file_path(&too_long));
}

#[test]
fn test_file_path_length_counts_bytes() {
    // 512 two-byte characters fit; 513 do not
    let ok = "\u{e9}".repeat(512);
    let too_long = "\u{e9}".repeat(513);
    assert!(validate_file_path(&ok));
    assert!(!validate_file_path(&too_long));
}

#[test]
fn test_workspace_rejects_non_word_chars() {
    assert!(!validate_workspace_name("my repo"));
    assert!(!validate_workspace_name("my`repo"));
    assert!(!validate_workspace_name("my/repo"));
    assert!(validate_workspace_name(""));
}

#[test]
fn test_dotdot_segment_needs_boundaries() {
    // interior dots are not a traversal segment
    assert!(validate_branch_name("v1..v2"));
    assert!(validate_file_path("a..b/c"));
    assert!(!validate_file_path("../c"));
    assert!(!validate_file_path("c/.."));
}

#[test]
fn test_percent_encode_strict() {
    assert_eq!(percent_encode("feature/c++", false), "feature%2Fc%2B%2B");
    assert_eq!(percent_encode("abc-_.~XYZ019", false), "abc-_.~XYZ019");
    assert_eq!(percent_encode("a b", false), "a%20b");
    assert_eq!(percent_encode("#pr470", false), "%23pr470");
}

#[test]
fn test_percent_encode_keeps_path_slashes() {
    assert_eq!(percent_encode("src/file.rs", true), "src/file.rs");
    assert_eq!(percent_encode("src/my file.rs", true), "src/my%20file.rs");
}

#[test]
fn test_percent_encode_multibyte() {
    assert_eq!(percent_encode("\u{e9}", false), "%C3%A9");
    assert_eq!(percent_encode("\u{20ac}", false), "%E2%82%AC");
    assert_eq!(percent_encode("\u{1f600}", false), "%F0%9F%98%80");
}

#[test]
fn test_percent_decode_ascii() {
    assert_eq!(percent_decode("%3Cscript%3E"), "<script>");
    assert_eq!(percent_decode("my%60repo"), "my`repo");
    assert_eq!(percent_decode("plain"), "plain");
    assert_eq!(percent_decode("file%22%20on"), "file\" on");
}

#[test]
fn test_percent_decode_leaves_malformed_and_high_escapes() {
    assert_eq!(percent_decode("%zz"), "%zz");
    assert_eq!(percent_decode("%4"), "%4");
    assert_eq!(percent_decode("%C3%A9"), "%C3%A9");
}

#[test]
fn test_u32_formatting() {
    assert_eq!(u32_to_string(0), "0");
    assert_eq!(u32_to_string(42), "42");
    assert_eq!(u32_to_string(4294967295), "4294967295");
}

#[test]
fn test_normalize_remote_strips_scheme() {
    assert_eq!(normalize_remote(Some("https://github.com/o/r".to_string())), "github.com/o/r");
    assert_eq!(normalize_remote(Some("http://github.com/o/r".to_string())), "github.com/o/r");
    assert_eq!(normalize_remote(Some("github.com/o/r".to_string())), "github.com/o/r");
    assert_eq!(normalize_remote(None), "");
}
