//! Tests for validation, identity resolution, and the textual helpers.

use git_memo::category::{validate_category, Category};
use git_memo::errors::MemoError;
use git_memo::gitops::grep_args;
use git_memo::identity::resolve_identity;
use git_memo::text::{
    decimal_string, first_line, hex_string, is_blank, str_eq, str_lt, str_starts_with,
    trim_trailing_newlines,
};

#[test]
fn errors_on_invalid_category() {
    let err = validate_category("bad category").unwrap_err();
    assert_eq!(err, "Invalid category name: bad category");
}

#[test]
fn accepts_reasonable_category_names() {
    for name in [
        "todo",
        "idea",
        "a",
        "work/projects",
        "v1.2",
        "with-dash",
        "with_underscore",
        "UPPER",
        "d\u{00e9}j\u{00e0}",
    ] {
        assert!(validate_category(name).is_ok(), "should accept {name}");
        assert!(Category::new(name).is_ok());
    }
}

#[test]
fn rejects_malformed_category_names() {
    for name in [
        "",
        "bad category",
        "tab\there",
        "new\nline",
        "/leading",
        "trailing/",
        "dou//ble",
        "dot.",
        "two..dots",
        ".hidden",
        "seg/.hidden",
        "ends.lock",
        "seg.lock/more",
        "at@{brace",
        "til~de",
        "ca^ret",
        "co:lon",
        "que?st",
        "a*star",
        "brack[et",
        "back\\slash",
        "del\u{7f}here",
    ] {
        assert!(validate_category(name).is_err(), "should reject {name:?}");
        assert!(Category::new(name).is_err());
    }
}

#[test]
fn error_descriptions_carry_their_context() {
    let invalid = MemoError::InvalidCategory {
        category: "bad category".to_string(),
    };
    assert_eq!(invalid.describe(), "Invalid category name: bad category");

    let missing = MemoError::MissingIdentity;
    assert_eq!(
        missing.describe(),
        "Git user.name must be set.\nRun `git config --global user.name <name>`"
    );

    let exhausted = MemoError::RetryExhausted {
        refname: "refs/memo/todo".to_string(),
        attempts: 5,
    };
    assert_eq!(
        exhausted.describe(),
        "Failed to update refs/memo/todo after 5 attempts"
    );

    let exists = MemoError::AlreadyExists {
        refname: "refs/archive/todo".to_string(),
    };
    assert_eq!(exists.describe(), "refs/archive/todo already exists");
}

#[test]
fn resolves_identity_with_placeholder_contact() {
    let id = resolve_identity(Some("Test".to_string()), Some("t@example.com".to_string())).unwrap();
    assert_eq!(id.name, "Test");
    assert_eq!(id.email, "t@example.com");

    let id = resolve_identity(Some("Test".to_string()), None).unwrap();
    assert_eq!(id.email, "none");

    let id = resolve_identity(Some("Test".to_string()), Some("  \t".to_string())).unwrap();
    assert_eq!(id.email, "none");

    assert!(matches!(
        resolve_identity(None, Some("t@example.com".to_string())),
        Err(MemoError::MissingIdentity)
    ));
    assert!(matches!(
        resolve_identity(Some(" \n ".to_string()), None),
        Err(MemoError::MissingIdentity)
    ));
}

#[test]
fn first_line_stops_at_the_newline() {
    assert_eq!(first_line("one line"), "one line");
    assert_eq!(first_line("line one\nline two\n"), "line one");
    assert_eq!(first_line("\nstarts empty"), "");
    assert_eq!(first_line(""), "");
}

#[test]
fn trailing_newlines_are_trimmed() {
    assert_eq!(trim_trailing_newlines("line one\nline two\n"), "line one\nline two");
    assert_eq!(trim_trailing_newlines("msg\n\n\n"), "msg");
    assert_eq!(trim_trailing_newlines("no newline"), "no newline");
    assert_eq!(trim_trailing_newlines("\n\n"), "");
}

#[test]
fn blankness_checks_every_character() {
    assert!(is_blank(""));
    assert!(is_blank(" \t\r\n"));
    assert!(!is_blank(" x "));
}

#[test]
fn decimal_rendering_is_exact() {
    assert_eq!(decimal_string(0), "0");
    assert_eq!(decimal_string(5), "5");
    assert_eq!(decimal_string(42), "42");
    assert_eq!(decimal_string(10_000), "10000");
    assert_eq!(decimal_string(u64::MAX), "18446744073709551615");
}

#[test]
fn hex_rendering_is_exact() {
    assert_eq!(hex_string(&vec![]), "");
    assert_eq!(hex_string(&vec![0x00]), "00");
    assert_eq!(hex_string(&vec![0xde, 0xad, 0xbe, 0xef]), "deadbeef");
    assert_eq!(hex_string(&vec![0x0f, 0xf0, 0x1a]), "0ff01a");
}

#[test]
fn string_order_and_prefix_helpers_agree_with_std() {
    assert!(str_lt("abc", "abd"));
    assert!(str_lt("ab", "abc"));
    assert!(!str_lt("abc", "abc"));
    assert!(!str_lt("b", "abc"));
    assert!(str_eq("same", "same"));
    assert!(!str_eq("same", "samey"));
    assert!(str_starts_with("refs/memo/todo", "refs/memo/"));
    assert!(!str_starts_with("refs/archive/todo", "refs/memo/"));
}

#[test]
fn grep_arguments_name_every_pointer() {
    assert!(grep_args("hello", &vec![]).is_none());
    let refs = vec![
        "refs/memo/idea".to_string(),
        "refs/memo/todo".to_string(),
    ];
    let args = grep_args("hello", &refs).unwrap();
    assert_eq!(
        args,
        vec![
            "log".to_string(),
            "--format=%s".to_string(),
            "--grep".to_string(),
            "hello".to_string(),
            "refs/memo/idea".to_string(),
            "refs/memo/todo".to_string(),
        ]
    );
}
