use midna::cli::{Cli, Command};
use midna::error::MidnaError;
use midna::text::{join, push_decimal, push_signed_decimal, sort_texts, str_eq, str_lt, trim, truncate_to_bytes};

#[test]
fn decimal_notation() {
    let mut s = String::from("n=");
    push_decimal(&mut s, 0);
    assert_eq!(s, "n=0");
    let mut s = String::new();
    push_decimal(&mut s, u64::MAX);
    assert_eq!(s, "18446744073709551615");
    let mut s = String::new();
    push_signed_decimal(&mut s, i64::MIN);
    assert_eq!(s, "-9223372036854775808");
    let mut s = String::new();
    push_signed_decimal(&mut s, 120);
    assert_eq!(s, "120");
}

#[test]
fn trimming_removes_unicode_white_space() {
    assert_eq!(trim("  a b \t\n"), "a b");
    assert_eq!(trim("\u{2003}x\u{205f}"), "x");
    assert_eq!(trim("   "), "");
    assert_eq!(trim(""), "");
    assert_eq!(trim("\u{200b}z"), "\u{200b}z");
}

#[test]
fn truncation_backs_up_to_a_character_boundary() {
    assert_eq!(truncate_to_bytes("abc".to_string(), 3), "abc");
    assert_eq!(truncate_to_bytes("abcd".to_string(), 3), "abc\n[... truncated ...]");
    assert_eq!(truncate_to_bytes("aé".to_string(), 2), "a\n[... truncated ...]");
    assert_eq!(truncate_to_bytes("é".to_string(), 0), "\n[... truncated ...]");
}

#[test]
fn byte_order_and_equality() {
    assert!(str_lt("B", "a"));
    assert!(str_lt("a", "ab"));
    assert!(!str_lt("ab", "ab"));
    assert!(str_lt("z", "é"));
    assert!(str_eq("日本", "日本"));
    assert!(!str_eq("日本", "日"));
}

#[test]
fn sorting_and_joining() {
    let v = vec!["pear".to_string(), "apple".to_string(), "Zebra".to_string(), "apple".to_string()];
    let sorted = sort_texts(v);
    assert_eq!(sorted, vec!["Zebra", "apple", "apple", "pear"]);
    assert_eq!(join(&sorted, ", "), "Zebra, apple, apple, pear");
    assert_eq!(join(&vec![], "\n"), "");
    assert_eq!(join(&vec!["one".to_string()], "\n"), "one");
}

#[test]
fn error_messages() {
    let cases = [
        (MidnaError::Io("e".to_string()), "I/O error: e"),
        (MidnaError::Http("e".to_string()), "HTTP error: e"),
        (MidnaError::Json("e".to_string()), "JSON error: e"),
        (MidnaError::Connect("e".to_string()), "could not connect to LLM provider: e"),
        (MidnaError::Provider("e".to_string()), "provider error: e"),
        (MidnaError::Tool("e".to_string()), "tool error: e"),
    ];
    for (e, text) in cases {
        assert_eq!(e.message(), text);
    }
}

#[test]
fn agent_is_the_default_mode() {
    let mut cli = Cli {
        command: None,
        model: "llama3.1:8b".to_string(),
        host: "http://localhost:11434".to_string(),
        verbose: false,
    };
    assert_eq!(cli.mode(), Command::Agent);
    cli.command = Some(Command::Chat);
    assert_eq!(cli.mode(), Command::Chat);
}
