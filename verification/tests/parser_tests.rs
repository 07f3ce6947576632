//! Command-line parser tests.

use kernel_core::parser::parse_command;

#[test]
fn test_simple_command() {
    let result = parse_command("echo hello world");
    assert_eq!(result, vec!["echo", "hello", "world"]);
}

#[test]
fn test_quoted_args() {
    let result = parse_command("echo \"hello world\" test");
    assert_eq!(result, vec!["echo", "hello world", "test"]);
}

#[test]
fn test_multiple_spaces() {
    let result = parse_command("echo   hello    world");
    assert_eq!(result, vec!["echo", "hello", "world"]);
}

#[test]
fn test_escape_sequences() {
    let result = parse_command("echo \"hello\\nworld\"");
    assert_eq!(result, vec!["echo", "hello\nworld"]);
}

#[test]
fn test_empty_line() {
    let result = parse_command("");
    assert!(result.is_empty());
    let result = parse_command("    ");
    assert!(result.is_empty());
}

#[test]
fn test_tab_separator_and_escapes() {
    let result = parse_command("a\tb\\tc \\\\ \\q");
    assert_eq!(result, vec!["a", "b\tc", "\\", "\\q"]);
}

#[test]
fn test_trailing_backslash_kept() {
    let result = parse_command("echo x\\");
    assert_eq!(result, vec!["echo", "x\\"]);
}

#[test]
fn test_unclosed_quote_spans_spaces() {
    let result = parse_command("say \"one two");
    assert_eq!(result, vec!["say", "one two"]);
}
