use axiomterm::types::TerminalColor;
use axiomterm::utils::{parse_hex_color, tokenize_command};

#[test]
fn test_simple_command() {
    let input = "ls -la";
    let tokens = tokenize_command(input);
    assert_eq!(tokens, vec!["ls", "-la"]);
}

#[test]
fn test_double_quotes() {
    let input = "echo \"hello world\"";
    let tokens = tokenize_command(input);
    assert_eq!(tokens, vec!["echo", "hello world"]);
}

#[test]
fn test_single_quotes() {
    let input = "echo 'hello world'";
    let tokens = tokenize_command(input);
    assert_eq!(tokens, vec!["echo", "hello world"]);
}

#[test]
fn test_escapes() {
    let input = "echo hello\\ world";
    let tokens = tokenize_command(input);
    assert_eq!(tokens, vec!["echo", "hello world"]);
}

#[test]
fn test_mixed_quotes() {
    let input = "echo \"foo 'bar'\"";
    let tokens = tokenize_command(input);
    assert_eq!(tokens, vec!["echo", "foo 'bar'"]);
}

#[test]
fn test_empty_quotes() {
    let input = "echo \"\"";
    let tokens = tokenize_command(input);
    assert_eq!(tokens, vec!["echo", ""]);
}

#[test]
fn test_hex_parsing() {
    assert_eq!(parse_hex_color("#FF0000"), Some(TerminalColor::from_rgb(255, 0, 0)));
    assert_eq!(parse_hex_color("00FF00"), Some(TerminalColor::from_rgb(0, 255, 0)));
    assert_eq!(parse_hex_color("invalid"), None);
}

#[test]
fn tokenize_empty_and_blank_input() {
    assert!(tokenize_command("").is_empty());
    assert!(tokenize_command("   \t ").is_empty());
}

#[test]
fn tokenize_collapses_runs_of_whitespace() {
    assert_eq!(tokenize_command("  a   b\tc  "), vec!["a", "b", "c"]);
}

#[test]
fn tokenize_escape_inside_double_quotes() {
    assert_eq!(tokenize_command("say \"a \\\"b\\\" c\""), vec!["say", "a \"b\" c"]);
}

#[test]
fn tokenize_single_quotes_keep_backslash() {
    assert_eq!(tokenize_command("'a\\b'"), vec!["a\\b"]);
}

#[test]
fn tokenize_adjacent_quotes_join_one_word() {
    assert_eq!(tokenize_command("ab'cd'\"ef\""), vec!["abcdef"]);
}

#[test]
fn hex_colour_lower_case_and_many_hashes() {
    assert_eq!(parse_hex_color("##0a0B0c"), Some(TerminalColor::from_rgb(10, 11, 12)));
}

#[test]
fn hex_colour_wrong_length_or_digit() {
    assert_eq!(parse_hex_color("#FFF"), None);
    assert_eq!(parse_hex_color("#FF00000"), None);
    assert_eq!(parse_hex_color("#GG0000"), None);
    assert_eq!(parse_hex_color(""), None);
}

#[test]
fn hex_colour_sign_before_single_digit() {
    assert_eq!(parse_hex_color("+F0000"), Some(TerminalColor::from_rgb(15, 0, 0)));
}
