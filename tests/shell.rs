use axiomterm::command::{listing_entry, parse_command, Command};
use axiomterm::input::{Action, TerminalMode};
use axiomterm::shell::{reload_due, ConfigUpdate, ShellState};
use axiomterm::types::{Line, ScreenOperation, TerminalColor};

fn text(op: &ScreenOperation) -> String {
    match op {
        ScreenOperation::PushLine(l) => l.cells.iter().map(|c| c.ch).collect(),
        other => panic!("not a new line: {:?}", other),
    }
}

#[test]
fn typing_and_submitting_echo() {
    let mut s = ShellState::new("/home".to_string());
    for c in "echo hi".chars() {
        let step = s.apply_action(Action::AppendChar(c));
        assert!(step.operations.is_empty());
    }
    assert_eq!(s.input_buffer, "echo hi");
    let step = s.apply_action(Action::Submit);
    assert_eq!(step.operations.len(), 1);
    assert_eq!(text(&step.operations[0]), "> echo hi");
    assert_eq!(s.input_buffer, "");
    let line = step.command.unwrap();
    let out = s.execute_command(&line);
    assert!(out.pending.is_none());
    assert_eq!(out.operations.len(), 1);
    assert_eq!(text(&out.operations[0]), "hi");
    assert_eq!(s.screen.lines.len(), 2);
    assert_eq!(
        s.screen.lines[0],
        Line::from_string("> echo hi", TerminalColor::from_rgb(0, 255, 0))
    );
    assert_eq!(s.screen.lines[1], Line::from_string("hi", TerminalColor::from_rgb(211, 211, 211)));
}

#[test]
fn backspace_and_clear() {
    let mut s = ShellState::new(".".to_string());
    s.apply_action(Action::AppendChar('a'));
    s.apply_action(Action::AppendChar('b'));
    s.apply_action(Action::Backspace);
    assert_eq!(s.input_buffer, "a");
    s.apply_action(Action::Backspace);
    s.apply_action(Action::Backspace);
    assert_eq!(s.input_buffer, "");
    s.push_text("x", TerminalColor::white());
    let step = s.apply_action(Action::Clear);
    assert_eq!(step.operations, vec![ScreenOperation::Clear]);
    assert!(s.screen.lines.is_empty());
}

#[test]
fn change_mode_sets_title() {
    let mut s = ShellState::new(".".to_string());
    assert_eq!(s.window_title_full, "[INSERT] axiomterm");
    s.apply_action(Action::ChangeMode(TerminalMode::Normal));
    assert_eq!(s.mode, TerminalMode::Normal);
    assert_eq!(s.window_title_full, "[NORMAL] axiomterm");
    assert!(s.title_updated);
}

#[test]
fn run_command_bypasses_buffer() {
    let mut s = ShellState::new(".".to_string());
    s.apply_action(Action::AppendChar('z'));
    let step = s.apply_action(Action::RunCommand("config load".to_string()));
    assert_eq!(step.command, Some("config load".to_string()));
    assert_eq!(s.input_buffer, "z");
    let out = s.execute_command("config load");
    assert_eq!(out.pending, Some(Command::LoadConfig(None)));
}

#[test]
fn builtin_commands() {
    let mut s = ShellState::new("/tmp/work".to_string());
    assert_eq!(text(&s.execute_command("  pwd  ").operations[0]), "/tmp/work");
    assert_eq!(text(&s.execute_command("mv a").operations[0]), "Usage: mv <source> <dest>");
    assert_eq!(text(&s.execute_command("config").operations[0]), "Usage: config load [path]");
    let out = s.execute_command("clear");
    assert_eq!(out.operations, vec![ScreenOperation::Clear]);
    assert!(s.screen.lines.is_empty());
    let out = s.execute_command("   ");
    assert!(out.operations.is_empty() && out.pending.is_none());
}

#[test]
fn commands_needing_outside_work() {
    assert_eq!(parse_command("cd"), Some(Command::ChangeDir("/".to_string())));
    assert_eq!(parse_command("cd src"), Some(Command::ChangeDir("src".to_string())));
    assert_eq!(parse_command("exit"), Some(Command::Exit));
    assert_eq!(
        parse_command("cp 'a b' c"),
        Some(Command::Copy("a b".to_string(), "c".to_string()))
    );
    assert_eq!(
        parse_command("ls -l -a docs"),
        Some(Command::List { show_all: true, long_format: true, path: "docs".to_string() })
    );
    assert_eq!(
        parse_command("ls"),
        Some(Command::List { show_all: false, long_format: false, path: ".".to_string() })
    );
    assert_eq!(
        parse_command("git status -s"),
        Some(Command::External("git".to_string(), vec!["status".to_string(), "-s".to_string()]))
    );
    assert_eq!(
        parse_command("config load my.lua"),
        Some(Command::LoadConfig(Some("my.lua".to_string())))
    );
    assert_eq!(parse_command(""), None);
}

#[test]
fn config_update_merges_present_fields() {
    let mut s = ShellState::new(".".to_string());
    let mut u = ConfigUpdate::default();
    u.prompt = Some("$ ".to_string());
    u.window_title = Some("term".to_string());
    s.apply_config(u, Some("/srv".to_string()));
    assert_eq!(s.prompt, "$ ");
    assert_eq!(s.prompt_color, TerminalColor::green());
    assert_eq!(s.window_title_full, "[INSERT] term");
    assert_eq!(s.current_dir, "/srv");
    assert!(s.title_updated);
    assert_eq!(s.mode_definitions.len(), 2);
}

#[test]
fn listing_lines() {
    assert_eq!(listing_entry(".hidden", false, 3, false, false), None);
    assert_eq!(listing_entry(".hidden", false, 3, true, false), Some(".hidden".to_string()));
    assert_eq!(
        listing_entry("src", true, 4096, false, true),
        Some("<DIR>         4096 src".to_string())
    );
    assert_eq!(
        listing_entry("a.txt", false, 0, false, true),
        Some("                 0 a.txt".to_string())
    );
    assert_eq!(
        listing_entry("big", false, 12345678901234, false, true),
        Some("      12345678901234 big".to_string())
    );
    assert_eq!(format!("{} {:>12} {}", "<DIR>", 4096, "src"), "<DIR>         4096 src");
}

#[test]
fn reload_rate_limit() {
    assert!(!reload_due(0));
    assert!(!reload_due(500));
    assert!(reload_due(501));
}
