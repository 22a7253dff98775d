use axiomterm::config::{config_update_from, setting_name_of, FieldKey, LuaAssignment, LuaExpr, LuaField};
use axiomterm::input::{Action, BindingTarget, InputEvent, TerminalMode};
use axiomterm::types::TerminalColor;

fn s(t: &str) -> LuaExpr {
    LuaExpr::Str(format!("\"{}\"", t))
}

fn named(key: &str, value: &str) -> LuaField {
    LuaField { source: format!("{} = \"{}\"", key, value), key: FieldKey::Name(key.to_string()), value: s(value) }
}

fn table(fields: Vec<LuaField>) -> LuaExpr {
    LuaExpr::Table(fields)
}

fn positional(fields: Vec<LuaField>) -> LuaField {
    LuaField { source: "{ ... }".to_string(), key: FieldKey::Positional, value: table(fields) }
}

fn assign(target: &str, value: LuaExpr) -> LuaAssignment {
    LuaAssignment { target: target.to_string(), value }
}

#[test]
fn setting_names() {
    assert_eq!(setting_name_of("config.prompt "), "prompt");
    assert_eq!(setting_name_of(" prompt"), "prompt");
    assert_eq!(setting_name_of("a.b.font_size"), "font_size");
}

#[test]
fn test_mode_parsing() {
    let bindings = LuaField {
        source: "bindings = { ... }".to_string(),
        key: FieldKey::Name("bindings".to_string()),
        value: table(vec![
            positional(vec![named("key", "i"), named("action", "ChangeMode(Insert)")]),
            positional(vec![named("key", "Escape"), named("action", "Clear")]),
            positional(vec![named("key", "z"), named("action", "Jump")]),
        ]),
    };
    let modes = table(vec![positional(vec![named("name", "TestMode"), bindings])]);
    let update = config_update_from(&vec![assign("config", table(vec![])), assign("config.modes", modes)]);
    let modes = update.mode_definitions.unwrap();
    assert_eq!(modes.len(), 1);
    let def = &modes[0];
    assert_eq!(def.mode, TerminalMode::Custom("TestMode".to_string()));
    assert_eq!(def.bindings.len(), 2);
    assert_eq!(def.bindings[0].target, BindingTarget::Action(Action::ChangeMode(TerminalMode::Insert)));
    assert_eq!(
        def.bindings[0].event,
        InputEvent::Key { code: "i".to_string(), ctrl: false, alt: false, shift: false }
    );
    assert_eq!(def.bindings[1].target, BindingTarget::Action(Action::Clear));
}

#[test]
fn scalar_settings_last_wins() {
    let update = config_update_from(&vec![
        assign("prompt", s("% ")),
        assign("axiomterm_prompt", s("$ ")),
        assign("prompt", LuaExpr::Number("3".to_string())),
        assign("text_color", s("#102030")),
        assign("prompt_color", s("#00FF00")),
        assign("prompt_color", s("nope")),
        assign("window_title", s("T")),
        assign("default_cwd", s("/tmp")),
        assign("directory_color", s("0000ff")),
    ]);
    assert_eq!(update.prompt, Some("$ ".to_string()));
    assert_eq!(update.text_color, Some(TerminalColor::from_rgb(16, 32, 48)));
    assert_eq!(update.prompt_color, None);
    assert_eq!(update.window_title, Some("T".to_string()));
    assert_eq!(update.default_cwd, Some("/tmp".to_string()));
    assert_eq!(update.directory_color, Some(TerminalColor::from_rgb(0, 0, 255)));
    assert!(update.shortcuts.is_none());
    assert!(update.mode_definitions.is_none());
}

#[test]
fn shortcuts_need_key_and_command() {
    let keys = table(vec![
        positional(vec![named("key", "F5"), named("cmd", "ls")]),
        positional(vec![named("key", "F6")]),
        positional(vec![named("key", "F7"), named("action", "pwd")]),
    ]);
    let update = config_update_from(&vec![assign("keys", keys)]);
    let shortcuts = update.shortcuts.unwrap();
    assert_eq!(shortcuts.len(), 2);
    assert_eq!((shortcuts[0].key.as_str(), shortcuts[0].cmd.as_str()), ("F5", "ls"));
    assert_eq!((shortcuts[1].key.as_str(), shortcuts[1].cmd.as_str()), ("F7", "pwd"));
}
