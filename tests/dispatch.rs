use axiomterm::input::{
    map_input, Action, BindingTarget, InputEvent, KeyBinding, ModeDefinition, TerminalMode,
};

fn key(code: &str) -> InputEvent {
    InputEvent::Key { code: code.to_string(), ctrl: false, alt: false, shift: false }
}

fn bind(code: &str, action: Action) -> KeyBinding {
    KeyBinding { event: key(code), target: BindingTarget::Action(action) }
}

fn definitions() -> Vec<ModeDefinition> {
    vec![
        ModeDefinition {
            mode: TerminalMode::Insert,
            bindings: vec![
                bind("Enter", Action::Submit),
                bind("Backspace", Action::Backspace),
                KeyBinding { event: key("F1"), target: BindingTarget::Macro("help".to_string()) },
            ],
        },
        ModeDefinition {
            mode: TerminalMode::Normal,
            bindings: vec![bind("x", Action::Clear), bind("x", Action::NoOp), bind("Left", Action::MoveCursor(0, -1))],
        },
        ModeDefinition { mode: TerminalMode::Normal, bindings: vec![bind("y", Action::Submit)] },
    ]
}

#[test]
fn first_matching_binding_wins_every_time() {
    let defs = definitions();
    for _ in 0..3 {
        let r = map_input(&key("x"), &TerminalMode::Normal, &defs);
        assert_eq!(r, vec![BindingTarget::Action(Action::Clear)]);
    }
}

#[test]
fn only_first_definition_of_a_mode_is_used() {
    let defs = definitions();
    assert!(map_input(&key("y"), &TerminalMode::Normal, &defs).is_empty());
}

#[test]
fn insert_mode_text_fallback_one_action_per_char() {
    let defs = definitions();
    let r = map_input(&InputEvent::Text("hé!".to_string()), &TerminalMode::Insert, &defs);
    assert_eq!(
        r,
        vec![
            BindingTarget::Action(Action::AppendChar('h')),
            BindingTarget::Action(Action::AppendChar('é')),
            BindingTarget::Action(Action::AppendChar('!')),
        ]
    );
}

#[test]
fn no_fallback_outside_insert_mode() {
    let defs = definitions();
    assert!(map_input(&InputEvent::Text("a".to_string()), &TerminalMode::Normal, &defs).is_empty());
    assert!(map_input(&key("q"), &TerminalMode::Insert, &defs).is_empty());
    assert!(map_input(&key("x"), &TerminalMode::Visual, &defs).is_empty());
}

#[test]
fn insert_mode_suppresses_native_editing_but_not_macros() {
    let defs = definitions();
    assert!(map_input(&key("Backspace"), &TerminalMode::Insert, &defs).is_empty());
    assert_eq!(
        map_input(&key("F1"), &TerminalMode::Insert, &defs),
        vec![BindingTarget::Macro("help".to_string())]
    );
    assert_eq!(
        map_input(&key("Enter"), &TerminalMode::Insert, &defs),
        vec![BindingTarget::Action(Action::Submit)]
    );
    assert_eq!(
        map_input(&key("Left"), &TerminalMode::Normal, &defs),
        vec![BindingTarget::Action(Action::MoveCursor(0, -1))]
    );
}

#[test]
fn modifiers_take_part_in_matching() {
    let defs = definitions();
    let ctrl_enter = InputEvent::Key { code: "Enter".to_string(), ctrl: true, alt: false, shift: false };
    assert!(map_input(&ctrl_enter, &TerminalMode::Insert, &defs).is_empty());
}

#[test]
fn action_literals() {
    assert_eq!(Action::from_str("Backspace"), Some(Action::Backspace));
    assert_eq!(Action::from_str("Delete"), Some(Action::Delete));
    assert_eq!(Action::from_str("Enter"), Some(Action::Submit));
    assert_eq!(Action::from_str("Submit"), Some(Action::Submit));
    assert_eq!(Action::from_str("Clear"), Some(Action::Clear));
    assert_eq!(Action::from_str("NoOp"), Some(Action::NoOp));
    assert_eq!(Action::from_str("ChangeMode(Normal)"), Some(Action::ChangeMode(TerminalMode::Normal)));
    assert_eq!(
        Action::from_str("ChangeMode(Search)"),
        Some(Action::ChangeMode(TerminalMode::Custom("Search".to_string())))
    );
    assert_eq!(
        Action::from_str("RunCommand(config load)"),
        Some(Action::RunCommand("config load".to_string()))
    );
    assert_eq!(Action::from_str("InsertChar(Zed)"), Some(Action::AppendChar('Z')));
    assert_eq!(Action::from_str("InsertChar()"), None);
    assert_eq!(Action::from_str("q"), Some(Action::AppendChar('q')));
    assert_eq!(Action::from_str("é"), None);
    assert_eq!(Action::from_str(""), None);
    assert_eq!(Action::from_str("Jump"), None);
}

#[test]
fn mode_names() {
    assert_eq!(TerminalMode::from_str("INSERT"), Some(TerminalMode::Insert));
    assert_eq!(TerminalMode::from_str("Visual"), Some(TerminalMode::Visual));
    assert_eq!(TerminalMode::from_str("normal"), Some(TerminalMode::Custom("normal".to_string())));
    assert_eq!(TerminalMode::Insert.name(), "INSERT");
    assert_eq!(TerminalMode::Normal.name(), "NORMAL");
    assert_eq!(TerminalMode::Custom("Grep".to_string()).name(), "Grep");
    assert!(TerminalMode::Custom("a".to_string()) != TerminalMode::Custom("b".to_string()));
}
