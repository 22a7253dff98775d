use axiomterm::input::Action;
use axiomterm::lua_bridge::{parse_action_table, LuaEngine, MacroError, MacroMetrics};

#[test]
fn test_macro_resolution() {
    let mut engine = LuaEngine::new();
    let script = r#"
            axiom.macros.test_macro = function()
                return { "InsertChar(A)", "Submit" }
            end
        "#;
    engine.load_config(script).expect("Failed to define macro");

    let actions = engine.resolve_macro("test_macro").expect("Macro resolution failed");
    assert_eq!(actions.len(), 2);
    assert_eq!(actions[0], Action::AppendChar('A'));
    assert_eq!(actions[1], Action::Submit);
}

#[test]
fn test_macro_not_found() {
    let mut engine = LuaEngine::new();
    let result = engine.resolve_macro("nonexistent");
    assert!(result.is_err());
    match result {
        Err(MacroError::NotFound(name)) => assert_eq!(name, "nonexistent"),
        _ => panic!("Expected NotFound error"),
    }
}

#[test]
fn test_list_macros() {
    let engine = LuaEngine::new();
    let script = r#"
            axiom.macros.macro1 = function() return {} end
            axiom.macros.macro2 = function() return {} end
        "#;
    engine.load_config(script).expect("Failed to define macros");

    let macros = engine.list_macros();
    assert_eq!(macros.len(), 2);
    assert!(macros.contains(&"macro1".to_string()));
    assert!(macros.contains(&"macro2".to_string()));
}

#[test]
fn test_validate_macro() {
    let engine = LuaEngine::new();
    let script = r#"
            axiom.macros.valid_macro = function() return {} end
        "#;
    engine.load_config(script).expect("Failed to define macro");

    assert!(engine.validate_macro("valid_macro").is_ok());
    assert!(engine.validate_macro("invalid_macro").is_err());
}

#[test]
fn test_macro_metrics() {
    let mut engine = LuaEngine::new();
    let script = r#"
            axiom.macros.test_macro = function()
                return { "Submit", "Clear" }
            end
        "#;
    engine.load_config(script).expect("Failed to define macro");

    let _ = engine.resolve_macro("test_macro");
    let _ = engine.resolve_macro("test_macro");

    let invocation = engine.metrics.get("test_macro").expect("Metrics not recorded");
    assert_eq!(invocation.total_invocations, 2);
    assert_eq!(invocation.total_actions_emitted, 4);
    assert_eq!(invocation.max_actions_emitted, 2);
    assert!(invocation.last_error.is_none());
}

#[test]
fn test_macro_metrics_error() {
    let mut engine = LuaEngine::new();
    let _ = engine.resolve_macro("nonexistent");

    let invocation = engine.metrics.get("nonexistent").expect("Error not recorded");
    assert_eq!(invocation.total_invocations, 1);
    assert_eq!(invocation.total_actions_emitted, 0);
    assert!(invocation.last_error.is_some());
}

#[test]
fn macro_returning_non_table_is_invalid() {
    let mut engine = LuaEngine::new();
    engine.load_config("axiom.macros.bad = function() return 5 end").unwrap();
    match engine.resolve_macro("bad") {
        Err(MacroError::InvalidReturnType(name)) => assert_eq!(name, "bad"),
        other => panic!("unexpected {:?}", other),
    }
}

#[test]
fn macro_with_unknown_action_fails_whole() {
    let mut engine = LuaEngine::new();
    engine
        .load_config("axiom.macros.m = function() return { \"Submit\", \"Jump\" } end")
        .unwrap();
    match engine.resolve_macro("m") {
        Err(MacroError::ActionParseError { macro_name, value }) => {
            assert_eq!(macro_name, "m");
            assert_eq!(value, "Jump");
        }
        other => panic!("unexpected {:?}", other),
    }
    let rec = engine.metrics.get("m").unwrap();
    assert_eq!(rec.total_invocations, 1);
    assert_eq!(rec.total_actions_emitted, 0);
}

#[test]
fn failing_script_reports_error() {
    let engine = LuaEngine::new();
    assert!(engine.load_config("this is not lua").is_err());
}

#[test]
fn parse_action_table_skips_non_strings() {
    let entries = vec![Some("Clear".to_string()), None, Some("x".to_string())];
    let actions = parse_action_table("m", &entries).unwrap();
    assert_eq!(actions, vec![Action::Clear, Action::AppendChar('x')]);
}

#[test]
fn parse_action_table_limit() {
    let entries: Vec<Option<String>> = (0..101).map(|_| Some("NoOp".to_string())).collect();
    match parse_action_table("flood", &entries) {
        Err(MacroError::ActionLimitExceeded { macro_name, limit }) => {
            assert_eq!(macro_name, "flood");
            assert_eq!(limit, 100);
        }
        other => panic!("unexpected {:?}", other),
    }
    let entries: Vec<Option<String>> = (0..100).map(|_| Some("NoOp".to_string())).collect();
    assert_eq!(parse_action_table("ok", &entries).unwrap().len(), 100);
}

#[test]
fn metrics_two_successes_then_error() {
    let mut m = MacroMetrics::new();
    m.record_success("a", 2);
    m.record_success("a", 2);
    let rec = m.get("a").unwrap();
    assert_eq!(rec.total_invocations, 2);
    assert_eq!(rec.total_actions_emitted, 4);
    assert!(rec.last_error.is_none());
    m.record_error("a", MacroError::NotFound("a".to_string()));
    m.record_success("b", 5);
    let rec = m.get("a").unwrap();
    assert_eq!(rec.total_invocations, 3);
    assert_eq!(rec.total_actions_emitted, 4);
    assert_eq!(rec.max_actions_emitted, 2);
    assert!(rec.last_error.is_some());
    let all = m.snapshot();
    assert_eq!(all.len(), 2);
    assert_eq!(all[0].macro_name, "a");
    assert_eq!(all[1].macro_name, "b");
    assert_eq!(all[1].max_actions_emitted, 5);
    assert!(m.get("c").is_none());
}

#[test]
fn error_messages() {
    assert_eq!(MacroError::NotFound("m".to_string()).message(), "Macro 'm' is not defined");
    assert_eq!(
        MacroError::InvalidReturnType("m".to_string()).message(),
        "Macro 'm' must return a list of Actions"
    );
    assert_eq!(
        MacroError::ActionParseError { macro_name: "m".to_string(), value: "Jump".to_string() }.message(),
        "Invalid action 'Jump' in macro 'm'"
    );
    assert_eq!(
        MacroError::ActionLimitExceeded { macro_name: "m".to_string(), limit: 100 }.message(),
        "Macro 'm' exceeded max actions (100)"
    );
}
