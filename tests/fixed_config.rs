use axiomterm::fixed_config::{ConfigFile, FixedConfig};

#[test]
fn test_default_config() {
    let config = FixedConfig::default();
    assert_eq!(config.core.backend, "std");
    assert_eq!(config.core.renderer, "egui");
    assert_eq!(config.core.initial_mode, "insert");
    assert_eq!(config.security.lua_allow_io, false);
    assert_eq!(config.security.lua_allow_network, false);
    assert_eq!(config.window.initial_width, 800);
    assert_eq!(config.window.initial_height, 600);
    assert_eq!(config.window.transparent, true);
}

#[test]
fn test_validate_valid_config() {
    let config = FixedConfig::default();
    assert!(config.validate().is_ok());
}

#[test]
fn test_validate_invalid_backend() {
    let mut config = FixedConfig::default();
    config.core.backend = "invalid".to_string();
    assert!(config.validate().is_err());
}

#[test]
fn validate_messages() {
    let mut config = FixedConfig::default();
    config.core.backend = "invalid".to_string();
    assert_eq!(config.validate(), Err("Unknown backend: invalid".to_string()));
    config.core.backend = "wasm".to_string();
    assert_eq!(config.validate(), Err("WASM backend not yet implemented".to_string()));
    config.core.backend = "remote".to_string();
    assert_eq!(config.validate(), Err("Remote backend not yet implemented".to_string()));
    config.core.backend = "std".to_string();
    config.core.renderer = "headless".to_string();
    assert_eq!(config.validate(), Err("Headless renderer not yet implemented".to_string()));
    config.core.renderer = "tui".to_string();
    assert_eq!(config.validate(), Err("Unknown renderer: tui".to_string()));
    config.core.renderer = "egui".to_string();
    config.core.initial_mode = "visual".to_string();
    assert_eq!(config.validate(), Ok(()));
    config.core.initial_mode = "replace".to_string();
    assert_eq!(config.validate(), Err("Unknown initial mode: replace".to_string()));
}

#[test]
fn load_takes_first_file_found() {
    let mut custom = FixedConfig::default();
    custom.window.initial_width = 1024;
    let r = FixedConfig::load(vec![
        ConfigFile::Missing,
        ConfigFile::Loaded(custom),
        ConfigFile::Invalid("unused".to_string()),
    ]);
    assert_eq!(r.unwrap().window.initial_width, 1024);
}

#[test]
fn load_reports_unreadable_first_file() {
    let r = FixedConfig::load(vec![ConfigFile::Invalid("bad toml".to_string()), ConfigFile::Missing]);
    assert_eq!(r.err(), Some("bad toml".to_string()));
}

#[test]
fn load_defaults_without_files() {
    let r = FixedConfig::load(vec![ConfigFile::Missing, ConfigFile::Missing]).unwrap();
    assert_eq!(r.core.backend, "std");
    assert_eq!(r.window.initial_height, 600);
    let r = FixedConfig::load(Vec::new()).unwrap();
    assert_eq!(r.core.initial_mode, "insert");
}
