//! Bindings in the configuration, changed from the command line.

use clhorde::cli::keys::{action_names_for_mode, reset_toml_action, set_toml_action};
use clhorde::keymap::TomlConfig;

#[test]
fn action_names_for_all_modes() {
    assert!(action_names_for_mode("normal").is_some());
    assert!(action_names_for_mode("insert").is_some());
    assert!(action_names_for_mode("view").is_some());
    assert!(action_names_for_mode("interact").is_some());
    assert!(action_names_for_mode("filter").is_some());
    assert!(action_names_for_mode("bogus").is_none());
}

#[test]
fn set_toml_action_normal() {
    let mut config = TomlConfig::default();
    set_toml_action(&mut config, "normal", "quit", vec!["Q".into()]).unwrap();
    assert_eq!(config.normal.as_ref().unwrap().quit, Some(vec!["Q".into()]));
}

#[test]
fn set_toml_action_invalid_mode() {
    let mut config = TomlConfig::default();
    let err = set_toml_action(&mut config, "bogus", "quit", vec!["q".into()]);
    assert!(err.is_err());
}

#[test]
fn set_toml_action_invalid_action() {
    let mut config = TomlConfig::default();
    let err = set_toml_action(&mut config, "normal", "bogus", vec!["q".into()]);
    assert!(err.is_err());
}

#[test]
fn set_toml_action_all_modes() {
    let mut config = TomlConfig::default();
    set_toml_action(&mut config, "insert", "cancel", vec!["Esc".into()]).unwrap();
    assert_eq!(
        config.insert.as_ref().unwrap().cancel,
        Some(vec!["Esc".into()])
    );

    set_toml_action(&mut config, "view", "back", vec!["Esc".into(), "q".into()]).unwrap();
    assert_eq!(
        config.view.as_ref().unwrap().back,
        Some(vec!["Esc".into(), "q".into()])
    );

    set_toml_action(&mut config, "interact", "send", vec!["Enter".into()]).unwrap();
    assert_eq!(
        config.interact.as_ref().unwrap().send,
        Some(vec!["Enter".into()])
    );

    set_toml_action(&mut config, "filter", "confirm", vec!["Enter".into()]).unwrap();
    assert_eq!(
        config.filter.as_ref().unwrap().confirm,
        Some(vec!["Enter".into()])
    );
}

#[test]
fn reset_toml_action_single() {
    let mut config = TomlConfig::default();
    set_toml_action(&mut config, "normal", "quit", vec!["Q".into()]).unwrap();
    assert!(config.normal.as_ref().unwrap().quit.is_some());

    reset_toml_action(&mut config, "normal", Some("quit")).unwrap();
    assert!(config.normal.as_ref().unwrap().quit.is_none());
}

#[test]
fn reset_toml_action_whole_mode() {
    let mut config = TomlConfig::default();
    set_toml_action(&mut config, "normal", "quit", vec!["Q".into()]).unwrap();
    assert!(config.normal.is_some());

    reset_toml_action(&mut config, "normal", None).unwrap();
    assert!(config.normal.is_none());
}

#[test]
fn reset_toml_action_invalid_mode() {
    let mut config = TomlConfig::default();
    let err = reset_toml_action(&mut config, "bogus", None);
    assert!(err.is_err());
}

#[test]
fn reset_toml_action_invalid_action() {
    let mut config = TomlConfig::default();
    let err = reset_toml_action(&mut config, "normal", Some("bogus"));
    assert!(err.is_err());
}
