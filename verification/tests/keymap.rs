//! Keys and what they are bound to.

use clhorde::actions::InteractAction;
use clhorde::keymap::{apply_bindings, key_display, parse_key, KeyBindings, KeyCode};

#[test]
fn parse_key_special_names() {
    assert_eq!(parse_key("Enter"), Some(KeyCode::Enter));
    assert_eq!(parse_key("Esc"), Some(KeyCode::Esc));
    assert_eq!(parse_key("Tab"), Some(KeyCode::Tab));
    assert_eq!(parse_key("Backspace"), Some(KeyCode::Backspace));
    assert_eq!(parse_key("Up"), Some(KeyCode::Up));
    assert_eq!(parse_key("Down"), Some(KeyCode::Down));
    assert_eq!(parse_key("Left"), Some(KeyCode::Left));
    assert_eq!(parse_key("Right"), Some(KeyCode::Right));
    assert_eq!(parse_key("Space"), Some(KeyCode::Char(' ')));
}

#[test]
fn parse_key_single_chars() {
    assert_eq!(parse_key("q"), Some(KeyCode::Char('q')));
    assert_eq!(parse_key("i"), Some(KeyCode::Char('i')));
    assert_eq!(parse_key("+"), Some(KeyCode::Char('+')));
    assert_eq!(parse_key("/"), Some(KeyCode::Char('/')));
    assert_eq!(parse_key("K"), Some(KeyCode::Char('K')));
}

#[test]
fn parse_key_invalid() {
    assert_eq!(parse_key(""), None);
    assert_eq!(parse_key("Unknown"), None);
    assert_eq!(parse_key("Ctrl+A"), None);
    assert_eq!(parse_key("ab"), None);
}

#[test]
fn key_display_roundtrip() {
    let names = [
        "Enter", "Esc", "Tab", "Backspace", "Up", "Down", "Left", "Right", "Space",
        "q", "i", "+", "/",
    ];
    for name in names {
        let kc = parse_key(name).unwrap();
        assert_eq!(key_display(&kc), name, "roundtrip failed for {name}");
    }
}

#[test]
fn apply_bindings_removes_old_keys() {
    let mut map = KeyBindings::new();
    map.insert(KeyCode::Char('q'), InteractAction::Back);
    map.insert(KeyCode::Char('i'), InteractAction::Send);

    apply_bindings(&mut map, InteractAction::Back, Some(vec!["x".to_string()]));

    assert_eq!(map.get(&KeyCode::Char('q')), None);
    assert_eq!(map.get(&KeyCode::Char('x')), Some(&InteractAction::Back));
    assert_eq!(map.get(&KeyCode::Char('i')), Some(&InteractAction::Send));
}

#[test]
fn apply_bindings_none_keeps_defaults() {
    let mut map = KeyBindings::new();
    map.insert(KeyCode::Char('q'), InteractAction::Back);

    apply_bindings(&mut map, InteractAction::Back, None);

    assert_eq!(map.get(&KeyCode::Char('q')), Some(&InteractAction::Back));
}
