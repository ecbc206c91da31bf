use sticky_one::config::{HotkeyConfig, KEY_C, KEY_LEFTALT, KEY_LEFTSHIFT, KEY_V};
use sticky_one::hotkey::{is_event_node, key_transition, HotkeyListener};
use sticky_one::StickyError;

fn listener() -> HotkeyListener {
    let config = HotkeyConfig {
        modifiers: vec!["Alt".into(), "Shift".into()],
        key: "C".into(),
    };
    HotkeyListener::new(&config).unwrap()
}

#[test]
fn combo_fires_after_modifiers() {
    let mut l = listener();
    assert!(!l.on_key(KEY_LEFTALT, true));
    assert!(!l.on_key(KEY_LEFTSHIFT, true));
    assert!(l.on_key(KEY_C, true));
    assert!(!l.on_key(KEY_C, false));
}

#[test]
fn trigger_alone_does_not_fire() {
    let mut l = listener();
    assert!(!l.on_key(KEY_C, true));
}

#[test]
fn released_modifier_cancels() {
    let mut l = listener();
    assert!(!l.on_key(KEY_LEFTALT, true));
    assert!(!l.on_key(KEY_LEFTSHIFT, true));
    assert!(!l.on_key(KEY_LEFTSHIFT, false));
    assert!(!l.on_key(KEY_C, true));
    assert!(!l.on_key(KEY_LEFTSHIFT, true));
    assert!(!l.on_key(KEY_C, false));
    assert!(l.on_key(KEY_C, true));
}

#[test]
fn other_key_does_not_fire() {
    let mut l = listener();
    l.on_key(KEY_LEFTALT, true);
    l.on_key(KEY_LEFTSHIFT, true);
    assert!(!l.on_key(KEY_V, true));
}

#[test]
fn invalid_trigger_is_refused() {
    let config = HotkeyConfig { modifiers: vec!["Alt".into()], key: "nope".into() };
    match HotkeyListener::new(&config) {
        Err(e) => assert_eq!(e, StickyError::InvalidTriggerKey("nope".into())),
        Ok(_) => panic!("accepted an unknown trigger"),
    }
}

#[test]
fn no_modifier_is_refused() {
    let config = HotkeyConfig { modifiers: vec!["bogus".into()], key: "C".into() };
    match HotkeyListener::new(&config) {
        Err(e) => assert_eq!(e, StickyError::NoModifiers),
        Ok(_) => panic!("accepted a combo without modifiers"),
    }
}

#[test]
fn key_event_values() {
    assert_eq!(key_transition(1), Some(true));
    assert_eq!(key_transition(0), Some(false));
    assert_eq!(key_transition(2), None);
}

#[test]
fn event_node_names() {
    assert!(is_event_node("event0"));
    assert!(is_event_node("event12"));
    assert!(!is_event_node("mouse0"));
    assert!(!is_event_node("even"));
}
