use sticky_one::config::{
    config_path, db_path, log_path, parse_key, parse_modifier, pid_path, Config, HotkeyConfig,
    KEY_A, KEY_C, KEY_ENTER, KEY_ESC, KEY_F12, KEY_LEFTALT, KEY_LEFTCTRL, KEY_LEFTMETA,
    KEY_LEFTSHIFT, KEY_RIGHTALT, KEY_Z, KEY_0, KEY_9, KEY_SPACE,
};

#[test]
fn default_config_has_hotkey() {
    let c = Config::default();
    assert_eq!(c.hotkey.key, "C");
    assert!(c.hotkey.modifiers.contains(&"Alt".to_string()));
    assert!(c.hotkey.modifiers.contains(&"Shift".to_string()));
}

#[test]
fn parse_key_letters() {
    assert_eq!(parse_key("A"), Some(KEY_A));
    assert_eq!(parse_key("z"), Some(KEY_Z));
}

#[test]
fn parse_key_invalid() {
    assert_eq!(parse_key("INVALID"), None);
}

#[test]
fn parse_modifier_variants() {
    assert_eq!(parse_modifier("alt"), Some(KEY_LEFTALT));
    assert_eq!(parse_modifier("Shift"), Some(KEY_LEFTSHIFT));
    assert_eq!(parse_modifier("ctrl"), Some(KEY_LEFTCTRL));
    assert_eq!(parse_modifier("super"), Some(KEY_LEFTMETA));
    assert_eq!(parse_modifier("garbage"), None);
}

#[test]
fn hotkey_config_modifier_keys() {
    let hk = HotkeyConfig::default();
    let mods = hk.modifier_keys();
    assert!(mods.contains(&KEY_LEFTALT));
    assert!(mods.contains(&KEY_LEFTSHIFT));
}

#[test]
fn hotkey_config_trigger_key() {
    let hk = HotkeyConfig::default();
    assert_eq!(hk.trigger_key(), Some(KEY_C));
}

#[test]
fn key_codes_match_input_event_codes() {
    assert_eq!(KEY_A, 30);
    assert_eq!(KEY_C, 46);
    assert_eq!(KEY_LEFTALT, 56);
    assert_eq!(KEY_LEFTSHIFT, 42);
}

#[test]
fn parse_key_names() {
    assert_eq!(parse_key("0"), Some(KEY_0));
    assert_eq!(parse_key("9"), Some(KEY_9));
    assert_eq!(parse_key("space"), Some(KEY_SPACE));
    assert_eq!(parse_key("Return"), Some(KEY_ENTER));
    assert_eq!(parse_key("esc"), Some(KEY_ESC));
    assert_eq!(parse_key("f12"), Some(KEY_F12));
    assert_eq!(parse_key("F13"), None);
    assert_eq!(parse_key(""), None);
}

#[test]
fn parse_modifier_more_names() {
    assert_eq!(parse_modifier("ALTGR"), Some(KEY_RIGHTALT));
    assert_eq!(parse_modifier("Control"), Some(KEY_LEFTCTRL));
    assert_eq!(parse_modifier("WIN"), Some(KEY_LEFTMETA));
    assert_eq!(parse_modifier("alt "), None);
}

#[test]
fn modifier_keys_dedup_and_skip_unknown() {
    let hk = HotkeyConfig {
        modifiers: vec!["alt".into(), "Alt".into(), "left_alt".into(), "bogus".into(), "ctrl".into()],
        key: "x".into(),
    };
    let mods = hk.modifier_keys();
    assert_eq!(mods.len(), 2);
    assert!(mods.contains(&KEY_LEFTALT));
    assert!(mods.contains(&KEY_LEFTCTRL));
}

#[test]
fn file_locations() {
    assert!(db_path().ends_with("/clipboard.db") || db_path() == "clipboard.db");
    assert!(pid_path().ends_with("daemon.pid"));
    assert!(config_path().ends_with("config.toml"));
    assert!(log_path().ends_with("daemon.log"));
}
