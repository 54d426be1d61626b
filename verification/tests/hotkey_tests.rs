use qdeck::hotkey::HotkeyConfig;
use qdeck::hotkey::HotkeyService;
use qdeck::hotkey::MOD_ALT;
use qdeck::hotkey::MOD_CONTROL;
use qdeck::hotkey::VK_ESCAPE;

#[test]
fn test_parse_hotkey_string() {
    let service = HotkeyService::new().unwrap();

    let parsed = service.parse_hotkey_string("Ctrl+Alt+F1").unwrap();
    assert_eq!(parsed.modifiers, MOD_CONTROL | MOD_ALT);
    assert_eq!(parsed.vk_code, 0x70);

    let parsed = service.parse_hotkey_string("F12").unwrap();
    assert_eq!(parsed.modifiers, 0);
    assert_eq!(parsed.vk_code, 0x7B);

    let parsed = service.parse_hotkey_string("Ctrl+A").unwrap();
    assert_eq!(parsed.modifiers, MOD_CONTROL);
    assert_eq!(parsed.vk_code, 'A' as u32);
}

#[test]
fn test_parse_key_code() {
    let service = HotkeyService::new().unwrap();

    assert_eq!(service.parse_key_code("F1").unwrap(), 0x70);
    assert_eq!(service.parse_key_code("A").unwrap(), 'A' as u32);
    assert_eq!(service.parse_key_code("escape").unwrap(), VK_ESCAPE);
    assert_eq!(service.parse_key_code("space").unwrap(), 0x20);

    assert_eq!(service.parse_key_code("f1").unwrap(), 0x70);
    assert_eq!(service.parse_key_code("a").unwrap(), 'A' as u32);
}

#[test]
fn test_build_hotkey_string() {
    let service = HotkeyService::new().unwrap();

    let modifiers = vec![String::from("Ctrl"), String::from("Alt")];
    let result = service.build_hotkey_string(&modifiers, "F1");
    assert_eq!(result, "Ctrl+Alt+F1");

    let no_modifiers: Vec<String> = vec![];
    let result = service.build_hotkey_string(&no_modifiers, "F1");
    assert_eq!(result, "F1");
}

#[test]
fn test_hotkey_config() {
    let config = HotkeyConfig {
        id: 1,
        modifiers: vec![String::from("Ctrl"), String::from("Shift")],
        key: String::from("F1"),
        action: String::from("show_overlay"),
    };

    assert_eq!(config.id, 1);
    assert_eq!(config.modifiers.len(), 2);
    assert_eq!(config.key, "F1");
    assert_eq!(config.action, "show_overlay");
}

#[test]
fn unknown_tokens_are_rejected() {
    let service = HotkeyService::new().unwrap();
    assert!(service.parse_hotkey_string("Hyper+F1").is_err());
    assert!(service.parse_key_code("nosuchkey").is_err());
    assert!(service.parse_hotkey_string("Ctrl+nosuchkey").is_err());
}

#[test]
fn registration_hands_out_consecutive_identifiers() {
    let mut service = HotkeyService::new().unwrap();
    let a = service.register_hotkey("Ctrl+F1", String::from("show_overlay")).unwrap();
    let b = service.register_hotkey("Alt+F2", String::from("hide_overlay")).unwrap();
    assert_eq!(a, 1);
    assert_eq!(b, 2);
    let registered = service.get_registered_hotkeys();
    assert_eq!(registered.len(), 2);
    assert_eq!(registered[0].action, "show_overlay");
    assert_eq!(registered[1].action, "hide_overlay");

    assert!(service.register_hotkey("NoSuchMod+X", String::from("x")).is_err());
    assert_eq!(service.get_registered_hotkeys().len(), 2);

    service.unregister_hotkey(a).unwrap();
    let registered = service.get_registered_hotkeys();
    assert_eq!(registered.len(), 1);
    assert_eq!(registered[0].id, b);
    assert!(service.unregister_hotkey(a).is_err());
}

#[test]
fn multiple_registration_skips_bad_entries() {
    let mut service = HotkeyService::new().unwrap();
    let configs = vec![
        HotkeyConfig {
            id: 0,
            modifiers: vec![String::from("Ctrl")],
            key: String::from("F1"),
            action: String::from("one"),
        },
        HotkeyConfig {
            id: 0,
            modifiers: vec![String::from("NoSuchMod")],
            key: String::from("F2"),
            action: String::from("two"),
        },
        HotkeyConfig {
            id: 0,
            modifiers: vec![],
            key: String::from("F3"),
            action: String::from("three"),
        },
    ];
    let ids = service.register_multiple_hotkeys(configs).unwrap();
    assert_eq!(ids, vec![1, 2]);
    assert_eq!(service.get_registered_hotkeys().len(), 2);
}

#[test]
fn whitespace_around_tokens_is_trimmed() {
    let service = HotkeyService::new().unwrap();
    let parsed = service.parse_hotkey_string(" Ctrl + Alt + F1 ").unwrap();
    assert_eq!(parsed.modifiers, MOD_CONTROL | MOD_ALT);
    assert_eq!(parsed.vk_code, 0x70);
}
