use qdeck::action::ActionConfig;
use qdeck::adapter::button_to_action_config;
use qdeck::adapter::find_action_config;
use qdeck::config::ActionButton;
use qdeck::config::ActionType;
use qdeck::config::ConfigValue;
use qdeck::config::Page;
use qdeck::config::Position;
use qdeck::config::Profile;
use qdeck::config::QDeckConfig;

fn button(action_type: ActionType, config: Vec<(String, ConfigValue)>) -> ActionButton {
    ActionButton {
        position: Position { row: 1, col: 1 },
        action_type,
        label: String::from("Button"),
        icon: None,
        config,
        style: None,
        action: None,
    }
}

#[test]
fn launch_buttons_convert_with_all_fields() {
    let config = vec![
        (String::from("path"), ConfigValue::Str(String::from("C:\\tool.exe"))),
        (
            String::from("args"),
            ConfigValue::List(vec![
                ConfigValue::Str(String::from("-a")),
                ConfigValue::UInt(3),
                ConfigValue::Str(String::from("-b")),
            ]),
        ),
        (String::from("workdir"), ConfigValue::Str(String::from("C:\\work"))),
        (
            String::from("env"),
            ConfigValue::Object(vec![
                (String::from("K"), ConfigValue::Str(String::from("V"))),
                (String::from("skipped"), ConfigValue::UInt(1)),
            ]),
        ),
    ];
    match button_to_action_config(&button(ActionType::LaunchApp, config)).unwrap() {
        ActionConfig::LaunchApp { path, args, workdir, env } => {
            assert_eq!(path, "C:\\tool.exe");
            assert_eq!(args, Some(vec![String::from("-a"), String::from("-b")]));
            assert_eq!(workdir.as_deref(), Some("C:\\work"));
            assert_eq!(env, Some(vec![(String::from("K"), String::from("V"))]));
        }
        _ => panic!("a launch button must convert to a launch description"),
    }
}

#[test]
fn conversion_requires_the_mandatory_key() {
    let missing = button(ActionType::LaunchApp, vec![]);
    assert!(button_to_action_config(&missing).is_none());

    let wrong_shape = button(
        ActionType::Open,
        vec![(String::from("target"), ConfigValue::UInt(3))],
    );
    assert!(button_to_action_config(&wrong_shape).is_none());

    let unimplemented = button(
        ActionType::SendKeys,
        vec![(String::from("keys"), ConfigValue::Str(String::from("abc")))],
    );
    assert!(button_to_action_config(&unimplemented).is_none());
}

#[test]
fn open_and_terminal_buttons_convert() {
    let open = button(
        ActionType::Open,
        vec![
            (String::from("target"), ConfigValue::Str(String::from("C:\\f.txt"))),
            (String::from("verb"), ConfigValue::Str(String::from("edit"))),
        ],
    );
    match button_to_action_config(&open).unwrap() {
        ActionConfig::Open { target, verb } => {
            assert_eq!(target, "C:\\f.txt");
            assert_eq!(verb.as_deref(), Some("edit"));
        }
        _ => panic!("an open button must convert to an open description"),
    }

    let terminal = button(
        ActionType::Terminal,
        vec![
            (String::from("terminal"), ConfigValue::Str(String::from("wt"))),
            (String::from("command"), ConfigValue::Str(String::from("dir"))),
        ],
    );
    match button_to_action_config(&terminal).unwrap() {
        ActionConfig::Terminal { terminal, profile, workdir, command, env, args } => {
            assert_eq!(terminal, "wt");
            assert!(profile.is_none());
            assert!(workdir.is_none());
            assert_eq!(command.as_deref(), Some("dir"));
            assert!(env.is_none());
            assert!(args.is_none());
        }
        _ => panic!("a terminal button must convert to a terminal description"),
    }
}

#[test]
fn composite_buttons_convert_their_items_recursively() {
    let item = ConfigValue::Object(vec![
        (String::from("action_type"), ConfigValue::Str(String::from("Open"))),
        (
            String::from("config"),
            ConfigValue::Object(vec![(
                String::from("target"),
                ConfigValue::Str(String::from("C:\\f.txt")),
            )]),
        ),
    ]);
    let skipped_item = ConfigValue::Object(vec![
        (String::from("action_type"), ConfigValue::Str(String::from("Open"))),
        (String::from("config"), ConfigValue::Object(vec![])),
    ]);
    let config = vec![
        (
            String::from("actions"),
            ConfigValue::List(vec![item, ConfigValue::UInt(1), skipped_item]),
        ),
        (String::from("delay_between_ms"), ConfigValue::UInt(5)),
        (String::from("stop_on_error"), ConfigValue::Bool(false)),
    ];
    match button_to_action_config(&button(ActionType::MultiAction, config)).unwrap() {
        ActionConfig::MultiAction { actions, delay_between_ms, stop_on_error } => {
            assert_eq!(actions.len(), 1);
            match &actions[0] {
                ActionConfig::Open { target, verb } => {
                    assert_eq!(target, "C:\\f.txt");
                    assert!(verb.is_none());
                }
                _ => panic!("the nested item converts to an open description"),
            }
            assert_eq!(delay_between_ms, Some(5));
            assert_eq!(stop_on_error, Some(false));
        }
        _ => panic!("a composite button must convert to a composite description"),
    }
}

#[test]
fn malformed_composite_items_fail_the_whole_conversion() {
    let bad_item = ConfigValue::Object(vec![(
        String::from("action_type"),
        ConfigValue::Str(String::from("NoSuchType")),
    )]);
    let config = vec![(String::from("actions"), ConfigValue::List(vec![bad_item]))];
    assert!(button_to_action_config(&button(ActionType::MultiAction, config)).is_none());
}

#[test]
fn actions_are_found_by_identifier_or_label() {
    let mut b = button(
        ActionType::Open,
        vec![(String::from("target"), ConfigValue::Str(String::from("C:\\f.txt")))],
    );
    b.label = String::from("Open Notes");
    b.position = Position { row: 2, col: 3 };
    let config = QDeckConfig {
        version: String::from("1.0"),
        ui: QDeckConfig::default().ui,
        profiles: vec![Profile {
            name: String::from("Main"),
            hotkey: None,
            pages: vec![Page {
                name: String::from("Home"),
                rows: 3,
                cols: 4,
                buttons: vec![b],
            }],
        }],
    };

    match find_action_config(&config, "Main:Home:2:3").unwrap() {
        ActionConfig::Open { target, .. } => assert_eq!(target, "C:\\f.txt"),
        _ => panic!("the identifier addresses the open button"),
    }
    match find_action_config(&config, "Open Notes").unwrap() {
        ActionConfig::Open { target, .. } => assert_eq!(target, "C:\\f.txt"),
        _ => panic!("the label addresses the open button"),
    }
    assert!(find_action_config(&config, "Main:Home:9:9").is_none());
    assert!(find_action_config(&config, "Nobody").is_none());
}
