use qdeck::config::ActionButton;
use qdeck::config::ActionType;
use qdeck::config::ConfigError;
use qdeck::config::ConfigManager;
use qdeck::config::Page;
use qdeck::config::Position;
use qdeck::config::QDeckConfig;

fn manager_for(config: QDeckConfig) -> ConfigManager {
    ConfigManager::with_config(String::from("test.yaml"), config)
}

#[test]
fn test_default_config_validation() {
    let config = QDeckConfig::default();
    let manager = manager_for(QDeckConfig::default());

    assert!(manager.validate_config(&config).is_ok());
}

#[test]
fn test_invalid_config_validation() {
    let mut config = QDeckConfig::default();
    config.ui.window.width_px = 0;

    let manager = manager_for(QDeckConfig::default());

    assert!(manager.validate_config(&config).is_err());
}

#[test]
fn each_validation_rule_rejects_its_input() {
    let manager = manager_for(QDeckConfig::default());

    let mut c = QDeckConfig::default();
    c.version = String::new();
    assert_eq!(manager.validate_config(&c), Err(ConfigError::EmptyVersion));

    let mut c = QDeckConfig::default();
    c.ui.window.height_px = 0;
    assert_eq!(manager.validate_config(&c), Err(ConfigError::ZeroWindowDimensions));

    let mut c = QDeckConfig::default();
    c.ui.window.opacity_per_mille = 1001;
    assert_eq!(manager.validate_config(&c), Err(ConfigError::OpacityOutOfRange));

    let mut c = QDeckConfig::default();
    c.profiles.clear();
    assert_eq!(manager.validate_config(&c), Err(ConfigError::NoProfiles));

    let mut c = QDeckConfig::default();
    c.profiles[0].name = String::new();
    assert_eq!(manager.validate_config(&c), Err(ConfigError::EmptyProfileName));

    let mut c = QDeckConfig::default();
    c.profiles[0].pages.clear();
    assert_eq!(manager.validate_config(&c), Err(ConfigError::ProfileWithoutPages));

    let mut c = QDeckConfig::default();
    c.profiles[0].pages[0].name = String::new();
    assert_eq!(manager.validate_config(&c), Err(ConfigError::EmptyPageName));

    let mut c = QDeckConfig::default();
    c.profiles[0].pages[0].rows = 0;
    assert_eq!(manager.validate_config(&c), Err(ConfigError::ZeroPageDimensions));

    let mut c = QDeckConfig::default();
    c.profiles[0].pages[0].buttons.push(ActionButton {
        position: Position { row: 9, col: 1 },
        action_type: ActionType::Open,
        label: String::from("b"),
        icon: None,
        config: vec![],
        style: None,
        action: None,
    });
    assert_eq!(manager.validate_config(&c), Err(ConfigError::ButtonOutOfBounds));

    let mut c = QDeckConfig::default();
    c.profiles[0].pages[0].buttons.push(ActionButton {
        position: Position { row: 1, col: 1 },
        action_type: ActionType::Open,
        label: String::new(),
        icon: None,
        config: vec![],
        style: None,
        action: None,
    });
    assert_eq!(manager.validate_config(&c), Err(ConfigError::EmptyButtonLabel));
}

#[test]
fn update_config_keeps_the_old_document_on_rejection() {
    let mut manager = manager_for(QDeckConfig::default());
    let mut bad = QDeckConfig::default();
    bad.profiles.clear();
    assert!(manager.update_config(bad).is_err());
    assert_eq!(manager.get_config().profiles.len(), 1);

    let mut good = QDeckConfig::default();
    good.version = String::from("2.0");
    assert!(manager.update_config(good).is_ok());
    assert_eq!(manager.get_config().version, "2.0");
}

#[test]
fn default_document_has_the_expected_shape() {
    let c = QDeckConfig::default();
    assert_eq!(c.version, "1.0");
    assert_eq!(c.profiles.len(), 1);
    assert_eq!(c.profiles[0].name, "Default");
    assert_eq!(c.profiles[0].pages.len(), 1);
    assert_eq!(c.profiles[0].pages[0].name, "Main");
    assert_eq!(c.profiles[0].pages[0].rows, 3);
    assert_eq!(c.profiles[0].pages[0].cols, 6);
    assert_eq!(c.ui.window.width_px, 1000);
    assert_eq!(c.ui.window.height_px, 600);
    assert_eq!(c.ui.window.opacity_per_mille, 920);
    assert_eq!(c.ui.summon.hotkeys, vec![String::from("F11")]);
}

#[test]
fn page_defaults_match_the_document_defaults() {
    let p = Page::default();
    assert_eq!(p.name, "Main");
    assert_eq!(p.rows, 3);
    assert_eq!(p.cols, 6);
    assert!(p.buttons.is_empty());
}
