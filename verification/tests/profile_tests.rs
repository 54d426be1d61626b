use qdeck::config::AnimationConfig;
use qdeck::config::Page;
use qdeck::config::Profile;
use qdeck::config::QDeckConfig;
use qdeck::config::SummonConfig;
use qdeck::config::UIConfig;
use qdeck::config::WindowConfig;
use qdeck::profile::ProfileManager;

fn create_test_config() -> QDeckConfig {
    QDeckConfig {
        version: String::from("1.0"),
        ui: UIConfig {
            summon: SummonConfig { hotkeys: vec![String::from("F11")], edge_trigger: None },
            window: WindowConfig {
                placement: String::from("dropdown-top"),
                width_px: 1000,
                height_px: 600,
                cell_size_px: 96,
                gap_px: 8,
                opacity_per_mille: 920,
                theme: String::from("dark"),
                animation: AnimationConfig { enabled: true, duration_ms: 150 },
            },
        },
        profiles: vec![
            Profile {
                name: String::from("Profile1"),
                hotkey: Some(String::from("Ctrl+1")),
                pages: vec![
                    Page { name: String::from("Page1"), rows: 3, cols: 4, buttons: vec![] },
                    Page { name: String::from("Page2"), rows: 2, cols: 3, buttons: vec![] },
                ],
            },
            Profile {
                name: String::from("Profile2"),
                hotkey: Some(String::from("Ctrl+2")),
                pages: vec![Page {
                    name: String::from("MainPage"),
                    rows: 4,
                    cols: 5,
                    buttons: vec![],
                }],
            },
        ],
    }
}

#[test]
fn test_profile_manager_creation() {
    let manager = ProfileManager::new().unwrap();
    assert_eq!(manager.state.current_profile_index, 0);
    assert_eq!(manager.state.current_page_index, 0);
}

#[test]
fn test_switch_to_profile() {
    let mut manager = ProfileManager::new().unwrap();
    let config = create_test_config();

    manager.initialize_from_config(&config).unwrap();

    let profile_info = manager.switch_to_profile(1, &config).unwrap();
    assert_eq!(profile_info.name, "Profile2");
    assert_eq!(profile_info.index, 1);
    assert_eq!(manager.state.current_profile_index, 1);
}

#[test]
fn test_switch_to_profile_by_name() {
    let mut manager = ProfileManager::new().unwrap();
    let config = create_test_config();

    manager.initialize_from_config(&config).unwrap();

    let profile_info = manager.switch_to_profile_by_name("Profile2", &config).unwrap();
    assert_eq!(profile_info.name, "Profile2");
    assert_eq!(profile_info.index, 1);
}

#[test]
fn test_page_navigation() {
    let mut manager = ProfileManager::new().unwrap();
    let config = create_test_config();

    manager.initialize_from_config(&config).unwrap();

    let page_info = manager.switch_to_page(1, &config).unwrap();
    assert_eq!(page_info.name, "Page2");
    assert_eq!(page_info.index, 1);

    let page_info = manager.next_page(&config).unwrap();
    assert_eq!(page_info.index, 0);

    let page_info = manager.previous_page(&config).unwrap();
    assert_eq!(page_info.index, 1);
}

#[test]
fn test_last_active_pages() {
    let mut manager = ProfileManager::new().unwrap();
    let config = create_test_config();

    manager.initialize_from_config(&config).unwrap();

    manager.switch_to_page(1, &config).unwrap();

    manager.switch_to_profile(1, &config).unwrap();

    let profile_info = manager.switch_to_profile(0, &config).unwrap();
    assert_eq!(profile_info.current_page_index, 1);
}

#[test]
fn out_of_bounds_navigation_is_rejected() {
    let mut manager = ProfileManager::new().unwrap();
    let config = create_test_config();
    manager.initialize_from_config(&config).unwrap();

    assert!(manager.switch_to_profile(2, &config).is_err());
    assert!(manager.switch_to_page(5, &config).is_err());
    assert!(manager.switch_to_profile_by_name("Nobody", &config).is_err());
    assert_eq!(manager.state.current_profile_index, 0);
    assert_eq!(manager.state.current_page_index, 0);
}

#[test]
fn navigation_context_reports_neighbors() {
    let mut manager = ProfileManager::new().unwrap();
    let config = create_test_config();
    manager.initialize_from_config(&config).unwrap();

    let ctx = manager.get_navigation_context(&config).unwrap();
    assert_eq!(ctx.profile_name, "Profile1");
    assert_eq!(ctx.page_name, "Page1");
    assert_eq!(ctx.total_profiles, 2);
    assert_eq!(ctx.total_pages, 2);
    assert!(!ctx.has_previous_page);
    assert!(ctx.has_next_page);

    manager.switch_to_page(1, &config).unwrap();
    let ctx = manager.get_navigation_context(&config).unwrap();
    assert!(ctx.has_previous_page);
    assert!(!ctx.has_next_page);
}

#[test]
fn reset_returns_to_the_default_state() {
    let mut manager = ProfileManager::new().unwrap();
    let config = create_test_config();
    manager.initialize_from_config(&config).unwrap();
    manager.switch_to_profile(1, &config).unwrap();
    manager.reset();
    assert_eq!(manager.state.current_profile_index, 0);
    assert_eq!(manager.state.current_page_index, 0);
    assert_eq!(manager.state.last_active_pages.len(), 0);
}

#[test]
fn profile_summaries_cover_every_profile() {
    let manager = ProfileManager::new().unwrap();
    let config = create_test_config();
    let infos = manager.get_profiles(&config);
    assert_eq!(infos.len(), 2);
    assert_eq!(infos[0].name, "Profile1");
    assert_eq!(infos[0].page_count, 2);
    assert_eq!(infos[1].name, "Profile2");
    assert_eq!(infos[1].hotkey.as_deref(), Some("Ctrl+2"));
}

#[test]
fn a_profile_without_pages_cannot_advance() {
    let mut manager = ProfileManager::new().unwrap();
    let mut config = create_test_config();
    config.profiles[0].pages.clear();
    assert!(manager.next_page(&config).is_err());
    assert!(manager.previous_page(&config).is_err());
}

#[test]
fn page_navigation_keeps_the_active_profile() {
    let mut manager = ProfileManager::new().unwrap();
    let config = create_test_config();
    manager.initialize_from_config(&config).unwrap();
    manager.switch_to_profile(0, &config).unwrap();

    manager.next_page(&config).unwrap();
    assert_eq!(manager.state.current_profile_index, 0);
    manager.previous_page(&config).unwrap();
    assert_eq!(manager.state.current_profile_index, 0);
    assert_eq!(manager.state.current_page_index, 0);
}
