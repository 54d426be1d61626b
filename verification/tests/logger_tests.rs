use qdeck::config::ConfigValue;
use qdeck::logger::ActionLog;
use qdeck::logger::ActionResult;
use qdeck::logger::LogConfig;
use qdeck::logger::LoggerService;
use qdeck::logger::plan_size_cleanup;
use qdeck::logger::rotation_needed;
use qdeck::logger::select_expired_logs;
use qdeck::logger::compute_log_stats;

#[test]
fn test_action_log_creation() {
    let log = ActionLog::success(String::from("LaunchApp"), String::from("test-app"), 150);

    assert_eq!(log.action_type, "LaunchApp");
    assert_eq!(log.action_id, "test-app");
    assert_eq!(log.execution_time_ms, 150);
    assert!(matches!(log.result, ActionResult::Success));
    assert!(log.error_message.is_none());
}

#[test]
fn test_action_log_with_context() {
    let log = ActionLog::success(String::from("LaunchApp"), String::from("test-app"), 150)
        .with_context(
            String::from("app_path"),
            ConfigValue::Str(String::from("/path/to/app")),
        );

    assert_eq!(log.context.len(), 1);
    assert_eq!(log.context[0].0, "app_path");
}

#[test]
fn test_log_config_default() {
    let config = LogConfig::default();
    assert_eq!(config.max_file_size_mb, 10);
    assert_eq!(config.max_total_size_mb, 100);
    assert_eq!(config.retention_days, 30);
    assert!(config.rotation_enabled);
    assert!(config.json_format);
}

#[test]
fn failed_logs_carry_their_error_text() {
    let log = ActionLog::failed(
        String::from("LaunchApp"),
        String::from("test-app"),
        150,
        String::from("File not found"),
    );
    assert!(matches!(log.result, ActionResult::Failed));
    assert_eq!(log.error_message.as_deref(), Some("File not found"));

    let cancelled = ActionLog::cancelled(String::from("Open"), String::from("x"), 3);
    assert!(matches!(cancelled.result, ActionResult::Cancelled));
}

#[test]
fn recent_logs_return_the_newest_records() {
    let mut service = LoggerService::new().unwrap();
    for i in 0..5u64 {
        let log = ActionLog::success(
            String::from("TestAction"),
            format!("test-id-{}", i),
            100 + i,
        );
        service.log_action(log).unwrap();
    }
    let recent = service.get_recent_logs(3).unwrap();
    assert_eq!(recent.len(), 3);
    assert_eq!(recent[0].action_id, "test-id-2");
    assert_eq!(recent[2].action_id, "test-id-4");

    let all = service.get_recent_logs(50).unwrap();
    assert_eq!(all.len(), 5);
}

#[test]
fn expired_selection_keeps_only_old_log_files() {
    let files = vec![
        (String::from("q-deck_old.log"), 100u64, 10u64),
        (String::from("unrelated.txt"), 50u64, 10u64),
        (String::from("q-deck_new.log"), 900u64, 10u64),
        (String::from("q-deck_older.log"), 20u64, 10u64),
    ];
    let expired = select_expired_logs(&files, 500);
    assert_eq!(expired, vec![String::from("q-deck_old.log"), String::from("q-deck_older.log")]);
}

#[test]
fn size_cleanup_removes_oldest_files_first() {
    let files = vec![
        (String::from("q-deck_1.log"), 1u64, 40u64),
        (String::from("q-deck.log"), 2u64, 50u64),
        (String::from("q-deck_2.log"), 3u64, 30u64),
        (String::from("q-deck_3.log"), 4u64, 30u64),
    ];
    let removals = plan_size_cleanup(&files, 150, 90, "q-deck.log");
    assert_eq!(removals, vec![String::from("q-deck_1.log"), String::from("q-deck_2.log")]);

    let nothing = plan_size_cleanup(&files, 80, 90, "q-deck.log");
    assert!(nothing.is_empty());
}

#[test]
fn rotation_triggers_at_the_size_cap() {
    let config = LogConfig::default();
    assert!(!rotation_needed(9 * 1024 * 1024, &config));
    assert!(rotation_needed(10 * 1024 * 1024, &config));
}

#[test]
fn updating_the_config_keeps_the_records() {
    let mut service = LoggerService::new().unwrap();
    service
        .log_action(ActionLog::success(String::from("A"), String::from("1"), 1))
        .unwrap();
    let mut config = LogConfig::default();
    config.json_format = false;
    service.update_config(config).unwrap();
    assert!(!service.get_config().json_format);
    assert_eq!(service.get_recent_logs(10).unwrap().len(), 1);
}

#[test]
fn log_statistics_count_only_log_files() {
    let files = vec![
        (String::from("q-deck_a.log"), 30u64, 100u64),
        (String::from("notes.txt"), 5u64, 999u64),
        (String::from("q-deck_b.log"), 70u64, 50u64),
    ];
    let stats = compute_log_stats(&files, String::from("/logs"));
    assert_eq!(stats.total_files, 2);
    assert_eq!(stats.total_size_bytes, 150);
    assert_eq!(stats.oldest_log_ms, Some(30));
    assert_eq!(stats.newest_log_ms, Some(70));
    assert_eq!(stats.log_directory, "/logs");

    let empty: Vec<(String, u64, u64)> = Vec::new();
    let stats = compute_log_stats(&empty, String::from("/logs"));
    assert_eq!(stats.total_files, 0);
    assert_eq!(stats.oldest_log_ms, None);
}
