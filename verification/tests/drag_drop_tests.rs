use qdeck::config::ActionType;
use qdeck::config::ConfigValue;
use qdeck::config::Position;
use qdeck::config::map_get;
use qdeck::drag_drop::ButtonGenerationRequest;
use qdeck::drag_drop::DragDropService;
use qdeck::drag_drop::DroppedFile;
use qdeck::drag_drop::DroppedFileType;
use qdeck::drag_drop::FileMeta;
use qdeck::config::ActionButton;

fn dropped(path: &str, name: &str, file_type: DroppedFileType, size: u64) -> DroppedFile {
    DroppedFile {
        path: String::from(path),
        name: String::from(name),
        file_type,
        size_bytes: size,
        is_directory: false,
        icon_hint: Some(String::from("\u{1F4C4}")),
    }
}

fn target_of(config: &Vec<(String, ConfigValue)>) -> String {
    match map_get(config, "target") {
        Some(ConfigValue::Str(s)) => s.clone(),
        _ => panic!("target is missing or not a string"),
    }
}

#[test]
fn test_create_open_config_uses_absolute_path() {
    let file = dropped(
        "/tmp/qdeck_case/test_document.txt",
        "test_document.txt",
        DroppedFileType::Document,
        12,
    );
    let service = DragDropService::new().unwrap();
    let config = service.create_open_config(&file, "/tmp/qdeck_case").unwrap();

    let target = target_of(&config);
    assert!(target.starts_with('/'));
    assert_eq!(target, "/tmp/qdeck_case/test_document.txt");
    match map_get(&config, "verb") {
        Some(ConfigValue::Str(v)) => assert_eq!(v, "open"),
        _ => panic!("verb is missing or not a string"),
    }
}

#[test]
fn test_create_launch_app_config_uses_absolute_path() {
    let file = dropped("/tmp/qdeck_case/test_app.exe", "test_app.exe", DroppedFileType::Executable, 18);
    let service = DragDropService::new().unwrap();
    let config = service.create_launch_app_config(&file, "/tmp/qdeck_case").unwrap();

    match map_get(&config, "path") {
        Some(ConfigValue::Str(p)) => {
            assert!(p.starts_with('/'));
            assert_eq!(p, "/tmp/qdeck_case/test_app.exe");
        }
        _ => panic!("path is missing or not a string"),
    }
    match map_get(&config, "workdir") {
        Some(ConfigValue::Str(w)) => assert_eq!(w, "/tmp/qdeck_case"),
        _ => panic!("workdir is missing or not a string"),
    }
}

#[test]
fn test_relative_path_conversion() {
    let file = dropped("relative_test.png", "relative_test.png", DroppedFileType::Image, 11);
    let service = DragDropService::new().unwrap();
    let config = service.create_open_config(&file, "/tmp/qdeck_rel").unwrap();

    let target = target_of(&config);
    assert!(target.starts_with('/'));
    assert!(target.ends_with("relative_test.png"));
    assert_eq!(target, "/tmp/qdeck_rel/relative_test.png");
}

#[test]
fn test_absolute_path_passthrough() {
    let file = dropped("/tmp/qdeck_abs/absolute_test.png", "absolute_test.png", DroppedFileType::Image, 11);
    let service = DragDropService::new().unwrap();
    let config = service.create_open_config(&file, "/somewhere/else").unwrap();

    let target = target_of(&config);
    assert_eq!(target, "/tmp/qdeck_abs/absolute_test.png");
    assert!(target.starts_with('/'));
}

#[test]
fn test_button_generation_from_files() {
    let file = dropped("/tmp/qdeck_gen/button_test.png", "button_test.png", DroppedFileType::Image, 11);
    let request = ButtonGenerationRequest {
        files: vec![file],
        target_position: Some(Position { row: 1, col: 1 }),
        grid_rows: 4,
        grid_cols: 6,
        existing_buttons: vec![],
    };

    let mut service = DragDropService::new().unwrap();
    let result = service.generate_buttons_from_files(request, "/tmp/qdeck_gen").unwrap();

    assert_eq!(result.generated_buttons.len(), 1);
    assert_eq!(result.errors.len(), 0);
    assert!(result.conflicts.is_empty());

    let button = &result.generated_buttons[0];
    assert_eq!(button.action_type, ActionType::Open);

    let target = target_of(&button.config);
    assert!(target.starts_with('/'));
    assert_eq!(target, "/tmp/qdeck_gen/button_test.png");
}

#[test]
fn analyzing_paths_classifies_them() {
    let service = DragDropService::new().unwrap();
    let meta = FileMeta { exists: true, is_directory: false, size_bytes: 10 };
    let files = vec![
        (String::from("/d/test_image.png"), meta),
        (String::from("/d/prog.exe"), meta),
        (String::from("/d/script.py"), meta),
        (String::from("/d/song.mp3"), meta),
        (String::from("/d/archive.zip"), meta),
        (String::from("/d/a_dir"), FileMeta { exists: true, is_directory: true, size_bytes: 0 }),
        (String::from("/d/nope.png"), FileMeta { exists: false, is_directory: false, size_bytes: 0 }),
    ];
    let analyzed = service.analyze_dropped_files(files).unwrap();
    assert_eq!(analyzed.len(), 7);
    assert_eq!(analyzed[0].file_type, DroppedFileType::Image);
    assert_eq!(analyzed[0].name, "test_image.png");
    assert_eq!(analyzed[1].file_type, DroppedFileType::Executable);
    assert_eq!(analyzed[2].file_type, DroppedFileType::Script);
    assert_eq!(analyzed[3].file_type, DroppedFileType::Audio);
    assert_eq!(analyzed[4].file_type, DroppedFileType::Archive);
    assert_eq!(analyzed[5].file_type, DroppedFileType::Directory);
    assert_eq!(analyzed[6].file_type, DroppedFileType::Unknown);
    assert_eq!(analyzed[6].size_bytes, 0);
}

#[test]
fn executable_heuristic_uses_directory_and_size() {
    let service = DragDropService::new().unwrap();
    assert!(service.is_likely_executable("C:\\Program Files\\Tool\\tool", 10));
    assert!(service.is_likely_executable("/usr/bin/tool", 10));
    assert!(service.is_likely_executable("/data/blob", 2048));
    assert!(!service.is_likely_executable("/data/blob", 10));
    assert_eq!(service.determine_file_type("/data/blob", 2048), DroppedFileType::Executable);
    assert_eq!(service.determine_file_type("/data/blob", 10), DroppedFileType::Unknown);
}

#[test]
fn labels_are_cleaned_and_shortened() {
    let service = DragDropService::new().unwrap();
    assert_eq!(service.generate_button_label("my_cool-app.exe"), "My Cool App");
    assert_eq!(service.generate_button_label("readme.txt"), "Readme");
    assert_eq!(
        service.generate_button_label("averyveryverylongfilename.txt"),
        "Averyveryverylong..."
    );
}

#[test]
fn scripts_launch_through_their_interpreter() {
    let service = DragDropService::new().unwrap();
    let file = dropped("/s/run.py", "run.py", DroppedFileType::Script, 5);
    let config = service.create_script_config(&file, "/cwd").unwrap();
    match map_get(&config, "path") {
        Some(ConfigValue::Str(p)) => assert_eq!(p, "python"),
        _ => panic!("path is missing or not a string"),
    }
    match map_get(&config, "args") {
        Some(ConfigValue::List(args)) => {
            assert_eq!(args.len(), 1);
            match &args[0] {
                ConfigValue::Str(a) => assert_eq!(a, "/s/run.py"),
                _ => panic!("argument is not a string"),
            }
        }
        _ => panic!("args is missing or not a list"),
    }

    let ps1 = dropped("/s/run.ps1", "run.ps1", DroppedFileType::Script, 5);
    let config = service.create_script_config(&ps1, "/cwd").unwrap();
    match map_get(&config, "path") {
        Some(ConfigValue::Str(p)) => assert_eq!(p, "powershell.exe"),
        _ => panic!("path is missing or not a string"),
    }
    match map_get(&config, "args") {
        Some(ConfigValue::List(args)) => assert_eq!(args.len(), 4),
        _ => panic!("args is missing or not a list"),
    }
}

#[test]
fn placement_avoids_occupied_cells() {
    let service = DragDropService::new().unwrap();
    let positions = service.find_available_positions(2, 2, &vec![], None, 4);
    assert_eq!(positions.len(), 4);
    for (i, p) in positions.iter().enumerate() {
        assert!(p.row >= 1 && p.row <= 2 && p.col >= 1 && p.col <= 2);
        for q in positions.iter().skip(i + 1) {
            assert!(!(p.row == q.row && p.col == q.col));
        }
    }
}

#[test]
fn undo_history_is_bounded_and_ordered() {
    let mut service = DragDropService::new().unwrap();
    assert_eq!(service.get_undo_stats(), (0, 50));
    assert!(service.get_last_undo_operation().is_none());
    assert!(service.pop_undo_operation().is_none());

    for i in 0..3 {
        service.add_undo_operation(qdeck::drag_drop::UndoOperation {
            operation_id: format!("op-{}", i),
            timestamp_ms: i,
            operation_type: qdeck::drag_drop::UndoOperationType::AddButtons,
            affected_positions: vec![],
            previous_buttons: vec![],
            new_buttons: vec![],
        });
    }
    assert_eq!(service.get_undo_stats(), (3, 50));
    assert_eq!(service.get_last_undo_operation().unwrap().operation_id, "op-2");
    let popped = service.pop_undo_operation().unwrap();
    assert_eq!(popped.operation_id, "op-2");
    service.clear_undo_history();
    assert_eq!(service.get_undo_stats(), (0, 50));
}

#[test]
fn missing_files_are_rejected_by_single_analysis() {
    let service = DragDropService::new().unwrap();
    let meta = FileMeta { exists: false, is_directory: false, size_bytes: 0 };
    let result = service.analyze_single_file("/d/gone.txt", &meta);
    assert_eq!(result.unwrap_err(), qdeck::drag_drop::DragDropError::FileDoesNotExist);
}

#[test]
fn test_analyze_dropped_files_with_absolute_path() {
    let test_file_path = String::from("/tmp/qdeck_drop/test_image.png");
    let meta = FileMeta { exists: true, is_directory: false, size_bytes: 16 };

    let service = DragDropService::new().unwrap();
    let result = service.analyze_dropped_files(vec![(test_file_path.clone(), meta)]);

    assert!(result.is_ok());
    let analyzed_files = result.unwrap();
    assert_eq!(analyzed_files.len(), 1);

    let file = &analyzed_files[0];
    assert_eq!(file.path, test_file_path);
    assert_eq!(file.file_type, DroppedFileType::Image);
    assert!(file.path.starts_with('/'));
}

#[test]
fn placement_fills_the_free_cells() {
    let service = DragDropService::new().unwrap();
    let taken = ActionButton {
        position: Position { row: 1, col: 1 },
        action_type: ActionType::Open,
        label: String::from("taken"),
        icon: None,
        config: vec![],
        style: None,
        action: None,
    };
    let existing = vec![taken];

    let some = service.find_available_positions(2, 2, &existing, None, 2);
    assert_eq!(some.len(), 2);

    let all = service.find_available_positions(2, 2, &existing, None, 10);
    assert_eq!(all.len(), 3);

    let none = service.find_available_positions(0, 0, &existing, None, 5);
    assert!(none.is_empty());
}

#[test]
fn more_files_than_cells_yield_errors_for_the_rest() {
    let files = vec![
        dropped("/g/a.png", "a.png", DroppedFileType::Image, 1),
        dropped("/g/b.png", "b.png", DroppedFileType::Image, 1),
        dropped("/g/c.png", "c.png", DroppedFileType::Image, 1),
    ];
    let request = ButtonGenerationRequest {
        files,
        target_position: None,
        grid_rows: 1,
        grid_cols: 2,
        existing_buttons: vec![],
    };
    let mut service = DragDropService::new().unwrap();
    let result = service.generate_buttons_from_files(request, "/g").unwrap();
    assert_eq!(result.generated_buttons.len(), 2);
    assert_eq!(result.errors.len(), 1);
    assert!(result.errors[0].contains("c.png"));
}
