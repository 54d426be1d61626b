use qdeck::paths::normalize_path;
use qdeck::paths::path_is_absolute;
use qdeck::paths::quote_if_needed;
use qdeck::paths::to_wsl_path;
use qdeck::expand::EnvVars;
use qdeck::expand::expand_environment_variables;

#[test]
fn absolute_paths_pass_through_unchanged() {
    assert_eq!(
        normalize_path("C:\\Users\\x\\file.png", "D:\\elsewhere"),
        "C:\\Users\\x\\file.png"
    );
    assert_eq!(normalize_path("/home/u/file.png", "/tmp"), "/home/u/file.png");
    assert!(path_is_absolute("C:\\Users\\x"));
    assert!(path_is_absolute("/home/u"));
    assert!(!path_is_absolute("notes.txt"));
    assert!(!path_is_absolute("a/b.txt"));
}

#[test]
fn relative_paths_resolve_against_the_current_directory() {
    let resolved = normalize_path("notes.txt", "/home/u/proj");
    assert_eq!(resolved, "/home/u/proj/notes.txt");
    assert!(path_is_absolute(&resolved));

    let windows = normalize_path("notes.txt", "C:\\Users\\u");
    assert_eq!(windows, "C:\\Users\\u\\notes.txt");
    assert!(path_is_absolute(&windows));

    let trailing = normalize_path("notes.txt", "/home/u/");
    assert_eq!(trailing, "/home/u/notes.txt");
}

#[test]
fn shell_targets_are_quoted_when_needed() {
    assert_eq!(quote_if_needed("C:\\plain\\path.txt"), "C:\\plain\\path.txt");
    assert_eq!(quote_if_needed("C:\\with space\\f.txt"), "\"C:\\with space\\f.txt\"");
    assert_eq!(quote_if_needed("C:\\f(1).txt"), "\"C:\\f(1).txt\"");
}

#[test]
fn windows_paths_translate_to_the_wsl_mount() {
    assert_eq!(to_wsl_path("C:\\Users\\u\\repo"), "/mnt/c/Users/u/repo");
    assert_eq!(to_wsl_path("/already/posix"), "/already/posix");
    assert_eq!(to_wsl_path("D:\\other"), "D:\\other");
}

#[test]
fn expansion_is_the_identity_without_tokens() {
    let mut env = EnvVars::new();
    env.set(String::from("VAR"), String::from("value"));
    assert_eq!(expand_environment_variables("plain/path", &env), "plain/path");
    assert_eq!(expand_environment_variables("", &env), "");
    assert_eq!(expand_environment_variables("50% done", &env), "50% done");
}

#[test]
fn unresolved_tokens_stay_verbatim() {
    let env = EnvVars::new();
    assert_eq!(expand_environment_variables("%MISSING%/tail", &env), "%MISSING%/tail");
    let mut env = EnvVars::new();
    env.set(String::from("A"), String::from("1"));
    assert_eq!(expand_environment_variables("pre/%A%/post", &env), "pre/1/post");
}
