use qdeck::action::ActionConfig;
use qdeck::action::ActionResult;
use qdeck::action::ActionRunner;
use qdeck::action::DispatchError;
use qdeck::action::ExecutorKind;
use qdeck::action::LaunchAppActionExecutor;
use qdeck::action::MultiActionExecutor;
use qdeck::action::OpenActionExecutor;
use qdeck::action::OpenDecision;
use qdeck::action::FsFacts;
use qdeck::action::SpawnOutcome;
use qdeck::action::TerminalActionExecutor;
use qdeck::action::TerminalPlan;
use qdeck::action::render_results_json;
use qdeck::expand::EnvVars;
use qdeck::expand::expand_environment_variables;

fn ok_result() -> ActionResult {
    ActionResult {
        success: true,
        message: String::from("ok"),
        execution_time_ms: 1,
        output: None,
        error_code: None,
    }
}

fn failed_result() -> ActionResult {
    ActionResult {
        success: false,
        message: String::from("bad"),
        execution_time_ms: 1,
        output: None,
        error_code: Some(2),
    }
}

fn launch_config() -> ActionConfig {
    ActionConfig::LaunchApp {
        path: String::from("notepad.exe"),
        args: None,
        workdir: None,
        env: None,
    }
}

fn open_config() -> ActionConfig {
    ActionConfig::Open { target: String::from("test.txt"), verb: None }
}

#[test]
fn test_launch_app_executor_supports_correct_config() {
    let executor = LaunchAppActionExecutor;
    assert!(executor.supports_action_type(&launch_config()));
    assert!(!executor.supports_action_type(&open_config()));
}

#[test]
fn test_open_executor_supports_correct_config() {
    let executor = OpenActionExecutor;
    assert!(executor.supports_action_type(&open_config()));
    assert!(!executor.supports_action_type(&launch_config()));
}

#[test]
fn action_test_expand_environment_variables() {
    let mut env = EnvVars::new();
    env.set(String::from("TEST_VAR_ACTION"), String::from("test_value"));
    let result = expand_environment_variables("%TEST_VAR_ACTION%/path", &env);
    assert_eq!(result, "test_value/path");

    env.set(String::from("VAR1_ACTION"), String::from("value1"));
    env.set(String::from("VAR2_ACTION"), String::from("value2"));
    let result = expand_environment_variables("%VAR1_ACTION%/%VAR2_ACTION%", &env);
    assert_eq!(result, "value1/value2");

    let result = expand_environment_variables("%NONEXISTENT_VAR%/path", &env);
    assert_eq!(result, "%NONEXISTENT_VAR%/path");
}

#[test]
fn multi_action_stops_after_first_failure() {
    let actions = vec![launch_config(), launch_config(), launch_config()];
    let config = ActionConfig::MultiAction {
        actions,
        delay_between_ms: Some(0),
        stop_on_error: Some(true),
    };
    let executor = MultiActionExecutor;
    assert!(executor.supports_action_type(&config));
    let mut run = executor.start(&config).unwrap();

    assert_eq!(run.next_step(), Some(0));
    run.record(ok_result());
    assert_eq!(run.next_step(), Some(1));
    run.record(failed_result());
    assert_eq!(run.next_step(), None);

    let aggregate = run.finish(7);
    assert_eq!(run.attempted.len(), 2);
    assert!(!aggregate.success);
    assert_eq!(aggregate.message, "Multi-action: 1/2 steps successful");
    assert_eq!(aggregate.execution_time_ms, 7);
}

#[test]
fn multi_action_continues_past_failure() {
    let actions = vec![launch_config(), launch_config(), launch_config()];
    let config = ActionConfig::MultiAction {
        actions,
        delay_between_ms: Some(0),
        stop_on_error: Some(false),
    };
    let executor = MultiActionExecutor;
    let mut run = executor.start(&config).unwrap();

    run.record(ok_result());
    run.record(failed_result());
    assert_eq!(run.next_step(), Some(2));
    run.record(ok_result());
    assert_eq!(run.next_step(), None);

    let aggregate = run.finish(9);
    assert_eq!(run.attempted.len(), 3);
    assert!(!aggregate.success);
    assert_eq!(aggregate.message, "Multi-action: 2/3 steps successful");
}

#[test]
fn multi_action_empty_composite_succeeds() {
    let config = ActionConfig::MultiAction {
        actions: Vec::new(),
        delay_between_ms: None,
        stop_on_error: None,
    };
    let executor = MultiActionExecutor;
    let run = executor.start(&config).unwrap();
    assert_eq!(run.delay_between_ms, 100);
    assert!(run.stop_on_error);
    assert_eq!(run.next_step(), None);

    let aggregate = run.finish(0);
    assert!(aggregate.success);
    assert_eq!(aggregate.message, "Multi-action: 0/0 steps successful");
    assert_eq!(aggregate.output.as_deref(), Some("[]"));
}

#[test]
fn multi_action_delay_only_between_steps() {
    let actions = vec![launch_config(), launch_config()];
    let config = ActionConfig::MultiAction {
        actions,
        delay_between_ms: Some(50),
        stop_on_error: Some(false),
    };
    let executor = MultiActionExecutor;
    let mut run = executor.start(&config).unwrap();
    let delay_first = run.record(ok_result());
    assert!(delay_first);
    let delay_last = run.record(ok_result());
    assert!(!delay_last);
}

#[test]
fn unknown_terminal_reports_unsupported_type() {
    let config = ActionConfig::Terminal {
        terminal: String::from("Foo"),
        profile: None,
        workdir: None,
        command: None,
        env: None,
        args: None,
    };
    let executor = TerminalActionExecutor;
    match executor.plan(&config, &EnvVars::new()).unwrap() {
        TerminalPlan::Unsupported(result) => {
            assert!(!result.success);
            assert_eq!(result.message, "Unsupported terminal type: Foo");
            assert!(result.message.contains("Foo"));
        }
        TerminalPlan::Spawn(_) => panic!("a spawn was planned for an unknown terminal"),
    }
}

#[test]
fn dispatch_rejects_declared_but_unimplemented_variants() {
    let runner = ActionRunner::new().unwrap();
    let config = ActionConfig::SendKeys { keys: String::from("abc"), delay_ms: None };
    assert_eq!(runner.select_executor(&config), Err(DispatchError::NoExecutorFound));
    let script = ActionConfig::PowerShell {
        script: String::from("dir"),
        workdir: None,
        execution_policy: None,
    };
    assert_eq!(runner.select_executor(&script), Err(DispatchError::NoExecutorFound));
    assert_eq!(runner.select_executor(&launch_config()), Ok(ExecutorKind::Launch));
    assert_eq!(runner.select_executor(&open_config()), Ok(ExecutorKind::Open));
}

#[test]
fn still_running_process_counts_as_success() {
    let executor = LaunchAppActionExecutor;
    let result = executor.interpret_outcome("slow_app.exe", &SpawnOutcome::StillRunning, 12);
    assert!(result.success);
    assert_eq!(result.message, "Application 'slow_app.exe' launched successfully");
    assert_eq!(result.execution_time_ms, 12);
    assert_eq!(result.error_code, None);
}

#[test]
fn launch_outcomes_report_exit_codes() {
    let executor = LaunchAppActionExecutor;
    let clean = executor.interpret_outcome("a.exe", &SpawnOutcome::Exited(Some(0)), 1);
    assert!(clean.success);
    let dirty = executor.interpret_outcome("a.exe", &SpawnOutcome::Exited(Some(3)), 1);
    assert!(!dirty.success);
    assert_eq!(dirty.message, "Application 'a.exe' exited with error");
    assert_eq!(dirty.error_code, Some(3));
    let failed = executor.interpret_outcome(
        "a.exe",
        &SpawnOutcome::SpawnError(String::from("not found")),
        1,
    );
    assert!(!failed.success);
    assert_eq!(failed.message, "Failed to launch application 'a.exe': not found");
}

#[test]
fn launch_plan_expands_workdir_and_env_values_only() {
    let mut env = EnvVars::new();
    env.set(String::from("BASE"), String::from("/opt"));
    let config = ActionConfig::LaunchApp {
        path: String::from("%BASE%/tool"),
        args: Some(vec![String::from("%BASE%")]),
        workdir: Some(String::from("%BASE%/work")),
        env: Some(vec![(String::from("HOME_DIR"), String::from("%BASE%/home"))]),
    };
    let executor = LaunchAppActionExecutor;
    let req = executor.plan(&config, &env).unwrap();
    assert_eq!(req.program, "%BASE%/tool");
    assert_eq!(req.args, vec![String::from("%BASE%")]);
    assert_eq!(req.current_dir.as_deref(), Some("/opt/work"));
    assert_eq!(req.env, vec![(String::from("HOME_DIR"), String::from("/opt/home"))]);
}

#[test]
fn open_executor_prepares_and_interprets() {
    let executor = OpenActionExecutor;
    let env = EnvVars::new();
    let absolute = executor.prepare_target("/home/u/file.png", &env, "/tmp");
    assert_eq!(absolute, "/home/u/file.png");
    let relative = executor.prepare_target("notes.txt", &env, "/home/u/proj");
    assert_eq!(relative, "/home/u/proj/notes.txt");

    let dir_facts = FsFacts { exists: true, is_dir: true, is_file: false };
    let req = executor.plan_invocation("/d", &Some(String::from("edit")), &dir_facts);
    assert_eq!(req.verb, "explore");
    let file_facts = FsFacts { exists: true, is_dir: false, is_file: true };
    let req = executor.plan_invocation("/d/a b", &Some(String::from("edit")), &file_facts);
    assert_eq!(req.verb, "edit");
    assert_eq!(req.target, "\"/d/a b\"");
    let req = executor.plan_invocation("/d/plain", &None, &file_facts);
    assert_eq!(req.verb, "open");

    match executor.interpret_shell_status("t.txt", "/d/t.txt", 42, &file_facts, 3) {
        OpenDecision::Done(r) => {
            assert!(r.success);
            assert_eq!(r.message, "Opened 't.txt' successfully");
        }
        OpenDecision::Fallback(_) => panic!("no fallback expected on success"),
    }
    match executor.interpret_shell_status("t.txt", "/d/t.txt", 2, &file_facts, 3) {
        OpenDecision::Fallback(f) => {
            assert_eq!(f.program, "notepad");
            assert_eq!(f.target, "/d/t.txt");
        }
        OpenDecision::Done(_) => panic!("an existing file should earn the fallback"),
    }
    let missing = FsFacts { exists: false, is_dir: false, is_file: false };
    match executor.interpret_shell_status("gone.txt", "/d/gone.txt", 2, &missing, 3) {
        OpenDecision::Done(r) => {
            assert!(!r.success);
            assert_eq!(r.message, "File 'gone.txt' does not exist");
            assert_eq!(r.error_code, Some(2));
        }
        OpenDecision::Fallback(_) => panic!("a missing file gets no fallback"),
    }
    match executor.interpret_shell_status("t.txt", "/d/t.txt", 5, &file_facts, 3) {
        OpenDecision::Done(r) => {
            assert!(!r.success);
            assert_eq!(r.message, "Failed to open 't.txt': System error 5");
            assert_eq!(r.error_code, Some(5));
        }
        OpenDecision::Fallback(_) => panic!("only status 2 earns the fallback"),
    }
    let fallback_ok = executor.interpret_fallback_status("t.txt", 2, 40, 4);
    assert!(fallback_ok.success);
    assert_eq!(fallback_ok.message, "Opened 't.txt' with Notepad");
    let fallback_bad = executor.interpret_fallback_status("t.txt", 2, 1, 4);
    assert!(!fallback_bad.success);
    assert_eq!(
        fallback_bad.message,
        "Failed to open 't.txt': No default program and Notepad fallback failed"
    );
    assert_eq!(fallback_bad.error_code, Some(2));
}

#[test]
fn terminal_plans_build_family_command_lines() {
    let executor = TerminalActionExecutor;
    let env = EnvVars::new();
    let wt = ActionConfig::Terminal {
        terminal: String::from("wt"),
        profile: Some(String::from("Ubuntu")),
        workdir: Some(String::from("C:\\work")),
        command: Some(String::from("dir")),
        env: None,
        args: Some(vec![String::from("--fullscreen")]),
    };
    match executor.plan(&wt, &env).unwrap() {
        TerminalPlan::Spawn(req) => {
            assert_eq!(req.program, "wt");
            assert_eq!(
                req.args,
                vec![
                    String::from("-p"),
                    String::from("Ubuntu"),
                    String::from("-d"),
                    String::from("C:\\work"),
                    String::from("--"),
                    String::from("powershell"),
                    String::from("-NoExit"),
                    String::from("-Command"),
                    String::from("dir"),
                    String::from("--fullscreen"),
                ]
            );
            assert!(req.current_dir.is_none());
        }
        TerminalPlan::Unsupported(_) => panic!("the tabbed host is a supported family"),
    }
    let cmd = ActionConfig::Terminal {
        terminal: String::from("cmd"),
        profile: None,
        workdir: Some(String::from("C:\\work")),
        command: Some(String::from("dir")),
        env: None,
        args: None,
    };
    match executor.plan(&cmd, &env).unwrap() {
        TerminalPlan::Spawn(req) => {
            assert_eq!(req.program, "cmd");
            assert_eq!(
                req.args,
                vec![String::from("/K"), String::from("/C"), String::from("dir & pause")]
            );
            assert_eq!(req.current_dir.as_deref(), Some("C:\\work"));
        }
        TerminalPlan::Unsupported(_) => panic!("the console host is a supported family"),
    }
    let wsl = ActionConfig::Terminal {
        terminal: String::from("WSL"),
        profile: Some(String::from("Debian")),
        workdir: Some(String::from("C:\\repo")),
        command: Some(String::from("ls")),
        env: None,
        args: None,
    };
    match executor.plan(&wsl, &env).unwrap() {
        TerminalPlan::Spawn(req) => {
            assert_eq!(req.program, "wsl");
            assert_eq!(
                req.args,
                vec![
                    String::from("-d"),
                    String::from("Debian"),
                    String::from("--cd"),
                    String::from("/mnt/c/repo"),
                    String::from("--exec"),
                    String::from("bash"),
                    String::from("-c"),
                    String::from("ls; exec bash"),
                ]
            );
        }
        TerminalPlan::Unsupported(_) => panic!("the compatibility layer is a supported family"),
    }
}

#[test]
fn step_error_results_carry_the_step_number() {
    let executor = MultiActionExecutor;
    let r = executor.step_error_result(1, &DispatchError::NoExecutorFound);
    assert!(!r.success);
    assert_eq!(r.message, "Step 2 error: No executor found for action type");
    assert_eq!(r.execution_time_ms, 0);
}

#[test]
fn results_render_as_a_json_array() {
    let results = vec![
        ActionResult {
            success: true,
            message: String::from("say \"hi\""),
            execution_time_ms: 5,
            output: None,
            error_code: None,
        },
        ActionResult {
            success: false,
            message: String::from("no"),
            execution_time_ms: 0,
            output: Some(String::from("x")),
            error_code: Some(-2),
        },
    ];
    let rendered = render_results_json(&results);
    assert_eq!(
        rendered,
        "[{\"success\":true,\"message\":\"say \\\"hi\\\"\",\"execution_time_ms\":5,\
         \"output\":null,\"error_code\":null},{\"success\":false,\"message\":\"no\",\
         \"execution_time_ms\":0,\"output\":\"x\",\"error_code\":-2}]"
    );
}

#[test]
fn terminal_families_match_case_insensitively() {
    let executor = TerminalActionExecutor;
    let env = EnvVars::new();
    for (name, program) in [
        ("CMD", "cmd"),
        ("Cmd", "cmd"),
        ("cmd", "cmd"),
        ("PWSH", "powershell"),
        ("powershell", "powershell"),
        ("WINDOWSTERMINAL", "wt"),
        ("WT", "wt"),
        ("wsl", "wsl"),
        ("WSL", "wsl"),
    ] {
        let config = ActionConfig::Terminal {
            terminal: String::from(name),
            profile: None,
            workdir: None,
            command: None,
            env: None,
            args: None,
        };
        match executor.plan(&config, &env).unwrap() {
            TerminalPlan::Spawn(req) => assert_eq!(req.program, program),
            TerminalPlan::Unsupported(_) =>

                panic!("a family name in another casing still selects its family"),
        }
    }
}
