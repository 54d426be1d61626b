//! The action execution engine.
//!
//! An [`ActionConfig`] describes one unit of work: spawn an executable,
//! open a target through the platform shell, open a terminal emulator, or
//! run an ordered sequence of sub-actions. Executors are capability
//! objects: each claims one variant through `supports_action_type` and
//! turns a description into a concrete platform request. The surrounding
//! application performs the actual spawn or shell call and hands the
//! outcome back; the functions here decide everything else and package
//! each outcome into a uniform [`ActionResult`].

use vstd::prelude::*;
use crate::expand::EnvVars;
use crate::expand::expand_env;
use crate::paths::normalize_target;
use crate::paths::shell_form;
use crate::text::dec_str;
use crate::text::int_str;
use crate::text::u64_to_string;
use crate::text::usize_to_string;
use crate::text::i32_to_string;
use crate::text::str_eq;
use crate::json::json_string;
use crate::json::render_json_string;

verus! {

/// The uniform result of one dispatch, leaf or composite. Failures of the
/// platform call are reported here with `success` false, never as an
/// error value: a launch that could not start is an expected outcome.
#[derive(Debug, Clone)]
pub struct ActionResult {
    pub success: bool,
    pub message: String,
    pub execution_time_ms: u64,
    pub output: Option<String>,
    pub error_code: Option<i32>,
}

/// A declarative description of one action. Exactly one variant is active;
/// string fields may hold unexpanded `%NAME%` references until an executor
/// expands them immediately before use.
#[derive(Debug)]
pub enum ActionConfig {
    LaunchApp {
        path: String,
        args: Option<Vec<String>>,
        workdir: Option<String>,
        env: Option<Vec<(String, String)>>,
    },
    Open {
        target: String,
        verb: Option<String>,
    },
    Terminal {
        terminal: String,
        profile: Option<String>,
        workdir: Option<String>,
        command: Option<String>,
        env: Option<Vec<(String, String)>>,
        args: Option<Vec<String>>,
    },
    SendKeys {
        keys: String,
        delay_ms: Option<u64>,
    },
    PowerShell {
        script: String,
        workdir: Option<String>,
        execution_policy: Option<String>,
    },
    MultiAction {
        actions: Vec<ActionConfig>,
        delay_between_ms: Option<u64>,
        stop_on_error: Option<bool>,
    },
}

/// A structural dispatch failure, as opposed to an operational failure of
/// the platform call.
#[derive(Debug, Clone, PartialEq, Eq, Structural)]
pub enum DispatchError {
    /// No registered executor claims the description's variant.
    NoExecutorFound,
    /// A description of another variant reached an executor directly.
    InvalidConfig,
}

/// The display text of a structural dispatch failure.
pub open spec fn dispatch_error_message(e: DispatchError) -> Seq<char> {
    match e {
        DispatchError::NoExecutorFound => "No executor found for action type"@,
        DispatchError::InvalidConfig => "Invalid action config for this executor"@,
    }
}

impl DispatchError {
    pub fn message(&self) -> (r: String)
        ensures
            r@ == dispatch_error_message(*self),
    {
        match self {
            DispatchError::NoExecutorFound => String::from_str("No executor found for action type"),
            DispatchError::InvalidConfig => String::from_str(
                "Invalid action config for this executor",
            ),
        }
    }
}

/// A request to spawn a detached child process with discarded stdio.
#[derive(Debug, Clone)]
pub struct SpawnRequest {
    pub program: String,
    pub args: Vec<String>,
    pub current_dir: Option<String>,
    pub env: Vec<(String, String)>,
}

/// What the platform reported immediately after a spawn attempt: the
/// executors never wait for the child, they poll once.
#[derive(Debug, Clone)]
pub enum SpawnOutcome {
    /// The spawn itself failed; the OS error text.
    SpawnError(String),
    /// The immediate status poll failed; the OS error text.
    StatusError(String),
    /// The child had already exited, with its exit code when available.
    Exited(Option<i32>),
    /// The child was still running at the poll: the expected case for
    /// applications that stay open.
    StillRunning,
}

/// A process outcome counts as a success when the child exited cleanly or
/// is simply still running.
pub open spec fn spawn_outcome_success(outcome: SpawnOutcome) -> bool {
    match outcome {
        SpawnOutcome::Exited(c) => c == Some(0i32),
        SpawnOutcome::StillRunning => true,
        SpawnOutcome::SpawnError(_) => false,
        SpawnOutcome::StatusError(_) => false,
    }
}

/// The platform error code surfaced for a process outcome: only a
/// non-zero exit reports one.
pub open spec fn spawn_outcome_error_code(outcome: SpawnOutcome) -> Option<i32> {
    match outcome {
        SpawnOutcome::Exited(c) => if c == Some(0i32) {
            None
        } else {
            c
        },
        _ => None,
    }
}

/// Environment overrides with each value expanded: keys kept as given.
pub open spec fn expanded_pairs(
    ps: Seq<(String, String)>,
    vars: Seq<(String, String)>,
    out: Seq<(String, String)>,
) -> bool {
    &&& out.len() == ps.len()
    &&& forall|i: int|
        0 <= i < ps.len() ==> out[i].0 == ps[i].0 && out[i].1@ == expand_env(ps[i].1@, vars)
}

fn expand_pairs(ps: &Vec<(String, String)>, env: &EnvVars) -> (out: Vec<(String, String)>)
    ensures
        expanded_pairs(ps@, env.vars@, out@),
{
    let mut out: Vec<(String, String)> = Vec::new();
    let mut i: usize = 0;
    while i < ps.len()
        invariant
            i <= ps@.len(),
            out@.len() == i,
            forall|j: int|
                0 <= j < i ==> out@[j].0 == ps@[j].0 && out@[j].1@ == expand_env(
                    ps@[j].1@,
                    env.vars@,
                ),
        decreases ps@.len() - i,
    {
        let key = ps[i].0.clone();
        let value = crate::expand::expand_environment_variables(ps[i].1.as_str(), env);
        out.push((key, value));
        i = i + 1;
    }
    out
}

fn clone_strings(v: &Vec<String>) -> (out: Vec<String>)
    ensures
        out@ == v@,
{
    let mut out: Vec<String> = Vec::new();
    let mut i: usize = 0;
    while i < v.len()
        invariant
            i <= v@.len(),
            out@ == v@.subrange(0, i as int),
        decreases v@.len() - i,
    {
        out.push(v[i].clone());
        i = i + 1;
        proof {
            assert(out@ =~= v@.subrange(0, i as int));
        }
    }
    proof {
        assert(out@ =~= v@);
    }
    out
}

/// Starts an executable as a detached child process.
pub struct LaunchAppActionExecutor;

/// The message reported for each process outcome of a launch.
pub open spec fn launch_outcome_message(path: Seq<char>, outcome: SpawnOutcome) -> Seq<char> {
    match outcome {
        SpawnOutcome::Exited(c) => if c == Some(0i32) {
            "Application '"@ + path + "' launched successfully"@
        } else {
            "Application '"@ + path + "' exited with error"@
        },
        SpawnOutcome::StillRunning => "Application '"@ + path + "' launched successfully"@,
        SpawnOutcome::StatusError(e) => "Failed to check application status: "@ + e@,
        SpawnOutcome::SpawnError(e) => "Failed to launch application '"@ + path + "': "@ + e@,
    }
}

impl LaunchAppActionExecutor {
    pub fn supports_action_type(&self, config: &ActionConfig) -> (r: bool)
        ensures
            r == (config is LaunchApp),
    {
        matches!(config, ActionConfig::LaunchApp { .. })
    }

    /// The spawn request for a launch description: working directory and
    /// environment values are expanded, the program path and arguments are
    /// passed through as given.
    pub fn plan(&self, config: &ActionConfig, env: &EnvVars) -> (r: Result<
        SpawnRequest,
        DispatchError,
    >)
        ensures
            r is Ok <==> config is LaunchApp,
            r is Err ==> r == Err::<SpawnRequest, DispatchError>(DispatchError::InvalidConfig),
            config matches ActionConfig::LaunchApp { path, args, workdir, env: cfg_env } ==> {
                &&& r matches Ok(req)
                &&& req.program == path
                &&& req.args@ == (match args {
                    Some(a) => a@,
                    None => Seq::<String>::empty(),
                })
                &&& (match workdir {
                    Some(w) => req.current_dir matches Some(d) && d@ == expand_env(w@, env.vars@),
                    None => req.current_dir is None,
                })
                &&& (match cfg_env {
                    Some(ps) => expanded_pairs(ps@, env.vars@, req.env@),
                    None => req.env@.len() == 0,
                })
            },
    {
        match config {
            ActionConfig::LaunchApp { path, args, workdir, env: cfg_env } => {
                let req_args = match args {
                    Some(a) => clone_strings(a),
                    None => Vec::new(),
                };
                let current_dir = match workdir {
                    Some(w) => Some(crate::expand::expand_environment_variables(w.as_str(), env)),
                    None => None,
                };
                let req_env = match cfg_env {
                    Some(ps) => expand_pairs(ps, env),
                    None => Vec::new(),
                };
                Ok(
                    SpawnRequest {
                        program: path.clone(),
                        args: req_args,
                        current_dir,
                        env: req_env,
                    },
                )
            },
            _ => Err(DispatchError::InvalidConfig),
        }
    }

    /// Packages the immediate process outcome of a launch. A child that is
    /// still running at the poll is a success: applications that stay open
    /// must not be reported as failures.
    pub fn interpret_outcome(&self, path: &str, outcome: &SpawnOutcome, elapsed_ms: u64) -> (r:
        ActionResult)
        ensures
            r.success == spawn_outcome_success(*outcome),
            outcome is StillRunning ==> r.success,
            r.message@ == launch_outcome_message(path@, *outcome),
            r.execution_time_ms == elapsed_ms,
            r.output is None,
            r.error_code == spawn_outcome_error_code(*outcome),
    {
        match outcome {
            SpawnOutcome::Exited(c) => {
                let clean = match c {
                    Some(code) => *code == 0,
                    None => false,
                };
                if clean {
                    let mut m = String::from_str("Application '");
                    m.append(path);
                    m.append("' launched successfully");
                    ActionResult {
                        success: true,
                        message: m,
                        execution_time_ms: elapsed_ms,
                        output: None,
                        error_code: None,
                    }
                } else {
                    let mut m = String::from_str("Application '");
                    m.append(path);
                    m.append("' exited with error");
                    ActionResult {
                        success: false,
                        message: m,
                        execution_time_ms: elapsed_ms,
                        output: None,
                        error_code: *c,
                    }
                }
            },
            SpawnOutcome::StillRunning => {
                let mut m = String::from_str("Application '");
                m.append(path);
                m.append("' launched successfully");
                ActionResult {
                    success: true,
                    message: m,
                    execution_time_ms: elapsed_ms,
                    output: None,
                    error_code: None,
                }
            },
            SpawnOutcome::StatusError(e) => {
                let mut m = String::from_str("Failed to check application status: ");
                m.append(e.as_str());
                ActionResult {
                    success: false,
                    message: m,
                    execution_time_ms: elapsed_ms,
                    output: None,
                    error_code: None,
                }
            },
            SpawnOutcome::SpawnError(e) => {
                let mut m = String::from_str("Failed to launch application '");
                m.append(path);
                m.append("': ");
                m.append(e.as_str());
                ActionResult {
                    success: false,
                    message: m,
                    execution_time_ms: elapsed_ms,
                    output: None,
                    error_code: None,
                }
            },
        }
    }
}

/// What the file system reports about a normalized target path.
#[derive(Debug, Clone, Copy, PartialEq, Eq, Structural)]
pub struct FsFacts {
    pub exists: bool,
    pub is_dir: bool,
    pub is_file: bool,
}

/// A request to hand a target to the platform shell under a verb.
#[derive(Debug, Clone)]
pub struct ShellOpenRequest {
    pub verb: String,
    pub target: String,
}

/// A retry of a failed shell open through a fixed fallback viewer.
#[derive(Debug, Clone)]
pub struct FallbackRequest {
    pub program: String,
    pub target: String,
}

/// What follows the first shell invocation: a finished result, or one
/// fallback attempt whose outcome still has to be interpreted.
#[derive(Debug)]
pub enum OpenDecision {
    Done(ActionResult),
    Fallback(FallbackRequest),
}

/// The verb handed to the shell: an existing directory is always browsed,
/// whatever verb was requested; otherwise the requested verb, or `open`.
pub open spec fn effective_verb(requested: Option<String>, exists: bool, is_dir: bool) -> Seq<
    char,
> {
    if exists && is_dir {
        "explore"@
    } else {
        match requested {
            Some(v) => v@,
            None => "open"@,
        }
    }
}

/// Asks the platform shell to open a target the way a double click would.
pub struct OpenActionExecutor;

impl OpenActionExecutor {
    pub fn supports_action_type(&self, config: &ActionConfig) -> (r: bool)
        ensures
            r == (config is Open),
    {
        matches!(config, ActionConfig::Open { .. })
    }

    /// The effective target path: environment references expanded, then an
    /// absolute path kept as it is and a relative one resolved against the
    /// current directory.
    pub fn prepare_target(&self, target: &str, env: &EnvVars, cwd: &str) -> (r: String)
        ensures
            r@ == normalize_target(expand_env(target@, env.vars@), cwd@),
    {
        let expanded = crate::expand::expand_environment_variables(target, env);
        crate::paths::normalize_path(expanded.as_str(), cwd)
    }

    /// The shell invocation for a prepared target: the verb is overridden
    /// to the directory-browse verb for an existing directory, and the
    /// target is quoted when it holds whitespace or parentheses.
    pub fn plan_invocation(
        &self,
        target_abs: &str,
        verb: &Option<String>,
        fs: &FsFacts,
    ) -> (r: ShellOpenRequest)
        ensures
            r.verb@ == effective_verb(*verb, fs.exists, fs.is_dir),
            fs.exists && fs.is_dir ==> r.verb@ == "explore"@,
            r.target@ == shell_form(target_abs@),
    {
        let verb_str = if fs.exists && fs.is_dir {
            String::from_str("explore")
        } else {
            match verb {
                Some(v) => v.clone(),
                None => String::from_str("open"),
            }
        };
        let target = crate::paths::quote_if_needed(target_abs);
        ShellOpenRequest { verb: verb_str, target }
    }

    /// Interprets the shell's numeric status for the first invocation.
    /// Values above 32 are success. Status 2 means no handler or no file:
    /// an existing regular file earns one retry through the fallback
    /// viewer, anything else is reported as missing. Other low statuses
    /// are plain failures carrying the code.
    pub fn interpret_shell_status(
        &self,
        display_target: &str,
        final_target: &str,
        status: i32,
        fs: &FsFacts,
        elapsed_ms: u64,
    ) -> (r: OpenDecision)
        ensures
            status > 32 ==> (r matches OpenDecision::Done(a) && a.success && a.message@
                == "Opened '"@ + display_target@ + "' successfully"@ && a.execution_time_ms
                == elapsed_ms && a.output is None && a.error_code is None),
            status <= 32 && status == 2 && fs.exists && fs.is_file ==> (r matches
                OpenDecision::Fallback(f) && f.program@ == "notepad"@ && f.target@
                == final_target@),
            status == 2 && !(fs.exists && fs.is_file) ==> (r matches OpenDecision::Done(a)
                && !a.success && a.message@ == "File '"@ + display_target@ + "' does not exist"@
                && a.execution_time_ms == elapsed_ms && a.output is None && a.error_code == Some(
                2i32,
            )),
            status <= 32 && status != 2 ==> (r matches OpenDecision::Done(a) && !a.success
                && a.message@ == "Failed to open '"@ + display_target@ + "': System error "@
                + int_str(status as int) && a.execution_time_ms == elapsed_ms && a.output is None
                && a.error_code == Some(status)),
    {
        if status > 32 {
            let mut m = String::from_str("Opened '");
            m.append(display_target);
            m.append("' successfully");
            OpenDecision::Done(
                ActionResult {
                    success: true,
                    message: m,
                    execution_time_ms: elapsed_ms,
                    output: None,
                    error_code: None,
                },
            )
        } else if status == 2 {
            if fs.exists && fs.is_file {
                let mut t = String::new();
                t.append(final_target);
                OpenDecision::Fallback(
                    FallbackRequest { program: String::from_str("notepad"), target: t },
                )
            } else {
                let mut m = String::from_str("File '");
                m.append(display_target);
                m.append("' does not exist");
                OpenDecision::Done(
                    ActionResult {
                        success: false,
                        message: m,
                        execution_time_ms: elapsed_ms,
                        output: None,
                        error_code: Some(status),
                    },
                )
            }
        } else {
            let mut m = String::from_str("Failed to open '");
            m.append(display_target);
            m.append("': System error ");
            let code = i32_to_string(status);
            m.append(code.as_str());
            OpenDecision::Done(
                ActionResult {
                    success: false,
                    message: m,
                    execution_time_ms: elapsed_ms,
                    output: None,
                    error_code: Some(status),
                },
            )
        }
    }

    /// Interprets the fallback viewer's status: success notes that the
    /// fallback was used, failure keeps the first invocation's status as
    /// the surfaced code.
    pub fn interpret_fallback_status(
        &self,
        display_target: &str,
        first_status: i32,
        fallback_status: i32,
        elapsed_ms: u64,
    ) -> (r: ActionResult)
        ensures
            fallback_status > 32 ==> r.success && r.message@ == "Opened '"@ + display_target@
                + "' with Notepad"@ && r.error_code is None,
            fallback_status <= 32 ==> !r.success && r.message@ == "Failed to open '"@
                + display_target@ + "': No default program and Notepad fallback failed"@
                && r.error_code == Some(first_status),
            r.execution_time_ms == elapsed_ms,
            r.output is None,
    {
        if fallback_status > 32 {
            let mut m = String::from_str("Opened '");
            m.append(display_target);
            m.append("' with Notepad");
            ActionResult {
                success: true,
                message: m,
                execution_time_ms: elapsed_ms,
                output: None,
                error_code: None,
            }
        } else {
            let mut m = String::from_str("Failed to open '");
            m.append(display_target);
            m.append("': No default program and Notepad fallback failed");
            ActionResult {
                success: false,
                message: m,
                execution_time_ms: elapsed_ms,
                output: None,
                error_code: Some(first_status),
            }
        }
    }

    /// On platforms without shell-verb execution the open action reports
    /// an unsupported-operation failure without attempting anything.
    pub fn unsupported_platform(&self, elapsed_ms: u64) -> (r: ActionResult)
        ensures
            !r.success,
            r.message@ == "Open action is only supported on Windows"@,
            r.execution_time_ms == elapsed_ms,
            r.output is None,
            r.error_code is None,
    {
        ActionResult {
            success: false,
            message: String::from_str("Open action is only supported on Windows"),
            execution_time_ms: elapsed_ms,
            output: None,
            error_code: None,
        }
    }
}

/// The view of an optional string.
pub open spec fn opt_view(o: Option<String>) -> Option<Seq<char>> {
    match o {
        Some(s) => Some(s@),
        None => None,
    }
}

/// An optional string with its environment references expanded.
pub open spec fn opt_expanded(o: Option<String>, vars: Seq<(String, String)>) -> Option<
    Seq<char>,
> {
    match o {
        Some(s) => Some(expand_env(s@, vars)),
        None => None,
    }
}

/// The views of an optional argument list; absent means no arguments.
pub open spec fn opt_args_view(o: Option<Vec<String>>) -> Seq<Seq<char>> {
    match o {
        Some(a) => a.deep_view(),
        None => Seq::<Seq<char>>::empty(),
    }
}

/// A flag with its value, or nothing when the value is absent.
pub open spec fn opt_flag_args(flag: Seq<char>, v: Option<Seq<char>>) -> Seq<Seq<char>> {
    match v {
        Some(x) => seq![flag, x],
        None => Seq::<Seq<char>>::empty(),
    }
}

/// The tabbed terminal host's argument list: a named profile, a starting
/// directory, and a command wrapped in an interactive shell that stays
/// open.
pub open spec fn wt_args(
    profile: Option<Seq<char>>,
    workdir_exp: Option<Seq<char>>,
    command: Option<Seq<char>>,
) -> Seq<Seq<char>> {
    opt_flag_args("-p"@, profile) + opt_flag_args("-d"@, workdir_exp) + (match command {
        Some(c) => seq!["--"@, "powershell"@, "-NoExit"@, "-Command"@, c],
        None => Seq::<Seq<char>>::empty(),
    })
}

/// The shell-only process's argument list: kept open, with the command
/// run through the inline command flag.
pub open spec fn powershell_args(command: Option<Seq<char>>) -> Seq<Seq<char>> {
    seq!["-NoExit"@] + (match command {
        Some(c) => seq!["-Command"@, c],
        None => Seq::<Seq<char>>::empty(),
    })
}

/// The legacy console host's argument list: the window is kept open, and
/// a command is formatted to pause afterward so it does not vanish.
pub open spec fn cmd_args(command: Option<Seq<char>>) -> Seq<Seq<char>> {
    seq!["/K"@] + (match command {
        Some(c) => seq!["/C"@, c + " & pause"@],
        None => Seq::<Seq<char>>::empty(),
    })
}

/// The POSIX compatibility layer's argument list: a distribution chosen
/// through the profile, the working directory translated to the mount
/// convention, and the command wrapped to drop into an interactive shell.
pub open spec fn wsl_args(
    profile: Option<Seq<char>>,
    workdir_exp: Option<Seq<char>>,
    command: Option<Seq<char>>,
) -> Seq<Seq<char>> {
    opt_flag_args("-d"@, profile) + (match workdir_exp {
        Some(w) => seq!["--cd"@, crate::paths::wsl_path(w)],
        None => Seq::<Seq<char>>::empty(),
    }) + (match command {
        Some(c) => seq!["--exec"@, "bash"@, "-c"@, c + "; exec bash"@],
        None => seq!["--exec"@, "bash"@],
    })
}

/// Whether a terminal name selects the tabbed terminal host: the family
/// names match case-insensitively, with their short aliases.
pub open spec fn is_wt_name(t: Seq<char>) -> bool {
    crate::text::lower_seq(t) == "windowsterminal"@ || crate::text::lower_seq(t) == "wt"@
}

pub open spec fn is_powershell_name(t: Seq<char>) -> bool {
    crate::text::lower_seq(t) == "powershell"@ || crate::text::lower_seq(t) == "pwsh"@
}

pub open spec fn is_cmd_name(t: Seq<char>) -> bool {
    crate::text::lower_seq(t) == "cmd"@
}

pub open spec fn is_wsl_name(t: Seq<char>) -> bool {
    crate::text::lower_seq(t) == "wsl"@
}

/// Whether a spawn request's optional working directory matches the
/// description's working directory with its references expanded.
pub open spec fn dir_matches(
    cd: Option<String>,
    workdir: Option<String>,
    vars: Seq<(String, String)>,
) -> bool {
    match workdir {
        Some(w) => cd matches Some(d) && d@ == expand_env(w@, vars),
        None => cd is None,
    }
}

/// Whether a spawn request's environment overrides match the
/// description's, values expanded.
pub open spec fn env_matches(
    req_env: Seq<(String, String)>,
    cfg_env: Option<Vec<(String, String)>>,
    vars: Seq<(String, String)>,
) -> bool {
    match cfg_env {
        Some(ps) => expanded_pairs(ps@, vars, req_env),
        None => req_env.len() == 0,
    }
}

/// Either a process to spawn, or an immediate failure result for a
/// terminal name no family claims.
#[derive(Debug)]
pub enum TerminalPlan {
    Spawn(SpawnRequest),
    Unsupported(ActionResult),
}

/// Opens a named terminal emulator, optionally pre-seeded with a working
/// directory and a command to run.
pub struct TerminalActionExecutor;

/// The message reported for each process outcome of a terminal open.
pub open spec fn terminal_outcome_message(terminal: Seq<char>, outcome: SpawnOutcome) -> Seq<
    char,
> {
    match outcome {
        SpawnOutcome::Exited(c) => if c == Some(0i32) {
            "Terminal '"@ + terminal + "' opened successfully"@
        } else {
            "Terminal '"@ + terminal + "' exited with error"@
        },
        SpawnOutcome::StillRunning => "Terminal '"@ + terminal + "' opened successfully"@,
        SpawnOutcome::StatusError(e) => "Failed to check terminal status: "@ + e@,
        SpawnOutcome::SpawnError(e) => "Failed to open terminal '"@ + terminal + "': "@ + e@,
    }
}

impl TerminalActionExecutor {
    pub fn supports_action_type(&self, config: &ActionConfig) -> (r: bool)
        ensures
            r == (config is Terminal),
    {
        matches!(config, ActionConfig::Terminal { .. })
    }

    /// The spawn request for a terminal description. Four families are
    /// recognized, case-insensitively and with short aliases; each builds
    /// its own argument list, after which the extra arguments are appended
    /// as given and the environment overrides are expanded. An unknown
    /// terminal name yields an immediate failure result naming it, not an
    /// error.
    pub fn plan(&self, config: &ActionConfig, env: &EnvVars) -> (r: Result<
        TerminalPlan,
        DispatchError,
    >)
        ensures
            r is Ok <==> config is Terminal,
            r is Err ==> r == Err::<TerminalPlan, DispatchError>(DispatchError::InvalidConfig),
            config matches ActionConfig::Terminal {
                terminal,
                profile,
                workdir,
                command,
                env: cfg_env,
                args,
            } ==> {
                let wexp = opt_expanded(*workdir, env.vars@);
                &&& (is_wt_name(terminal@) ==> (r matches Ok(TerminalPlan::Spawn(req))
                    && req.program@ == "wt"@ && req.args.deep_view() == wt_args(
                    opt_view(*profile),
                    wexp,
                    opt_view(*command),
                ) + opt_args_view(*args) && req.current_dir is None && env_matches(
                    req.env@,
                    *cfg_env,
                    env.vars@,
                )))
                &&& (!is_wt_name(terminal@) && is_powershell_name(terminal@) ==> (r matches Ok(
                    TerminalPlan::Spawn(req),
                ) && req.program@ == "powershell"@ && req.args.deep_view() == powershell_args(
                    opt_view(*command),
                ) + opt_args_view(*args) && dir_matches(req.current_dir, *workdir, env.vars@)
                    && env_matches(req.env@, *cfg_env, env.vars@)))
                &&& (!is_wt_name(terminal@) && !is_powershell_name(terminal@) && is_cmd_name(
                    terminal@,
                ) ==> (r matches Ok(TerminalPlan::Spawn(req)) && req.program@ == "cmd"@
                    && req.args.deep_view() == cmd_args(opt_view(*command)) + opt_args_view(*args)
                    && dir_matches(req.current_dir, *workdir, env.vars@) && env_matches(
                    req.env@,
                    *cfg_env,
                    env.vars@,
                )))
                &&& (!is_wt_name(terminal@) && !is_powershell_name(terminal@) && !is_cmd_name(
                    terminal@,
                ) && is_wsl_name(terminal@) ==> (r matches Ok(TerminalPlan::Spawn(req))
                    && req.program@ == "wsl"@ && req.args.deep_view() == wsl_args(
                    opt_view(*profile),
                    wexp,
                    opt_view(*command),
                ) + opt_args_view(*args) && req.current_dir is None && env_matches(
                    req.env@,
                    *cfg_env,
                    env.vars@,
                )))
                &&& (!is_wt_name(terminal@) && !is_powershell_name(terminal@) && !is_cmd_name(
                    terminal@,
                ) && !is_wsl_name(terminal@) ==> (r matches Ok(TerminalPlan::Unsupported(a))
                    && !a.success && a.message@ == "Unsupported terminal type: "@ + terminal@
                    && a.execution_time_ms == 0 && a.output is None && a.error_code is None))
            },
    {
        match config {
            ActionConfig::Terminal { terminal, profile, workdir, command, env: cfg_env, args } => {
                let lowered = crate::text::to_lower(terminal.as_str());
                let t = lowered.as_str();
                let mut a: Vec<String> = Vec::new();
                let mut current_dir: Option<String> = None;
                let program: &str;
                if str_eq(t, "windowsterminal") || str_eq(t, "wt") {
                    program = "wt";
                    match profile {
                        Some(p) => {
                            a.push(String::from_str("-p"));
                            a.push(p.clone());
                        },
                        None => {},
                    }
                    proof {
                        assert(a.deep_view() =~~= opt_flag_args("-p"@, opt_view(*profile)));
                    }
                    let ghost part1 = a.deep_view();
                    match workdir {
                        Some(w) => {
                            a.push(String::from_str("-d"));
                            a.push(crate::expand::expand_environment_variables(w.as_str(), env));
                        },
                        None => {},
                    }
                    proof {
                        assert(a.deep_view() =~~= part1 + opt_flag_args(
                            "-d"@,
                            opt_expanded(*workdir, env.vars@),
                        ));
                    }
                    let ghost part2 = a.deep_view();
                    match command {
                        Some(c) => {
                            a.push(String::from_str("--"));
                            a.push(String::from_str("powershell"));
                            a.push(String::from_str("-NoExit"));
                            a.push(String::from_str("-Command"));
                            a.push(c.clone());
                        },
                        None => {},
                    }
                    proof {
                        assert(a.deep_view() =~~= wt_args(
                            opt_view(*profile),
                            opt_expanded(*workdir, env.vars@),
                            opt_view(*command),
                        ));
                    }
                } else if str_eq(t, "powershell") || str_eq(t, "pwsh") {
                    program = "powershell";
                    a.push(String::from_str("-NoExit"));
                    match workdir {
                        Some(w) => {
                            current_dir = Some(
                                crate::expand::expand_environment_variables(w.as_str(), env),
                            );
                        },
                        None => {},
                    }
                    match command {
                        Some(c) => {
                            a.push(String::from_str("-Command"));
                            a.push(c.clone());
                        },
                        None => {},
                    }
                    proof {
                        assert(a.deep_view() =~~= powershell_args(opt_view(*command)));
                    }
                } else if str_eq(t, "cmd") {
                    program = "cmd";
                    a.push(String::from_str("/K"));
                    match workdir {
                        Some(w) => {
                            current_dir = Some(
                                crate::expand::expand_environment_variables(w.as_str(), env),
                            );
                        },
                        None => {},
                    }
                    match command {
                        Some(c) => {
                            a.push(String::from_str("/C"));
                            let mut paused = c.clone();
                            paused.append(" & pause");
                            a.push(paused);
                        },
                        None => {},
                    }
                    proof {
                        assert(a.deep_view() =~~= cmd_args(opt_view(*command)));
                    }
                } else if str_eq(t, "wsl") {
                    program = "wsl";
                    match profile {
                        Some(p) => {
                            a.push(String::from_str("-d"));
                            a.push(p.clone());
                        },
                        None => {},
                    }
                    proof {
                        assert(a.deep_view() =~~= opt_flag_args("-d"@, opt_view(*profile)));
                    }
                    let ghost part1 = a.deep_view();
                    match workdir {
                        Some(w) => {
                            let expanded = crate::expand::expand_environment_variables(
                                w.as_str(),
                                env,
                            );
                            let translated = crate::paths::to_wsl_path(expanded.as_str());
                            a.push(String::from_str("--cd"));
                            a.push(translated);
                        },
                        None => {},
                    }
                    proof {
                        assert(a.deep_view() =~~= part1 + (match opt_expanded(
                            *workdir,
                            env.vars@,
                        ) {
                            Some(w) => seq!["--cd"@, crate::paths::wsl_path(w)],
                            None => Seq::<Seq<char>>::empty(),
                        }));
                    }
                    let ghost part2 = a.deep_view();
                    match command {
                        Some(c) => {
                            a.push(String::from_str("--exec"));
                            a.push(String::from_str("bash"));
                            a.push(String::from_str("-c"));
                            let mut keep_open = c.clone();
                            keep_open.append("; exec bash");
                            a.push(keep_open);
                        },
                        None => {
                            a.push(String::from_str("--exec"));
                            a.push(String::from_str("bash"));
                        },
                    }
                    proof {
                        assert(a.deep_view() =~~= wsl_args(
                            opt_view(*profile),
                            opt_expanded(*workdir, env.vars@),
                            opt_view(*command),
                        ));
                    }
                } else {
                    let mut m = String::from_str("Unsupported terminal type: ");
                    m.append(terminal.as_str());
                    return Ok(
                        TerminalPlan::Unsupported(
                            ActionResult {
                                success: false,
                                message: m,
                                execution_time_ms: 0,
                                output: None,
                                error_code: None,
                            },
                        ),
                    );
                }
                let ghost family_args = a.deep_view();
                match args {
                    Some(extra) => {
                        let mut extras = clone_strings(extra);
                        a.append(&mut extras);
                    },
                    None => {},
                }
                proof {
                    assert(a.deep_view() =~~= family_args + opt_args_view(*args));
                }
                let req_env = match cfg_env {
                    Some(ps) => expand_pairs(ps, env),
                    None => Vec::new(),
                };
                let mut program_string = String::new();
                program_string.append(program);
                Ok(
                    TerminalPlan::Spawn(
                        SpawnRequest { program: program_string, args: a, current_dir, env: req_env },
                    ),
                )
            },
            _ => Err(DispatchError::InvalidConfig),
        }
    }

    /// Packages the immediate process outcome of a terminal open, with the
    /// same still-running-counts-as-success rule as a launch.
    pub fn interpret_outcome(&self, terminal: &str, outcome: &SpawnOutcome, elapsed_ms: u64) -> (r:
        ActionResult)
        ensures
            r.success == spawn_outcome_success(*outcome),
            r.message@ == terminal_outcome_message(terminal@, *outcome),
            r.execution_time_ms == elapsed_ms,
            r.output is None,
            r.error_code == spawn_outcome_error_code(*outcome),
    {
        match outcome {
            SpawnOutcome::Exited(c) => {
                let clean = match c {
                    Some(code) => *code == 0,
                    None => false,
                };
                if clean {
                    let mut m = String::from_str("Terminal '");
                    m.append(terminal);
                    m.append("' opened successfully");
                    ActionResult {
                        success: true,
                        message: m,
                        execution_time_ms: elapsed_ms,
                        output: None,
                        error_code: None,
                    }
                } else {
                    let mut m = String::from_str("Terminal '");
                    m.append(terminal);
                    m.append("' exited with error");
                    ActionResult {
                        success: false,
                        message: m,
                        execution_time_ms: elapsed_ms,
                        output: None,
                        error_code: *c,
                    }
                }
            },
            SpawnOutcome::StillRunning => {
                let mut m = String::from_str("Terminal '");
                m.append(terminal);
                m.append("' opened successfully");
                ActionResult {
                    success: true,
                    message: m,
                    execution_time_ms: elapsed_ms,
                    output: None,
                    error_code: None,
                }
            },
            SpawnOutcome::StatusError(e) => {
                let mut m = String::from_str("Failed to check terminal status: ");
                m.append(e.as_str());
                ActionResult {
                    success: false,
                    message: m,
                    execution_time_ms: elapsed_ms,
                    output: None,
                    error_code: None,
                }
            },
            SpawnOutcome::SpawnError(e) => {
                let mut m = String::from_str("Failed to open terminal '");
                m.append(terminal);
                m.append("': ");
                m.append(e.as_str());
                ActionResult {
                    success: false,
                    message: m,
                    execution_time_ms: elapsed_ms,
                    output: None,
                    error_code: None,
                }
            },
        }
    }
}

/// Whether every recorded step succeeded.
pub open spec fn all_success(rs: Seq<ActionResult>) -> bool {
    forall|i: int| 0 <= i < rs.len() ==> rs[i].success
}

/// How many recorded steps succeeded.
pub open spec fn count_success(rs: Seq<ActionResult>) -> nat
    decreases rs.len(),
{
    if rs.len() == 0 {
        0
    } else {
        count_success(rs.drop_last()) + (if rs.last().success {
            1nat
        } else {
            0nat
        })
    }
}

/// The aggregate message of a composite: successful over attempted.
pub open spec fn multi_message(rs: Seq<ActionResult>) -> Seq<char> {
    "Multi-action: "@ + dec_str(count_success(rs)) + "/"@ + dec_str(rs.len()) + " steps successful"@
}

/// One result rendered as a JSON object.
pub open spec fn json_result(r: ActionResult) -> Seq<char> {
    "{\"success\":"@ + (if r.success {
        "true"@
    } else {
        "false"@
    }) + ",\"message\":"@ + json_string(r.message@) + ",\"execution_time_ms\":"@ + dec_str(
        r.execution_time_ms as nat,
    ) + ",\"output\":"@ + (match r.output {
        Some(o) => json_string(o@),
        None => "null"@,
    }) + ",\"error_code\":"@ + (match r.error_code {
        Some(c) => int_str(c as int),
        None => "null"@,
    }) + "}"@
}

/// The comma-separated items of a rendered result array.
pub open spec fn json_results_items(rs: Seq<ActionResult>) -> Seq<char>
    decreases rs.len(),
{
    if rs.len() == 0 {
        Seq::<char>::empty()
    } else if rs.len() == 1 {
        json_result(rs[0])
    } else {
        json_results_items(rs.drop_last()) + ","@ + json_result(rs.last())
    }
}

/// A result list rendered as a JSON array.
pub open spec fn json_results(rs: Seq<ActionResult>) -> Seq<char> {
    "["@ + json_results_items(rs) + "]"@
}

/// `r` rendered as a JSON object.
pub fn render_result_json(r: &ActionResult) -> (s: String)
    ensures
        s@ == json_result(*r),
{
    let mut s = String::from_str("{\"success\":");
    if r.success {
        s.append("true");
    } else {
        s.append("false");
    }
    s.append(",\"message\":");
    let m = render_json_string(r.message.as_str());
    s.append(m.as_str());
    s.append(",\"execution_time_ms\":");
    let t = u64_to_string(r.execution_time_ms);
    s.append(t.as_str());
    s.append(",\"output\":");
    match &r.output {
        Some(o) => {
            let oj = render_json_string(o.as_str());
            s.append(oj.as_str());
        },
        None => {
            s.append("null");
        },
    }
    s.append(",\"error_code\":");
    match &r.error_code {
        Some(c) => {
            let cj = i32_to_string(*c);
            s.append(cj.as_str());
        },
        None => {
            s.append("null");
        },
    }
    s.append("}");
    s
}

/// `rs` rendered as a JSON array.
pub fn render_results_json(rs: &Vec<ActionResult>) -> (s: String)
    ensures
        s@ == json_results(rs@),
{
    let mut s = String::from_str("[");
    let mut i: usize = 0;
    while i < rs.len()
        invariant
            i <= rs@.len(),
            s@ == "["@ + json_results_items(rs@.subrange(0, i as int)),
        decreases rs@.len() - i,
    {
        if i > 0 {
            s.append(",");
        }
        let item = render_result_json(&rs[i]);
        s.append(item.as_str());
        i = i + 1;
        proof {
            let pre = rs@.subrange(0, i as int);
            assert(pre.drop_last() =~= rs@.subrange(0, i - 1));
            assert(pre.last() == rs@[i - 1]);
        }
    }
    s.append("]");
    proof {
        assert(rs@.subrange(0, rs@.len() as int) =~= rs@);
    }
    s
}

/// One in-progress run of a composite action: the ordered sub-actions are
/// dispatched one at a time, each outcome is recorded here, and the
/// stop-on-error policy decides whether the run goes on.
#[derive(Debug)]
pub struct MultiRun {
    /// Pause between consecutive attempted steps, in milliseconds.
    pub delay_between_ms: u64,
    /// Whether the first failing step halts the remaining ones.
    pub stop_on_error: bool,
    /// How many sub-actions the composite holds.
    pub total: usize,
    /// The results of the steps attempted so far, in order.
    pub attempted: Vec<ActionResult>,
    /// The index of the next step to dispatch.
    pub next_index: usize,
    /// Whether a failing step has halted the run.
    pub stopped: bool,
}

impl MultiRun {
    /// The index of the next step to dispatch, or nothing when the run is
    /// over: every step was attempted, or a failure halted it.
    pub fn next_step(&self) -> (r: Option<usize>)
        ensures
            r == (if !self.stopped && self.next_index < self.total {
                Some(self.next_index)
            } else {
                None::<usize>
            }),
    {
        if !self.stopped && self.next_index < self.total {
            Some(self.next_index)
        } else {
            None
        }
    }

    /// Records one attempted step's result and moves to the next step.
    /// A failure halts the run when stop-on-error is set. The returned
    /// flag says whether to pause before the next step: only between two
    /// attempted steps, and only for a positive delay.
    pub fn record(&mut self, result: ActionResult) -> (delay_next: bool)
        requires
            !old(self).stopped,
            old(self).next_index < old(self).total,
        ensures
            final(self).attempted@ == old(self).attempted@.push(result),
            final(self).next_index == old(self).next_index + 1,
            final(self).stopped == (old(self).stop_on_error && !result.success),
            final(self).delay_between_ms == old(self).delay_between_ms,
            final(self).stop_on_error == old(self).stop_on_error,
            final(self).total == old(self).total,
            delay_next == (!final(self).stopped && old(self).next_index + 1 < old(self).total && old(
                self,
            ).delay_between_ms > 0),
    {
        let success = result.success;
        self.attempted.push(result);
        self.next_index = self.next_index + 1;
        if self.stop_on_error && !success {
            self.stopped = true;
        }
        !self.stopped && self.next_index < self.total && self.delay_between_ms > 0
    }

    /// The aggregate result: success only when every attempted step
    /// succeeded, a successful-over-attempted message, and the attempted
    /// results serialized as a JSON array in `output`.
    pub fn finish(&self, elapsed_ms: u64) -> (r: ActionResult)
        ensures
            r.success == all_success(self.attempted@),
            r.message@ == multi_message(self.attempted@),
            r.execution_time_ms == elapsed_ms,
            r.output matches Some(o) && o@ == json_results(self.attempted@),
            r.error_code is None,
    {
        let n = self.attempted.len();
        let mut successes: usize = 0;
        let mut ok = true;
        let mut i: usize = 0;
        while i < n
            invariant
                n == self.attempted@.len(),
                i <= n,
                successes == count_success(self.attempted@.subrange(0, i as int)),
                successes <= i,
                ok == all_success(self.attempted@.subrange(0, i as int)),
            decreases n - i,
        {
            proof {
                let pre = self.attempted@.subrange(0, i + 1);
                assert(pre.drop_last() =~= self.attempted@.subrange(0, i as int));
                assert(pre.last() == self.attempted@[i as int]);
            }
            if self.attempted[i].success {
                successes = successes + 1;
            } else {
                ok = false;
            }
            i = i + 1;
            proof {
                assert(all_success(self.attempted@.subrange(0, i as int)) == (all_success(
                    self.attempted@.subrange(0, i - 1),
                ) && self.attempted@[i - 1].success)) by {
                    let cur = self.attempted@.subrange(0, i as int);
                    let pre = self.attempted@.subrange(0, i - 1);
                    assert(forall|j: int| 0 <= j < pre.len() ==> pre[j] == cur[j]);
                    assert(cur[i - 1] == self.attempted@[i - 1]);
                }
            }
        }
        proof {
            assert(self.attempted@.subrange(0, n as int) =~= self.attempted@);
        }
        let mut m = String::from_str("Multi-action: ");
        let cs = usize_to_string(successes);
        m.append(cs.as_str());
        m.append("/");
        let ts = usize_to_string(n);
        m.append(ts.as_str());
        m.append(" steps successful");
        let output = render_results_json(&self.attempted);
        ActionResult {
            success: ok,
            message: m,
            execution_time_ms: elapsed_ms,
            output: Some(output),
            error_code: None,
        }
    }
}

/// Runs an ordered list of sub-actions with configurable pacing and
/// failure policy, recursing through the dispatcher for each child.
pub struct MultiActionExecutor;

impl MultiActionExecutor {
    pub fn supports_action_type(&self, config: &ActionConfig) -> (r: bool)
        ensures
            r == (config is MultiAction),
    {
        matches!(config, ActionConfig::MultiAction { .. })
    }

    /// Starts a run for a composite description. Absent pacing defaults to
    /// a hundred milliseconds between steps; absent policy defaults to
    /// stopping on the first error.
    pub fn start(&self, config: &ActionConfig) -> (r: Result<MultiRun, DispatchError>)
        ensures
            r is Ok <==> config is MultiAction,
            r is Err ==> r == Err::<MultiRun, DispatchError>(DispatchError::InvalidConfig),
            config matches ActionConfig::MultiAction { actions, delay_between_ms, stop_on_error }
                ==> (r matches Ok(run) && run.total == actions@.len() && run.delay_between_ms == (
            match delay_between_ms {
                Some(d) => *d,
                None => 100u64,
            }) && run.stop_on_error == (match stop_on_error {
                Some(b) => *b,
                None => true,
            }) && run.attempted@.len() == 0 && run.next_index == 0 && !run.stopped),
    {
        match config {
            ActionConfig::MultiAction { actions, delay_between_ms, stop_on_error } => {
                let delay = match delay_between_ms {
                    Some(d) => *d,
                    None => 100,
                };
                let stop = match stop_on_error {
                    Some(b) => *b,
                    None => true,
                };
                Ok(
                    MultiRun {
                        delay_between_ms: delay,
                        stop_on_error: stop,
                        total: actions.len(),
                        attempted: Vec::new(),
                        next_index: 0,
                        stopped: false,
                    },
                )
            },
            _ => Err(DispatchError::InvalidConfig),
        }
    }

    /// The failure result synthesized for a step whose dispatch itself
    /// errored rather than returning a result.
    pub fn step_error_result(&self, index: usize, err: &DispatchError) -> (r: ActionResult)
        requires
            index < usize::MAX,
        ensures
            !r.success,
            r.message@ == "Step "@ + dec_str((index + 1) as nat) + " error: "@
                + dispatch_error_message(*err),
            r.execution_time_ms == 0,
            r.output is None,
            r.error_code is None,
    {
        let mut m = String::from_str("Step ");
        let n = usize_to_string(index + 1);
        m.append(n.as_str());
        m.append(" error: ");
        let e = err.message();
        m.append(e.as_str());
        ActionResult {
            success: false,
            message: m,
            execution_time_ms: 0,
            output: None,
            error_code: None,
        }
    }
}

/// Which executor the dispatcher selected for a description.
#[derive(Debug, Clone, Copy, PartialEq, Eq, Structural)]
pub enum ExecutorKind {
    Launch,
    Open,
    Terminal,
    Multi,
}

/// Routes each description to the first executor, in registration order,
/// whose capability predicate claims it. The engine holds no state beyond
/// this fixed registry, so dispatches never interfere with one another.
pub struct ActionRunner;

impl ActionRunner {
    pub fn new() -> (r: Result<ActionRunner, DispatchError>)
        ensures
            r is Ok,
    {
        Ok(ActionRunner)
    }

    /// The executor that claims `config`: the registration order is
    /// launch, open, terminal, then the composite executor. Declared but
    /// unimplemented variants have no executor, a hard dispatch failure.
    pub fn select_executor(&self, config: &ActionConfig) -> (r: Result<
        ExecutorKind,
        DispatchError,
    >)
        ensures
            config is LaunchApp ==> r == Ok::<ExecutorKind, DispatchError>(ExecutorKind::Launch),
            config is Open ==> r == Ok::<ExecutorKind, DispatchError>(ExecutorKind::Open),
            config is Terminal ==> r == Ok::<ExecutorKind, DispatchError>(ExecutorKind::Terminal),
            config is MultiAction ==> r == Ok::<ExecutorKind, DispatchError>(ExecutorKind::Multi),
            config is SendKeys || config is PowerShell ==> r == Err::<ExecutorKind, DispatchError>(
                DispatchError::NoExecutorFound,
            ),
    {
        let launch = LaunchAppActionExecutor;
        if launch.supports_action_type(config) {
            return Ok(ExecutorKind::Launch);
        }
        if matches!(config, ActionConfig::Open { .. }) {
            return Ok(ExecutorKind::Open);
        }
        if matches!(config, ActionConfig::Terminal { .. }) {
            return Ok(ExecutorKind::Terminal);
        }
        if matches!(config, ActionConfig::MultiAction { .. }) {
            return Ok(ExecutorKind::Multi);
        }
        Err(DispatchError::NoExecutorFound)
    }
}

} // verus!
