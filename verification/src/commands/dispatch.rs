//! How a command's outcome is presented: the progress display, the text
//! line, and the process exit status.

use vstd::prelude::*;
use crate::cli::{Cli, Commands, OutputFormat, ProgressMode};
use crate::commands::diagnostics::{Diagnostic, DiagnosticLevel};
use crate::json::{Json, get_str, member_count};
use crate::text::opt_view;

verus! {

/// The progress display a run uses: none with `--no-progress` or with JSON
/// output (which must stay machine-readable), else the requested mode.
pub open spec fn progress_mode_for(no_progress: bool, progress: ProgressMode, format: OutputFormat) -> ProgressMode {
    if format == OutputFormat::Json || no_progress {
        ProgressMode::Never
    } else {
        progress
    }
}

/// Choose the progress display for the parsed command line.
pub fn effective_progress_mode(cli: &Cli) -> (r: ProgressMode)
    ensures
        r == progress_mode_for(cli.no_progress, cli.progress, cli.format),
{
    let requested = if cli.no_progress {
        ProgressMode::Never
    } else {
        cli.progress
    };
    match cli.format {
        OutputFormat::Json => ProgressMode::Never,
        OutputFormat::Text => requested,
    }
}

/// The status the process exits with after a command: 1 for a failed
/// command; otherwise the child's own non-zero status, if a child process
/// ran and failed; `None` for a normal exit.
pub open spec fn exit_status(is_error: bool, process_exit_code: Option<i32>) -> Option<i32> {
    if is_error {
        Some(1)
    } else {
        match process_exit_code {
            Some(c) => if c != 0 {
                Some(c)
            } else {
                None
            },
            None => None,
        }
    }
}

/// Decide how the process ends after a command.
pub fn exit_code_for(is_error: bool, process_exit_code: Option<i32>) -> (r: Option<i32>)
    ensures
        r == exit_status(is_error, process_exit_code),
{
    if is_error {
        return Some(1);
    }
    match process_exit_code {
        Some(c) => if c != 0 {
            Some(c)
        } else {
            None
        },
        None => None,
    }
}

/// What a command hands to the render layer.
#[derive(Debug)]
pub struct RenderDetail {
    /// The human-readable summary.
    pub text: String,
    /// The machine-readable detail.
    pub json: Json,
    pub is_error: bool,
    /// Print `text` as it is, without the `pybun <command>:` prefix.
    pub raw_text: bool,
    /// Print nothing at all (the command already wrote its own output).
    pub silent: bool,
    /// Exit status of a child process to propagate.
    pub process_exit_code: Option<i32>,
}

impl RenderDetail {
    /// A successful outcome.
    pub fn with_json(text: String, json: Json) -> (r: RenderDetail)
        ensures
            r.text == text,
            r.json == json,
            !r.is_error,
            !r.raw_text,
            !r.silent,
            r.process_exit_code is None,
    {
        RenderDetail { text, json, is_error: false, raw_text: false, silent: false, process_exit_code: None }
    }

    /// A failed outcome.
    pub fn error(text: String, json: Json) -> (r: RenderDetail)
        ensures
            r.text == text,
            r.json == json,
            r.is_error,
            !r.raw_text,
            !r.silent,
            r.process_exit_code is None,
    {
        RenderDetail { text, json, is_error: true, raw_text: false, silent: false, process_exit_code: None }
    }

    /// A successful outcome whose text is printed as it is.
    pub fn with_json_raw_text(text: String, json: Json) -> (r: RenderDetail)
        ensures
            r.text == text,
            r.json == json,
            !r.is_error,
            r.raw_text,
            !r.silent,
            r.process_exit_code is None,
    {
        RenderDetail { text, json, is_error: false, raw_text: true, silent: false, process_exit_code: None }
    }

    /// An outcome that prints nothing.
    pub fn silent() -> (r: RenderDetail)
        ensures
            r.text@.len() == 0,
            r.json matches Json::Object(ms) && ms@.len() == 0,
            !r.is_error,
            !r.raw_text,
            r.silent,
            r.process_exit_code is None,
    {
        RenderDetail {
            text: String::new(),
            json: Json::Object(Vec::new()),
            is_error: false,
            raw_text: false,
            silent: true,
            process_exit_code: None,
        }
    }

    /// The same outcome, carrying a child process's exit status.
    pub fn with_process_exit_code(self, code: i32) -> (r: RenderDetail)
        ensures
            r.text == self.text,
            r.json == self.json,
            r.is_error == self.is_error,
            r.raw_text == self.raw_text,
            r.silent == self.silent,
            r.process_exit_code == Some(code),
    {
        RenderDetail { process_exit_code: Some(code), ..self }
    }
}

/// The JSON envelope reports an error for a failed command, and for a
/// command whose child process exited with a non-zero status.
pub open spec fn reports_error(is_error: bool, process_exit_code: Option<i32>) -> bool {
    is_error || (process_exit_code matches Some(c) && c != 0)
}

/// Whether the JSON envelope's status for `detail` is `error`.
pub fn envelope_reports_error(detail: &RenderDetail) -> (r: bool)
    ensures
        r == reports_error(detail.is_error, detail.process_exit_code),
{
    detail.is_error || match detail.process_exit_code {
        Some(c) => c != 0,
        None => false,
    }
}

/// The text-mode output of a command: nothing when silent; the text as it is
/// when it is raw; otherwise `pybun <command>: <text>`.
pub open spec fn text_output(command: Seq<char>, text: Seq<char>, raw_text: bool, silent: bool) -> Option<Seq<char>> {
    if silent {
        None
    } else if raw_text {
        Some(text)
    } else {
        Some("pybun "@ + command + ": "@ + text)
    }
}

/// Render a command's outcome for text output.
pub fn render_text(command: &str, detail: &RenderDetail) -> (r: Option<String>)
    ensures
        crate::text::opt_view(r) == text_output(command@, detail.text@, detail.raw_text, detail.silent),
{
    if detail.silent {
        return None;
    }
    if detail.raw_text {
        return Some(detail.text.clone());
    }
    Some(String::from_str("pybun ").concat(command).concat(": ").concat(detail.text.as_str()))
}

/// The outcome of a command that is not implemented yet: its message with a
/// note, and a detail that says so and carries the payload.
pub fn stub_detail(message: &str, payload: Json) -> (r: RenderDetail)
    ensures
        r.text@ == message@ + " (not implemented yet)"@,
        !r.is_error,
        r.json matches Json::Object(ms) && ms@.len() == 3 && ms@[0].0@ == "status"@ && (ms@[0].1 matches Json::Str(
            st,
        ) && st@ == "stub"@) && ms@[1].0@ == "message"@ && (ms@[1].1 matches Json::Str(m) && m@ == r.text@)
            && ms@[2].0@ == "payload"@ && ms@[2].1 == payload,
{
    let text = String::from_str(message).concat(" (not implemented yet)");
    let mut members: Vec<(String, Json)> = Vec::new();
    members.push((String::from_str("status"), Json::Str(String::from_str("stub"))));
    members.push((String::from_str("message"), Json::Str(text.clone())));
    members.push((String::from_str("payload"), payload));
    RenderDetail::with_json(text, Json::Object(members))
}


// ---------------------------------------------------------------------------
// Package commands that failed
// ---------------------------------------------------------------------------

/// The commands that `pybun` routes to the package dispatcher.
#[derive(Debug, Clone, Copy, PartialEq, Eq, Structural)]
pub enum PackageCommand {
    Install,
    Add,
    Remove,
    Lock,
    Outdated,
    Upgrade,
}

/// The name a package command is reported under.
pub open spec fn package_command_name(c: PackageCommand) -> Seq<char> {
    match c {
        PackageCommand::Install => "install"@,
        PackageCommand::Add => "add"@,
        PackageCommand::Remove => "remove"@,
        PackageCommand::Lock => "lock"@,
        PackageCommand::Outdated => "outdated"@,
        PackageCommand::Upgrade => "upgrade"@,
    }
}

/// The code of the error reported when a package command fails.
pub open spec fn package_failure_code(c: PackageCommand) -> Seq<char> {
    match c {
        PackageCommand::Install => "E_INSTALL_FAILED"@,
        PackageCommand::Add => "E_ADD_FAILED"@,
        PackageCommand::Remove => "E_REMOVE_FAILED"@,
        PackageCommand::Lock => "E_LOCK_FAILED"@,
        PackageCommand::Outdated => "E_OUTDATED_FAILED"@,
        PackageCommand::Upgrade => "E_UPGRADE_FAILED"@,
    }
}

/// What the error reported when a package command fails suggests.
pub open spec fn package_failure_hint(c: PackageCommand) -> Seq<char> {
    match c {
        PackageCommand::Install =>
            "Check --index/--require and network connectivity, then re-run `pybun install`. Use --format=json for full diagnostics."@,
        PackageCommand::Add =>
            "Verify the package name/version and pyproject.toml, then retry `pybun add <package>`."@,
        PackageCommand::Remove =>
            "Verify the package is listed in pyproject.toml, then retry `pybun remove <package>`."@,
        PackageCommand::Lock =>
            "Check --index/--require and network connectivity, then re-run `pybun lock`."@,
        PackageCommand::Outdated =>
            "Run `pybun install` to generate pybun.lockb, then re-run `pybun outdated`."@,
        PackageCommand::Upgrade =>
            "Run `pybun install` to generate the lockfile, then re-run `pybun upgrade`."@,
    }
}

/// Whether the dispatcher adds its own error for a failure: `add` and
/// `remove` always do; the other commands only when they recorded no error
/// diagnostic of their own.
pub open spec fn adds_fallback_error(c: PackageCommand, recorded_error: bool) -> bool {
    match c {
        PackageCommand::Add | PackageCommand::Remove => true,
        _ => !recorded_error,
    }
}

/// `d` is an error diagnostic with this code, message and suggestion and
/// nothing else.
pub open spec fn is_coded_error(d: Diagnostic, code: Seq<char>, message: Seq<char>, hint: Seq<char>) -> bool {
    &&& d.level == DiagnosticLevel::Error
    &&& opt_view(d.code) == Some(code)
    &&& d.message@ == message
    &&& opt_view(d.suggestion) == Some(hint)
    &&& d.file is None
    &&& d.line is None
    &&& d.context is None
}

/// An error diagnostic with a code, a message and a suggestion.
pub fn coded_error(code: &str, message: String, hint: &str) -> (d: Diagnostic)
    ensures
        is_coded_error(d, code@, message@, hint@),
{
    Diagnostic {
        level: DiagnosticLevel::Error,
        code: Some(String::from_str(code)),
        message,
        file: None,
        line: None,
        suggestion: Some(String::from_str(hint)),
        context: None,
    }
}

/// `j` is the object `{"error": message}`.
pub open spec fn is_error_object(j: Json, message: Seq<char>) -> bool {
    member_count(j) == Some(1nat) && get_str(j, "error"@) == Some(message)
}

/// The object `{"error": message}`.
pub fn error_object(message: &str) -> (j: Json)
    ensures
        is_error_object(j, message@),
{
    let mut members: Vec<(String, Json)> = Vec::new();
    members.push((String::from_str("error"), Json::Str(String::from_str(message))));
    proof {
        reveal_strlit("error");
    }
    Json::Object(members)
}

/// What the package dispatcher reports when `command` fails with `message`,
/// where `recorded_error` says whether the command already recorded an error
/// diagnostic: the command's name, the error the dispatcher adds (if any),
/// and an error outcome whose detail is `{"error": message}`.
pub fn package_failure(command: PackageCommand, message: &str, recorded_error: bool) -> (r: (
    String,
    Option<Diagnostic>,
    RenderDetail,
))
    ensures
        r.0@ == package_command_name(command),
        r.1 is Some <==> adds_fallback_error(command, recorded_error),
        r.1 matches Some(d) ==> is_coded_error(
            d,
            package_failure_code(command),
            message@,
            package_failure_hint(command),
        ),
        r.2.is_error,
        r.2.text@ == message@,
        is_error_object(r.2.json, message@),
        !r.2.raw_text,
        !r.2.silent,
        r.2.process_exit_code is None,
{
    let (name, code, hint) = match command {
        PackageCommand::Install => (
            "install",
            "E_INSTALL_FAILED",
            "Check --index/--require and network connectivity, then re-run `pybun install`. Use --format=json for full diagnostics.",
        ),
        PackageCommand::Add => (
            "add",
            "E_ADD_FAILED",
            "Verify the package name/version and pyproject.toml, then retry `pybun add <package>`.",
        ),
        PackageCommand::Remove => (
            "remove",
            "E_REMOVE_FAILED",
            "Verify the package is listed in pyproject.toml, then retry `pybun remove <package>`.",
        ),
        PackageCommand::Lock => (
            "lock",
            "E_LOCK_FAILED",
            "Check --index/--require and network connectivity, then re-run `pybun lock`.",
        ),
        PackageCommand::Outdated => (
            "outdated",
            "E_OUTDATED_FAILED",
            "Run `pybun install` to generate pybun.lockb, then re-run `pybun outdated`.",
        ),
        PackageCommand::Upgrade => (
            "upgrade",
            "E_UPGRADE_FAILED",
            "Run `pybun install` to generate the lockfile, then re-run `pybun upgrade`.",
        ),
    };
    let always = match command {
        PackageCommand::Add | PackageCommand::Remove => true,
        _ => false,
    };
    let fallback = if always || !recorded_error {
        Some(coded_error(code, String::from_str(message), hint))
    } else {
        None
    };
    let detail = RenderDetail::error(String::from_str(message), error_object(message));
    (String::from_str(name), fallback, detail)
}

/// The message reported when `add` updated pyproject.toml but the install
/// that follows failed.
pub open spec fn add_install_failure_message(names: Seq<char>, error: Seq<char>) -> Seq<char> {
    "Added "@ + names + " to pyproject.toml but failed to install: "@ + error
}

/// What `add` reports when the install that follows it fails with `error`:
/// the message, and the `E_ADD_INSTALL_FAILED` error the dispatcher adds when
/// the install recorded no error diagnostic of its own.
pub fn add_install_failure(names: &str, error: &str, recorded_error: bool) -> (r: (String, Option<Diagnostic>))
    ensures
        r.0@ == add_install_failure_message(names@, error@),
        r.1 is Some <==> !recorded_error,
        r.1 matches Some(d) ==> is_coded_error(
            d,
            "E_ADD_INSTALL_FAILED"@,
            add_install_failure_message(names@, error@),
            "pyproject.toml was updated; fix the underlying issue (see other diagnostics) and run `pybun install` to finish installing dependencies."@,
        ),
{
    let message = String::from_str("Added ").concat(names).concat(" to pyproject.toml but failed to install: ").concat(error);
    let diagnostic = if recorded_error {
        None
    } else {
        Some(coded_error(
            "E_ADD_INSTALL_FAILED",
            message.clone(),
            "pyproject.toml was updated; fix the underlying issue (see other diagnostics) and run `pybun install` to finish installing dependencies.",
        ))
    };
    (message, diagnostic)
}


// ---------------------------------------------------------------------------
// Routing and tooling commands that failed
// ---------------------------------------------------------------------------

/// The dispatcher a command is routed to.
#[derive(Debug, Clone, Copy, PartialEq, Eq, Structural)]
pub enum DispatchGroup {
    Package,
    Execution,
    Testing,
    Tooling,
    Maintenance,
    Python,
    Project,
}

/// The dispatcher of each command.
pub open spec fn group_of(c: Commands) -> DispatchGroup {
    match c {
        Commands::Install(_) | Commands::Add(_) | Commands::Remove(_) | Commands::Lock(_)
        | Commands::Outdated(_) | Commands::Upgrade(_) => DispatchGroup::Package,
        Commands::Run(_) => DispatchGroup::Execution,
        Commands::Test(_) => DispatchGroup::Testing,
        Commands::X(_) | Commands::Build(_) | Commands::SelfCmd(_) | Commands::ModuleFind(_)
        | Commands::LazyImport(_) | Commands::Watch(_) | Commands::Profile(_) | Commands::Schema(_)
        | Commands::Telemetry(_) => DispatchGroup::Tooling,
        Commands::Doctor(_) | Commands::Mcp(_) | Commands::Gc(_) => DispatchGroup::Maintenance,
        Commands::Python(_) => DispatchGroup::Python,
        Commands::Init(_) => DispatchGroup::Project,
    }
}

/// Routes a command to its dispatcher.
pub fn dispatch_group(command: &Commands) -> (r: DispatchGroup)
    ensures
        r == group_of(*command),
{
    match command {
        Commands::Install(_) | Commands::Add(_) | Commands::Remove(_) | Commands::Lock(_)
        | Commands::Outdated(_) | Commands::Upgrade(_) => DispatchGroup::Package,
        Commands::Run(_) => DispatchGroup::Execution,
        Commands::Test(_) => DispatchGroup::Testing,
        Commands::X(_) | Commands::Build(_) | Commands::SelfCmd(_) | Commands::ModuleFind(_)
        | Commands::LazyImport(_) | Commands::Watch(_) | Commands::Profile(_) | Commands::Schema(_)
        | Commands::Telemetry(_) => DispatchGroup::Tooling,
        Commands::Doctor(_) | Commands::Mcp(_) | Commands::Gc(_) => DispatchGroup::Maintenance,
        Commands::Python(_) => DispatchGroup::Python,
        Commands::Init(_) => DispatchGroup::Project,
    }
}

/// The tooling commands whose failure the dispatcher reports.
#[derive(Debug, Clone, Copy, PartialEq, Eq, Structural)]
pub enum ToolingCommand {
    X,
    Build,
    ModuleFind,
    LazyImport,
    Watch,
    Profile,
    Telemetry,
}

/// The name a tooling command is reported under.
pub open spec fn tooling_command_name(c: ToolingCommand) -> Seq<char> {
    match c {
        ToolingCommand::X => "x"@,
        ToolingCommand::Build => "build"@,
        ToolingCommand::ModuleFind => "module-find"@,
        ToolingCommand::LazyImport => "lazy-import"@,
        ToolingCommand::Watch => "watch"@,
        ToolingCommand::Profile => "profile"@,
        ToolingCommand::Telemetry => "telemetry"@,
    }
}

/// The code of the error reported when a tooling command fails.
pub open spec fn tooling_failure_code(c: ToolingCommand) -> Seq<char> {
    match c {
        ToolingCommand::X => "E_X_FAILED"@,
        ToolingCommand::Build => "E_BUILD_FAILED"@,
        ToolingCommand::ModuleFind => "E_MODULE_FIND_FAILED"@,
        ToolingCommand::LazyImport => "E_LAZY_IMPORT_FAILED"@,
        ToolingCommand::Watch => "E_WATCH_FAILED"@,
        ToolingCommand::Profile => "E_PROFILE_FAILED"@,
        ToolingCommand::Telemetry => "E_TELEMETRY_FAILED"@,
    }
}

/// What the error reported when a tooling command fails suggests.
pub open spec fn tooling_failure_hint(c: ToolingCommand) -> Seq<char> {
    match c {
        ToolingCommand::X =>
            "Verify the tool/package name and that it provides a console entry point, then retry `pybun x <tool>`."@,
        ToolingCommand::Build =>
            "Ensure the `build` package is installed (`pybun add build --dev`) and pyproject.toml is valid, then re-run `pybun build`."@,
        ToolingCommand::ModuleFind =>
            "Verify the module name and that the target environment is set up, then re-run `pybun module-find`."@,
        ToolingCommand::LazyImport =>
            "Verify the target script/module path, then re-run `pybun lazy-import`."@,
        ToolingCommand::Watch =>
            "Verify the watch target and include/exclude patterns, then re-run `pybun watch`."@,
        ToolingCommand::Profile =>
            "Check the profile name and the [tool.pybun.profiles] section of pyproject.toml, then re-run `pybun profile`."@,
        ToolingCommand::Telemetry =>
            "Check $PYBUN_HOME permissions and the telemetry configuration, then re-run `pybun telemetry`."@,
    }
}

/// `build` adds its error only when it recorded none of its own; the other
/// tooling commands always do.
pub open spec fn tooling_adds_fallback_error(c: ToolingCommand, recorded_error: bool) -> bool {
    match c {
        ToolingCommand::Build => !recorded_error,
        _ => true,
    }
}

/// What the tooling dispatcher reports when `command` fails with `message`
/// (see [`package_failure`]).
pub fn tooling_failure(command: ToolingCommand, message: &str, recorded_error: bool) -> (r: (
    String,
    Option<Diagnostic>,
    RenderDetail,
))
    ensures
        r.0@ == tooling_command_name(command),
        r.1 is Some <==> tooling_adds_fallback_error(command, recorded_error),
        r.1 matches Some(d) ==> is_coded_error(
            d,
            tooling_failure_code(command),
            message@,
            tooling_failure_hint(command),
        ),
        r.2.is_error,
        r.2.text@ == message@,
        is_error_object(r.2.json, message@),
        !r.2.raw_text,
        !r.2.silent,
        r.2.process_exit_code is None,
{
    let (name, code, hint) = match command {
        ToolingCommand::X => (
            "x",
            "E_X_FAILED",
            "Verify the tool/package name and that it provides a console entry point, then retry `pybun x <tool>`.",
        ),
        ToolingCommand::Build => (
            "build",
            "E_BUILD_FAILED",
            "Ensure the `build` package is installed (`pybun add build --dev`) and pyproject.toml is valid, then re-run `pybun build`.",
        ),
        ToolingCommand::ModuleFind => (
            "module-find",
            "E_MODULE_FIND_FAILED",
            "Verify the module name and that the target environment is set up, then re-run `pybun module-find`.",
        ),
        ToolingCommand::LazyImport => (
            "lazy-import",
            "E_LAZY_IMPORT_FAILED",
            "Verify the target script/module path, then re-run `pybun lazy-import`.",
        ),
        ToolingCommand::Watch => (
            "watch",
            "E_WATCH_FAILED",
            "Verify the watch target and include/exclude patterns, then re-run `pybun watch`.",
        ),
        ToolingCommand::Profile => (
            "profile",
            "E_PROFILE_FAILED",
            "Check the profile name and the [tool.pybun.profiles] section of pyproject.toml, then re-run `pybun profile`.",
        ),
        ToolingCommand::Telemetry => (
            "telemetry",
            "E_TELEMETRY_FAILED",
            "Check $PYBUN_HOME permissions and the telemetry configuration, then re-run `pybun telemetry`.",
        ),
    };
    let only_unrecorded = match command {
        ToolingCommand::Build => true,
        _ => false,
    };
    let fallback = if !only_unrecorded || !recorded_error {
        Some(coded_error(code, String::from_str(message), hint))
    } else {
        None
    };
    let detail = RenderDetail::error(String::from_str(message), error_object(message));
    (String::from_str(name), fallback, detail)
}

/// What the SBOM part of a build reports when no SBOM was produced:
/// `skipped` when one was asked for, `not_requested` otherwise.
pub fn sbom_status(requested: bool) -> (r: &'static str)
    ensures
        r@ == if requested { "skipped"@ } else { "not_requested"@ },
{
    if requested {
        "skipped"
    } else {
        "not_requested"
    }
}


// ---------------------------------------------------------------------------
// `pybun run` outcomes
// ---------------------------------------------------------------------------

/// The error reported for a script that exited with a nonzero status and
/// left no Python traceback to explain it (a traceback is reported from its
/// own contents instead); none for a script that succeeded.
pub fn nonzero_exit_diagnostic(exit_code: i32, has_traceback: bool) -> (r: Option<Diagnostic>)
    ensures
        r is Some <==> (exit_code != 0 && !has_traceback),
        r matches Some(d) ==> is_coded_error(
            d,
            "E_SCRIPT_EXIT_NONZERO"@,
            "Script exited with a nonzero status (exit_code="@ + crate::commands::run::signed_dec(exit_code as int)
                + ")"@,
            "Check detail.exit_code and the script's stdout/stderr for the cause."@,
        ),
{
    if exit_code != 0 && !has_traceback {
        let n = crate::commands::run::signed_text(exit_code);
        let message = String::from_str("Script exited with a nonzero status (exit_code=").concat(n.as_str()).concat(")");
        Some(coded_error(
            "E_SCRIPT_EXIT_NONZERO",
            message,
            "Check detail.exit_code and the script's stdout/stderr for the cause.",
        ))
    } else {
        None
    }
}

/// What the execution dispatcher reports when `pybun run` fails with
/// `message`: the `E_RUN_FAILED` error and an error outcome whose detail is
/// `{"error": message}`.
pub fn run_failure(message: &str) -> (r: (Diagnostic, RenderDetail))
    ensures
        is_coded_error(
            r.0,
            "E_RUN_FAILED"@,
            message@,
            "Check the script path and any PEP 723 inline metadata, then re-run `pybun run <script>`."@,
        ),
        r.1.is_error,
        r.1.text@ == message@,
        is_error_object(r.1.json, message@),
        !r.1.raw_text,
        !r.1.silent,
        r.1.process_exit_code is None,
{
    let d = coded_error(
        "E_RUN_FAILED",
        String::from_str(message),
        "Check the script path and any PEP 723 inline metadata, then re-run `pybun run <script>`.",
    );
    (d, RenderDetail::error(String::from_str(message), error_object(message)))
}

} // verus!
