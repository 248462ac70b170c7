use pybun::build_cache::{build_failure, build_summary};
use pybun::cache::size::parse_size;
use pybun::cli::{TestArgs, TestBackend, WatchArgs};
use pybun::commands::diagnostics::DiagnosticLevel;
use pybun::cli::{Commands, GcArgs};
use pybun::commands::dispatch::{
    add_install_failure, dispatch_group, package_failure, sbom_status, tooling_failure, DispatchGroup, PackageCommand,
    ToolingCommand,
};
use pybun::commands::tooling::{tool_install_args, tool_request};
use pybun::commands::install::{lock_drift_warning, LockedPackage};
use pybun::commands::install::{lock_target, recorded_python_version, select_dependency_scope, DependencyScope};
use pybun::commands::dispatch::{nonzero_exit_diagnostic, run_failure};
use pybun::commands::test_runner::member_test_paths;
use pybun::commands::install::{
    is_version_change, lockfile_missing_error, outdated_entry, outdated_lockfile_missing_error, upgrade_requirements, Dependency,
    UpgradeRequirement,
};
use pybun::commands::run::{
    inline_code_summary, plan_script_run, sandbox_allows_network, sandbox_kill_diagnostic, Pep723Runner, ScriptFacts,
    ScriptRunPlan, ScriptRunRequest,
};
use pybun::commands::install::{
    install_step, plan_downloads, InstallAction, InstallEvent, InstallStage, InstallState, SelectedArtifact,
};
use pybun::commands::maintenance::{doctor_report, CheckStatus, DoctorFindings, PypiCacheStats};
use pybun::commands::test_runner::{
    external_runner_args, outcome_diagnostics, plan_test_run, CompatWarning, TestItem, TestOutcome, TestRunMode,
    TestRunResult, WarningSeverity,
};
use pybun::commands::watch::{watch_config, watch_plan, WatchConfig, WatchPlan};
use pybun::help::{command_help_json, HelpArg, HelpCommand, HelpSubcommand};
use pybun::json::Json;

fn strings(v: &[&str]) -> Vec<String> {
    v.iter().map(|s| s.to_string()).collect()
}

// ---------------------------------------------------------------------------
// Package dispatcher
// ---------------------------------------------------------------------------

fn error_member(j: &Json) -> Option<String> {
    match j {
        Json::Object(members) if members.len() == 1 => match &members[0] {
            (k, Json::Str(v)) if k == "error" => Some(v.clone()),
            _ => None,
        },
        _ => None,
    }
}

#[test]
fn install_failure_without_own_diagnostic_gets_fallback_error() {
    let (name, diag, detail) = package_failure(PackageCommand::Install, "resolution failed", false);
    assert_eq!(name, "install");
    let d = diag.expect("fallback error");
    assert_eq!(d.level, DiagnosticLevel::Error);
    assert_eq!(d.code.as_deref(), Some("E_INSTALL_FAILED"));
    assert_eq!(d.message, "resolution failed");
    assert!(detail.is_error);
    assert_eq!(detail.text, "resolution failed");
    assert_eq!(error_member(&detail.json), Some("resolution failed".to_string()));
}

#[test]
fn install_failure_with_own_diagnostic_adds_nothing() {
    let (_, diag, detail) = package_failure(PackageCommand::Upgrade, "no lockfile", true);
    assert!(diag.is_none());
    assert!(detail.is_error);
}

#[test]
fn add_and_remove_failures_always_report() {
    let (name, diag, _) = package_failure(PackageCommand::Add, "bad spec", true);
    assert_eq!(name, "add");
    assert_eq!(diag.unwrap().code.as_deref(), Some("E_ADD_FAILED"));
    let (name, diag, _) = package_failure(PackageCommand::Remove, "not listed", true);
    assert_eq!(name, "remove");
    assert_eq!(diag.unwrap().code.as_deref(), Some("E_REMOVE_FAILED"));
}

#[test]
fn add_then_install_failure_message() {
    let (message, diag) = add_install_failure("requests, rich", "network down", false);
    assert_eq!(message, "Added requests, rich to pyproject.toml but failed to install: network down");
    assert_eq!(diag.unwrap().code.as_deref(), Some("E_ADD_INSTALL_FAILED"));
    let (_, diag) = add_install_failure("requests", "x", true);
    assert!(diag.is_none());
}

// ---------------------------------------------------------------------------
// Watch
// ---------------------------------------------------------------------------

fn watch_args(target: Option<&str>) -> WatchArgs {
    WatchArgs {
        target: target.map(|t| t.to_string()),
        paths: vec![],
        include_patterns: vec![],
        exclude: vec![],
        debounce: 300,
        clear: false,
        show_config: false,
        shell_command: false,
        dry_run: false,
    }
}

#[test]
fn watch_plan_follows_flag_precedence() {
    let mut args = watch_args(Some("main.py"));
    args.show_config = true;
    args.shell_command = true;
    assert!(matches!(watch_plan(&args, false), WatchPlan::ShowConfig));

    args.show_config = false;
    match watch_plan(&args, false) {
        WatchPlan::ShellCommand { command } => assert_eq!(command, "pybun run main.py"),
        _ => panic!("expected a shell command"),
    }

    let args = watch_args(None);
    assert!(matches!(watch_plan(&args, true), WatchPlan::AwaitingTarget));

    let args = watch_args(Some("main.py"));
    match watch_plan(&args, true) {
        WatchPlan::DryRun { target } => assert_eq!(target, "main.py"),
        _ => panic!("expected a dry run"),
    }
    match watch_plan(&args, false) {
        WatchPlan::Start { target } => assert_eq!(target, "main.py"),
        _ => panic!("expected a watch"),
    }
}

#[test]
fn watch_config_defaults_and_merges() {
    let mut args = watch_args(Some("main.py"));
    args.exclude = strings(&[".git", "build"]);
    args.debounce = 50;
    args.clear = true;
    let defaults = WatchConfig {
        watch_paths: vec![],
        include_patterns: strings(&["*.py"]),
        exclude_patterns: strings(&[".git", "__pycache__"]),
        debounce_ms: 300,
        clear_on_reload: false,
    };
    let config = watch_config(&args, "/work", defaults);
    assert_eq!(config.watch_paths, strings(&["/work"]));
    assert_eq!(config.include_patterns, strings(&["*.py"]));
    assert_eq!(config.exclude_patterns, strings(&[".git", "__pycache__", "build"]));
    assert_eq!(config.debounce_ms, 50);
    assert!(config.clear_on_reload);

    args.paths = strings(&["src"]);
    args.include_patterns = strings(&["*.pyi"]);
    let defaults = WatchConfig {
        watch_paths: vec![],
        include_patterns: strings(&["*.py"]),
        exclude_patterns: vec![],
        debounce_ms: 300,
        clear_on_reload: false,
    };
    let config = watch_config(&args, "/work", defaults);
    assert_eq!(config.watch_paths, strings(&["src"]));
    assert_eq!(config.include_patterns, strings(&["*.pyi"]));
}

// ---------------------------------------------------------------------------
// Doctor
// ---------------------------------------------------------------------------

#[test]
fn doctor_report_healthy_environment() {
    let report = doctor_report(DoctorFindings {
        binary: Some("/usr/bin/pybun".to_string()),
        python: Ok("/usr/bin/python3".to_string()),
        cache: Ok("/home/u/.cache/pybun".to_string()),
        pypi_cache: Some(PypiCacheStats { path: "/home/u/.cache/pypi".to_string(), entry_count: 12, stale_count: 3 }),
        project: None,
    });
    assert!(report.healthy);
    assert_eq!(report.status, "healthy");
    assert_eq!(report.summary, "All checks passed");
    let names: Vec<&str> = report.checks.iter().map(|c| c.name.as_str()).collect();
    assert_eq!(names, vec!["pybun_binary", "python", "cache", "pypi_cache", "project"]);
    assert_eq!(report.checks[1].message.as_deref(), Some("Python found at /usr/bin/python3"));
    assert_eq!(report.checks[3].status, CheckStatus::Info);
    assert_eq!(
        report.checks[3].message.as_deref(),
        Some("PyPI metadata cache: /home/u/.cache/pypi (12 entries, 3 stale)")
    );
    assert_eq!(report.checks[4].status, CheckStatus::Info);
    assert_eq!(report.checks[4].message.as_deref(), Some("No pyproject.toml found in current directory"));
}

#[test]
fn doctor_report_missing_python_is_an_issue() {
    let report = doctor_report(DoctorFindings {
        binary: None,
        python: Err("no interpreter on PATH".to_string()),
        cache: Ok("/c".to_string()),
        pypi_cache: None,
        project: Some("/p/pyproject.toml".to_string()),
    });
    assert!(!report.healthy);
    assert_eq!(report.status, "issues_found");
    assert_eq!(report.summary, "Some issues found");
    assert_eq!(report.checks.len(), 3);
    assert_eq!(report.checks[0].status, CheckStatus::Failed);
    assert_eq!(report.checks[0].message.as_deref(), Some("Python not found: no interpreter on PATH"));
    assert_eq!(report.checks[2].message.as_deref(), Some("Project found at /p/pyproject.toml"));
}

// ---------------------------------------------------------------------------
// Test runs
// ---------------------------------------------------------------------------

fn test_args() -> TestArgs {
    TestArgs {
        paths: vec![],
        shard: None,
        fail_fast: false,
        pytest_compat: false,
        backend: None,
        discover: false,
        parallel: None,
        filter: None,
        verbose: false,
        snapshot: false,
        update_snapshots: false,
        snapshot_dir: None,
        passthrough: vec![],
    }
}

fn item(name: &str, skipped: bool) -> TestItem {
    TestItem {
        name: name.to_string(),
        short_name: name.to_string(),
        path: "test_a.py".to_string(),
        line: 1,
        class_name: None,
        skipped,
    }
}

#[test]
fn plan_test_run_rejects_bad_shard() {
    let mut args = test_args();
    args.shard = Some("0/2".to_string());
    match plan_test_run(&args, TestBackend::Pytest, vec![], &[], false) {
        Err(e) => assert_eq!(e, "shard values must be greater than 0"),
        Ok(_) => panic!("expected an error"),
    }
}

#[test]
fn plan_test_run_filters_shards_and_counts() {
    let mut args = test_args();
    args.filter = Some("math".to_string());
    args.shard = Some("1/2".to_string());
    args.backend = Some(TestBackend::Pybun);
    let tests = vec![item("test_math_a", false), item("test_io", false), item("test_math_b", true), item("test_math_c", false)];
    let warning = CompatWarning {
        code: "W001".to_string(),
        message: "fixture".to_string(),
        path: "test_a.py".to_string(),
        line: 3,
        severity: WarningSeverity::Warning,
    };
    let plan = plan_test_run(&args, TestBackend::Pytest, tests, &[warning], false).unwrap();
    assert_eq!(plan.backend, TestBackend::Pybun);
    assert_eq!(plan.shard, Some((1, 2)));
    let names: Vec<&str> = plan.tests.iter().map(|t| t.name.as_str()).collect();
    assert_eq!(names, vec!["test_math_a", "test_math_c"]);
    assert_eq!(plan.runnable, 2);
    assert_eq!(plan.mode, TestRunMode::Native);
    assert_eq!(plan.diagnostics.len(), 1);

    let mut args = test_args();
    args.discover = true;
    let plan = plan_test_run(&args, TestBackend::Unittest, vec![item("t", true)], &[], true).unwrap();
    assert_eq!(plan.mode, TestRunMode::Discover);
    assert_eq!(plan.runnable, 0);
    let plan = plan_test_run(&test_args(), TestBackend::Unittest, vec![], &[], true).unwrap();
    assert_eq!(plan.mode, TestRunMode::DryRun);
    let plan = plan_test_run(&test_args(), TestBackend::Unittest, vec![], &[], false).unwrap();
    assert_eq!(plan.mode, TestRunMode::External);
}

#[test]
fn pytest_runner_arguments() {
    let mut args = test_args();
    args.fail_fast = true;
    args.verbose = true;
    args.filter = Some("slow".to_string());
    args.parallel = Some(4);
    args.passthrough = strings(&["--maxfail=2"]);
    let argv = external_runner_args(&args, TestBackend::Pytest, &strings(&["tests"]), true);
    assert_eq!(argv, strings(&["-m", "pytest", "-x", "-v", "-k", "slow", "-n", "4", "tests", "--maxfail=2"]));
}

#[test]
fn unittest_runner_arguments() {
    let mut args = test_args();
    args.fail_fast = true;
    let argv = external_runner_args(&args, TestBackend::Unittest, &[], false);
    assert_eq!(argv, strings(&["-m", "unittest", "-f", "discover"]));
    let argv = external_runner_args(&args, TestBackend::Unittest, &strings(&["optimizer/tests"]), true);
    assert_eq!(argv, strings(&["-m", "unittest", "-f", "discover", "-s", "optimizer/tests"]));
    let argv = external_runner_args(&args, TestBackend::Unittest, &strings(&["a.py", "b.py"]), false);
    assert_eq!(argv, strings(&["-m", "unittest", "-f", "a.py", "b.py"]));
}

fn result(name: &str, outcome: TestOutcome, stderr: &str) -> TestRunResult {
    TestRunResult {
        name: name.to_string(),
        path: "test_a.py".to_string(),
        line: 7,
        outcome,
        stderr: stderr.to_string(),
        retries: 0,
    }
}

#[test]
fn native_outcomes_report_failures_and_timeouts() {
    let results = vec![
        result("ok", TestOutcome::Passed, ""),
        result("bad", TestOutcome::Failed, "AssertionError"),
        result("skip", TestOutcome::Skipped, ""),
        result("hang", TestOutcome::Timeout, ""),
    ];
    let diags = outcome_diagnostics(&results);
    assert_eq!(diags.len(), 2);
    assert_eq!(diags[0].code.as_deref(), Some("E_TEST_FAILED"));
    assert_eq!(diags[0].message, "FAILED bad");
    assert_eq!(diags[0].line, Some(7));
    assert!(matches!(&diags[0].context, Some(Json::Str(s)) if s == "AssertionError"));
    assert_eq!(diags[1].code.as_deref(), Some("E_TEST_TIMEOUT"));
    assert_eq!(diags[1].message, "TIMEOUT hang");
    assert!(diags[1].context.is_none());
}

// ---------------------------------------------------------------------------
// Install
// ---------------------------------------------------------------------------

fn artifact(name: &str, url: Option<&str>, from_source: bool) -> SelectedArtifact {
    SelectedArtifact {
        name: name.to_string(),
        version: "1.0".to_string(),
        filename: format!("{name}-1.0-py3-none-any.whl"),
        url: url.map(|u| u.to_string()),
        hash: Some("abc".to_string()),
        from_source,
    }
}

#[test]
fn plan_downloads_targets_the_cache() {
    let arts = vec![artifact("a", Some("https://x/a.whl"), false), artifact("b", None, false)];
    let requests = plan_downloads("/cache/artifacts", &arts).unwrap();
    assert_eq!(requests.len(), 1);
    assert_eq!(requests[0].url, "https://x/a.whl");
    assert_eq!(requests[0].destination, "/cache/artifacts/a-1.0-py3-none-any.whl");
    assert_eq!(requests[0].checksum.as_deref(), Some("abc"));
    assert!(requests[0].signature.is_none());
}

#[test]
fn plan_downloads_refuses_source_only_packages() {
    let arts = vec![artifact("a", None, true), artifact("b", Some("u"), false), artifact("c", None, true)];
    match plan_downloads("/cache", &arts) {
        Err(d) => {
            assert_eq!(d.code.as_deref(), Some("E_INSTALL_SDIST_ONLY"));
            assert_eq!(
                d.message,
                "The following packages have no pre-built wheel for your platform and require source builds (not yet supported): a==1.0, c==1.0"
            );
        }
        Ok(_) => panic!("expected an error"),
    }
}

#[test]
fn install_flow_from_requirements_to_installed_wheels() {
    let st = InstallState { stage: InstallStage::Gathering, packages: 0 };
    let (st, a) = install_step(st, InstallEvent::Gathered { requirements: 2 }, false, "pybun.lockb");
    assert!(matches!(a, InstallAction::Resolve));
    let (st, a) = install_step(st, InstallEvent::Resolved { packages: 3 }, false, "pybun.lockb");
    assert!(matches!(a, InstallAction::PlanDownloads));
    let (st, a) = install_step(st, InstallEvent::Planned { downloads: 3 }, false, "pybun.lockb");
    assert!(matches!(a, InstallAction::Download));
    let (st, a) = install_step(st, InstallEvent::Downloaded { failures: 0 }, false, "pybun.lockb");
    assert!(matches!(a, InstallAction::FindTarget));
    let (st, a) =
        install_step(st, InstallEvent::TargetFound { system: true, externally_managed: None }, false, "pybun.lockb");
    assert!(matches!(a, InstallAction::CreateVenvAndInstall { .. }));
    let (st, a) = install_step(st, InstallEvent::Installed { count: 3 }, false, "pybun.lockb");
    match a {
        InstallAction::Finish { summary, installed } => {
            assert_eq!(summary, "resolved 3 packages -> pybun.lockb");
            assert_eq!(installed, 3);
        }
        _ => panic!("expected the install to finish"),
    }
    assert_eq!(st.stage, InstallStage::Done);
}

#[test]
fn install_flow_edge_cases() {
    let start = InstallState { stage: InstallStage::Gathering, packages: 0 };
    match install_step(start, InstallEvent::Gathered { requirements: 0 }, false, "x.lock").1 {
        InstallAction::WriteEmptyLock { summary } => assert_eq!(summary, "no dependencies to install -> x.lock"),
        _ => panic!("expected an empty lockfile"),
    }
    let downloading = InstallState { stage: InstallStage::Downloading, packages: 2 };
    match install_step(downloading, InstallEvent::Downloaded { failures: 2 }, false, "x.lock").1 {
        InstallAction::Fail { message, warning, .. } => {
            assert_eq!(message, "failed to download some artifacts");
            assert_eq!(warning.as_deref(), Some("2 downloads failed"));
        }
        _ => panic!("expected a failure"),
    }
    let target = InstallState { stage: InstallStage::FindingTarget, packages: 2 };
    let marker = Some("/usr/lib/python3/EXTERNALLY-MANAGED".to_string());
    match install_step(target, InstallEvent::TargetFound { system: true, externally_managed: marker }, true, "x").1 {
        InstallAction::Fail { diagnostic, .. } => {
            assert_eq!(diagnostic.unwrap().code.as_deref(), Some("E_INSTALL_EXTERNALLY_MANAGED"))
        }
        _ => panic!("expected a refusal"),
    }
    match install_step(target, InstallEvent::TargetFound { system: true, externally_managed: None }, true, "x").1 {
        InstallAction::InstallInto { warning } => assert_eq!(
            warning.as_deref(),
            Some("warning: PyBun is installing into system Python (--system was specified).")
        ),
        _ => panic!("expected a system install"),
    }
    let (st, a) = install_step(start, InstallEvent::Installed { count: 1 }, false, "x");
    assert!(matches!(a, InstallAction::Ignore));
    assert_eq!(st, start);
}

// ---------------------------------------------------------------------------
// Sizes
// ---------------------------------------------------------------------------

#[test]
fn parse_size_ignores_surrounding_space_and_case() {
    assert_eq!(parse_size("  10g "), parse_size("10G"));
    assert_eq!(parse_size(" 500mb"), Ok(524288000));
}

// ---------------------------------------------------------------------------
// Tooling dispatcher and routing
// ---------------------------------------------------------------------------

#[test]
fn tooling_failures_report_their_codes() {
    let (name, diag, detail) = tooling_failure(ToolingCommand::Watch, "no such path", true);
    assert_eq!(name, "watch");
    assert_eq!(diag.unwrap().code.as_deref(), Some("E_WATCH_FAILED"));
    assert!(detail.is_error);
    let (name, diag, _) = tooling_failure(ToolingCommand::Build, "backend failed", true);
    assert_eq!(name, "build");
    assert!(diag.is_none());
    let (_, diag, _) = tooling_failure(ToolingCommand::Build, "backend failed", false);
    assert_eq!(diag.unwrap().code.as_deref(), Some("E_BUILD_FAILED"));
}

#[test]
fn commands_route_to_their_dispatchers() {
    let gc = Commands::Gc(GcArgs { max_size: None, dry_run: false });
    assert_eq!(dispatch_group(&gc), DispatchGroup::Maintenance);
    assert_eq!(sbom_status(true), "skipped");
    assert_eq!(sbom_status(false), "not_requested");
}

// ---------------------------------------------------------------------------
// pybun run
// ---------------------------------------------------------------------------

fn facts() -> ScriptFacts {
    ScriptFacts {
        script_exists: true,
        declared: vec![],
        locked: None,
        backend_setting: None,
        dry_run: false,
        no_cache: false,
        uv_available: false,
    }
}

fn request(target: Option<&str>) -> ScriptRunRequest {
    ScriptRunRequest { code: None, target: target.map(|t| t.to_string()), sandbox: false }
}

#[test]
fn plan_script_run_refusals() {
    match plan_script_run(&request(None), &facts()) {
        Err(e) => assert_eq!(e, "script target is required (e.g., pybun run script.py)"),
        Ok(_) => panic!("expected an error"),
    }
    let mut f = facts();
    f.script_exists = false;
    match plan_script_run(&request(Some("app.py")), &f) {
        Err(e) => assert_eq!(e, "script not found: app.py"),
        Ok(_) => panic!("expected an error"),
    }
    let mut f = facts();
    f.declared = strings(&["requests"]);
    f.backend_setting = Some("pip".to_string());
    match plan_script_run(&request(Some("app.py")), &f) {
        Err(e) => assert_eq!(e, "invalid PYBUN_PEP723_BACKEND value: pip (expected auto|pybun|uv)"),
        Ok(_) => panic!("expected an error"),
    }
}

#[test]
fn plan_script_run_choices() {
    let req = ScriptRunRequest { code: Some("print(1)".to_string()), target: None, sandbox: false };
    assert!(matches!(plan_script_run(&req, &facts()), Ok(ScriptRunPlan::InlineCode)));
    match plan_script_run(&request(Some("app.py")), &facts()) {
        Ok(ScriptRunPlan::Plain { script }) => assert_eq!(script, "app.py"),
        _ => panic!("expected a plain run"),
    }
    let mut f = facts();
    f.declared = strings(&["requests"]);
    f.locked = Some(vec![("requests".to_string(), "2.31.0".to_string())]);
    f.backend_setting = Some(" UV ".to_string());
    f.uv_available = true;
    match plan_script_run(&request(Some("app.py")), &f) {
        Ok(ScriptRunPlan::WithDeps { script, deps, runner, warn_uv_lock }) => {
            assert_eq!(script, "app.py");
            assert_eq!(deps, strings(&["requests==2.31.0"]));
            assert_eq!(runner, Pep723Runner::CachedVenv);
            assert!(warn_uv_lock);
        }
        _ => panic!("expected a run with dependencies"),
    }
}

// ---------------------------------------------------------------------------
// pybun upgrade
// ---------------------------------------------------------------------------

fn dep(name: &str, req: &str) -> Dependency {
    Dependency { name: name.to_string(), requirement: req.to_string() }
}

#[test]
fn upgrade_pins_what_it_does_not_target() {
    let deps = vec![dep("requests", "requests>=2"), dep("rich", "rich"), dep("click", "click<9")];
    let locked = vec![("requests".to_string(), "2.31.0".to_string()), ("rich".to_string(), "13.0.0".to_string())];
    let reqs = upgrade_requirements(&deps, &strings(&["REQUESTS"]), Some(&locked));
    assert!(matches!(&reqs[0], UpgradeRequirement::Declared(q) if q == "requests>=2"));
    assert!(matches!(&reqs[1], UpgradeRequirement::Pinned { name, version } if name == "rich" && version == "13.0.0"));
    assert!(matches!(&reqs[2], UpgradeRequirement::Declared(q) if q == "click<9"));
    let all = upgrade_requirements(&deps, &[], Some(&locked));
    assert!(all.iter().all(|r| matches!(r, UpgradeRequirement::Declared(_))));
}

#[test]
fn upgrade_lockfile_and_change_detection() {
    let d = lockfile_missing_error("/p/pybun.lockb");
    assert_eq!(d.code.as_deref(), Some("E_LOCKFILE_NOT_FOUND"));
    assert_eq!(d.message, "lockfile not found at /p/pybun.lockb. Run 'pybun install' first.");
    assert!(is_version_change(None, "1.0"));
    assert!(is_version_change(Some("1.0"), "1.1"));
    assert!(!is_version_change(Some("1.1"), "1.1"));
}

// ---------------------------------------------------------------------------
// JSON help
// ---------------------------------------------------------------------------

fn member<'a>(j: &'a Json, key: &str) -> Option<&'a Json> {
    match j {
        Json::Object(members) => members.iter().find(|(k, _)| k == key).map(|(_, v)| v),
        _ => None,
    }
}

#[test]
fn command_help_lists_arguments_but_help_and_version() {
    let arg = |id: &str| HelpArg {
        id: id.to_string(),
        help: Some(format!("{id} flag")),
        long: Some(id.to_string()),
        short: None,
        required: false,
        takes_value: false,
        default_values: vec![],
    };
    let mut format = arg("format");
    format.short = Some('f');
    format.takes_value = true;
    format.default_values = strings(&["text"]);
    let cmd = HelpCommand {
        name: "pybun".to_string(),
        about: Some("Fast Python tooling".to_string()),
        long_about: None,
        usage: "Usage: pybun [OPTIONS] <COMMAND>".to_string(),
        args: vec![format, arg("help"), arg("version"), arg("verbose")],
        subcommands: vec![HelpSubcommand { name: "gc".to_string(), about: None }],
    };
    let j = command_help_json(&cmd);
    assert!(matches!(member(&j, "name"), Some(Json::Str(s)) if s == "pybun"));
    assert!(matches!(member(&j, "long_about"), Some(Json::Null)));
    match member(&j, "args") {
        Some(Json::Array(items)) => {
            assert_eq!(items.len(), 2);
            assert!(matches!(member(&items[0], "name"), Some(Json::Str(s)) if s == "format"));
            assert!(matches!(member(&items[0], "short"), Some(Json::Str(s)) if s == "f"));
            assert!(matches!(member(&items[0], "takes_value"), Some(Json::Bool(true))));
            assert!(matches!(member(&items[0], "default_values"), Some(Json::Array(v)) if v.len() == 1));
            assert!(matches!(member(&items[1], "name"), Some(Json::Str(s)) if s == "verbose"));
        }
        _ => panic!("expected the arguments"),
    }
    match member(&j, "subcommands") {
        Some(Json::Array(items)) => {
            assert_eq!(items.len(), 1);
            assert!(matches!(member(&items[0], "about"), Some(Json::Null)));
        }
        _ => panic!("expected the subcommands"),
    }
}

// ---------------------------------------------------------------------------
// pybun outdated
// ---------------------------------------------------------------------------

#[test]
fn outdated_entries() {
    let e = outdated_entry("requests", "2.0.0", "2.31.0", "3.0.0", Some((2, 0, 0)), Some((3, 0, 0))).unwrap();
    assert_eq!(e.package, "requests");
    assert_eq!(e.wanted, "2.31.0");
    assert_eq!(e.kind, "major");
    let e = outdated_entry("rich", "13.0.0", "13.0.0", "13.1.0", Some((13, 0, 0)), Some((13, 1, 0))).unwrap();
    assert_eq!(e.kind, "minor");
    assert!(outdated_entry("click", "8.1.7", "8.1.7", "8.1.7", Some((8, 1, 7)), Some((8, 1, 7))).is_none());
    let d = outdated_lockfile_missing_error();
    assert_eq!(d.message, "pybun.lockb not found. Run 'pybun install' first.");
}

// ---------------------------------------------------------------------------
// Inline code and the sandbox
// ---------------------------------------------------------------------------

#[test]
fn sandbox_network_and_summaries() {
    assert!(sandbox_allows_network(true, None));
    assert!(sandbox_allows_network(false, Some("1")));
    assert!(sandbox_allows_network(false, Some("TRUE")));
    assert!(!sandbox_allows_network(false, Some("yes")));
    assert!(!sandbox_allows_network(false, None));
    assert_eq!(inline_code_summary(true, true, 0), "executed inline code successfully (sandboxed)");
    assert_eq!(inline_code_summary(true, false, 0), "executed inline code successfully");
    assert_eq!(inline_code_summary(false, false, 3), "inline code exited with code 3");
    assert_eq!(inline_code_summary(false, false, -1), "inline code exited with code -1");
}

#[test]
fn sandbox_kill_reports() {
    let d = sandbox_kill_diagnostic(true, 30, 5, true).unwrap();
    assert_eq!(d.code.as_deref(), Some("E_SANDBOX_TIMEOUT"));
    assert_eq!(d.message, "sandboxed process killed after exceeding --sandbox-timeout=30s");
    let d = sandbox_kill_diagnostic(false, 30, 5, true).unwrap();
    assert_eq!(d.code.as_deref(), Some("E_SANDBOX_CPU_LIMIT"));
    assert_eq!(d.message, "sandboxed process killed after exceeding --sandbox-cpu=5s of CPU time");
    assert!(sandbox_kill_diagnostic(false, 30, 0, true).is_none());
    assert!(sandbox_kill_diagnostic(false, 30, 5, false).is_none());
}

// ---------------------------------------------------------------------------
// Workspace selectors
// ---------------------------------------------------------------------------

#[test]
fn member_and_group_selection() {
    let members = strings(&["api", "web"]);
    match select_dependency_scope(Some("api"), Some("dev"), Some(&members)) {
        Ok(Some(DependencyScope::Member { member, group })) => {
            assert_eq!(member, "api");
            assert_eq!(group.as_deref(), Some("dev"));
        }
        _ => panic!("expected a member"),
    }
    match select_dependency_scope(Some("cli"), None, Some(&members)) {
        Err(e) => assert_eq!(e, "workspace member 'cli' not found (available: api, web)"),
        _ => panic!("expected an error"),
    }
    match select_dependency_scope(Some("api"), None, None) {
        Err(e) => assert_eq!(e, "--member requires a workspace; no [tool.pybun.workspace] configuration found"),
        _ => panic!("expected an error"),
    }
    assert!(matches!(select_dependency_scope(None, Some("dev"), Some(&members)), Ok(Some(DependencyScope::WorkspaceGroup { .. }))));
    assert!(matches!(select_dependency_scope(None, Some("dev"), None), Ok(Some(DependencyScope::ProjectGroup { .. }))));
    assert!(matches!(select_dependency_scope(None, None, Some(&members)), Ok(None)));
}

#[test]
fn member_scoped_test_paths() {
    assert_eq!(member_test_paths("/ws/api", &[]), strings(&["/ws/api"]));
    assert_eq!(member_test_paths("/ws/api", &strings(&["tests", "/abs/t.py"])), strings(&["/ws/api/tests", "/abs/t.py"]));
}

// ---------------------------------------------------------------------------
// pybun run outcomes
// ---------------------------------------------------------------------------

#[test]
fn run_outcome_diagnostics() {
    let d = nonzero_exit_diagnostic(2, false).unwrap();
    assert_eq!(d.code.as_deref(), Some("E_SCRIPT_EXIT_NONZERO"));
    assert_eq!(d.message, "Script exited with a nonzero status (exit_code=2)");
    assert!(nonzero_exit_diagnostic(2, true).is_none());
    assert!(nonzero_exit_diagnostic(0, false).is_none());
    let (d, detail) = run_failure("script not found: a.py");
    assert_eq!(d.code.as_deref(), Some("E_RUN_FAILED"));
    assert!(detail.is_error);
    assert_eq!(detail.text, "script not found: a.py");
}

// ---------------------------------------------------------------------------
// pybun lock
// ---------------------------------------------------------------------------

#[test]
fn lock_targets() {
    assert_eq!(lock_target(Some("tool.py"), true, false, "/w").ok(), Some("tool.py.lock".to_string()));
    match lock_target(Some("tool.py"), false, true, "/w") {
        Err(e) => {
            assert_eq!(e.message, "script not found: tool.py");
            assert!(e.diagnostic.is_none());
        }
        Ok(_) => panic!("expected a refusal"),
    }
    assert_eq!(lock_target(None, false, true, "/w").ok(), Some("/w/pybun.lockb".to_string()));
    match lock_target(None, false, false, "/w") {
        Err(e) => assert_eq!(e.diagnostic.unwrap().code.as_deref(), Some("E_LOCK_TARGET_REQUIRED")),
        Ok(_) => panic!("expected a refusal"),
    }
    assert_eq!(recorded_python_version(Some("3.12")), "3.12");
    assert_eq!(recorded_python_version(None), "unknown");
}

// ---------------------------------------------------------------------------
// pybun build
// ---------------------------------------------------------------------------

#[test]
fn build_failures_and_summaries() {
    let (message, d) = build_failure(1, "", "/usr/bin/python3: No module named build");
    assert_eq!(message, "python -m build failed: No module named build");
    assert_eq!(d.unwrap().code.as_deref(), Some("E_BUILD_MISSING_BUILD_PKG"));
    let (message, d) = build_failure(2, "out", "err");
    assert_eq!(message, "python -m build failed with exit code 2.\nstdout:\nout\nstderr:\nerr");
    assert!(d.is_none());
    assert_eq!(build_summary(true, 1, "/p/dist"), "Reused 1 cached artifact from /p/dist");
    assert_eq!(build_summary(false, 2, "/p/dist"), "Built 2 artifacts to /p/dist");
}

// ---------------------------------------------------------------------------
// pybun x
// ---------------------------------------------------------------------------

#[test]
fn tool_requests_and_install_arguments() {
    assert_eq!(tool_request(None), Err("package name is required".to_string()));
    assert_eq!(tool_request(Some("black==24.1.0")), Ok(("black".to_string(), Some("24.1.0".to_string()))));
    assert!(tool_request(Some("--index-url=x")).is_err());
    assert_eq!(
        tool_install_args(true, "/tmp/v", "black"),
        strings(&["pip", "install", "--quiet", "--python", "/tmp/v", "black"])
    );
    assert_eq!(tool_install_args(false, "/tmp/v", "black"), strings(&["install", "--quiet", "black"]));
}

// ---------------------------------------------------------------------------
// Lockfile drift
// ---------------------------------------------------------------------------

fn locked(name: &str, placeholder: bool) -> LockedPackage {
    LockedPackage {
        name: name.to_string(),
        version: "1.0".to_string(),
        wheel: format!("{name}-1.0-py3-none-any.whl"),
        hash: if placeholder { "sha256:placeholder".to_string() } else { "sha256:abcd".to_string() },
        placeholder_hash: placeholder,
    }
}

#[test]
fn lock_drift_lists_unverified_packages() {
    assert!(lock_drift_warning(&[locked("a", false)]).is_none());
    let d = lock_drift_warning(&[locked("a", true), locked("b", false), locked("c", true)]).unwrap();
    assert_eq!(d.level, DiagnosticLevel::Warning);
    assert_eq!(d.code.as_deref(), Some("W_LOCK_PLACEHOLDER_HASH"));
    assert_eq!(d.message, "existing lockfile contains 2 package(s) without verified hashes");
    match d.context.as_ref().and_then(|c| member(c, "packages")) {
        Some(Json::Array(items)) => {
            assert_eq!(items.len(), 2);
            assert!(matches!(member(&items[1], "package"), Some(Json::Str(s)) if s == "c"));
        }
        _ => panic!("expected the packages"),
    }
}
