use pybun::commands::diagnostics::DiagnosticLevel;
use pybun::commands::install::{classify_update, is_missing_sha256};
use pybun::commands::project::{default_project_name, init_summary, render_pyproject, render_readme, sanitize_project_name};
use pybun::commands::run::{capture_stdio, pep723_index_settings, script_lock_hash, script_lock_path, split_env_list, MAX_RUN_STDIO_CAPTURE_BYTES};
use pybun::commands::test_runner::{
    filter_tests, get_pytest_compat_hint, native_backend_compat_diagnostic, normalize_snapshot_stdout,
    normalize_timing_in_line, parse_shard, shard_tests, CompatWarning, TestItem, WarningSeverity,
};
use pybun::commands::tooling::{default_manifest_url, parse_package_spec, release_url_for_version, validate_package_spec};
use pybun::commands::{
    emit_rejected_allow_env_diagnostics, emit_unsupported_resource_limit_diagnostics, join_python_path,
    python_version_env_override, schema_version_from,
};
use pybun::json::Json;
use pybun::cli::{Cli, Commands, GcArgs, OutputFormat, ProgressMode};
use pybun::commands::dispatch::{effective_progress_mode, envelope_reports_error, exit_code_for, render_text, stub_detail, RenderDetail};
use pybun::commands::maintenance::gc_summary;
use pybun::commands::test_runner::{compat_diagnostics, count_runnable, pytest_compat_diagnostic, select_tests};
use pybun::commands::tooling::{self_update_step, self_update_summary, should_fetch_manifest, SelfUpdateStep};
use pybun::commands::install::{
    missing_hash_diagnostic, warn_on_ignored_extras, warn_on_prerelease_fallback, ArtifactChoice, PrereleasePick,
    RequestedExtras,
};
use pybun::commands::watch::{merge_exclude_patterns, watch_target_command};
use pybun::commands::run::{choose_pep723_runner, pep723_backend_setting, pep723_install_deps, warns_uv_lockfile_fallback, Pep723Backend, Pep723Runner};
use pybun::commands::test_runner::flaky_snapshot_diagnostic;

// ---------------------------------------------------------------------------
// Package specs
// ---------------------------------------------------------------------------

#[test]
fn commands_parse_package_spec_simple_name() {
    let (name, version) = parse_package_spec("cowsay");
    assert_eq!(name, "cowsay");
    assert_eq!(version, None);
}

#[test]
fn commands_parse_package_spec_exact_version() {
    let (name, version) = parse_package_spec("cowsay==6.1");
    assert_eq!(name, "cowsay");
    assert_eq!(version, Some("6.1".to_string()));
}

#[test]
fn commands_parse_package_spec_minimum_version() {
    let (name, version) = parse_package_spec("requests>=2.28.0");
    assert_eq!(name, "requests");
    assert_eq!(version, Some("2.28.0".to_string()));
}

#[test]
fn commands_parse_package_spec_maximum_version() {
    let (name, version) = parse_package_spec("numpy<2.0");
    assert_eq!(name, "numpy");
    assert_eq!(version, Some("2.0".to_string()));
}

#[test]
fn commands_parse_package_spec_compatible_version() {
    let (name, version) = parse_package_spec("flask~=2.0.0");
    assert_eq!(name, "flask");
    assert_eq!(version, Some("2.0.0".to_string()));
}

#[test]
fn commands_parse_package_spec_not_equal() {
    let (name, version) = parse_package_spec("django!=3.0");
    assert_eq!(name, "django");
    assert_eq!(version, Some("3.0".to_string()));
}

#[test]
fn tooling_parse_package_spec_simple_name() {
    let (name, version) = parse_package_spec("cowsay");
    assert_eq!(name, "cowsay");
    assert_eq!(version, None);
}

#[test]
fn tooling_parse_package_spec_exact_version() {
    let (name, version) = parse_package_spec("cowsay==6.1");
    assert_eq!(name, "cowsay");
    assert_eq!(version, Some("6.1".to_string()));
}

#[test]
fn tooling_parse_package_spec_minimum_version() {
    let (name, version) = parse_package_spec("requests>=2.28.0");
    assert_eq!(name, "requests");
    assert_eq!(version, Some("2.28.0".to_string()));
}

#[test]
fn tooling_parse_package_spec_maximum_version() {
    let (name, version) = parse_package_spec("numpy<2.0");
    assert_eq!(name, "numpy");
    assert_eq!(version, Some("2.0".to_string()));
}

#[test]
fn tooling_parse_package_spec_compatible_version() {
    let (name, version) = parse_package_spec("flask~=2.0.0");
    assert_eq!(name, "flask");
    assert_eq!(version, Some("2.0.0".to_string()));
}

#[test]
fn tooling_parse_package_spec_not_equal() {
    let (name, version) = parse_package_spec("django!=3.0");
    assert_eq!(name, "django");
    assert_eq!(version, Some("3.0".to_string()));
}

#[test]
fn parse_package_spec_prefers_earlier_operators() {
    // `>=` is tried before `<`, wherever each occurs.
    let (name, version) = parse_package_spec("pkg<3,>=2");
    assert_eq!(name, "pkg<3,");
    assert_eq!(version, Some("2".to_string()));
}

#[test]
fn validate_package_spec_accepts_normal_specs() {
    assert!(validate_package_spec("cowsay").is_ok());
    assert!(validate_package_spec("cowsay==6.1").is_ok());
    assert!(validate_package_spec("requests>=2.28.0").is_ok());
    assert!(validate_package_spec("flask~=2.0.0").is_ok());
    assert!(validate_package_spec("pkg[extra]==1.0").is_ok());
}

#[test]
fn validate_package_spec_rejects_leading_dash_and_bad_chars() {
    assert!(validate_package_spec("-e file:///etc/passwd").is_err());
    assert!(validate_package_spec("--upgrade").is_err());
    assert!(validate_package_spec("").is_err());
    assert!(validate_package_spec("   ").is_err());
    assert!(validate_package_spec("pkg; rm -rf /").is_err());
    assert!(validate_package_spec("pkg && echo pwned").is_err());
    assert!(validate_package_spec("pkg\nrm -rf /").is_err());
}

#[test]
fn validate_package_spec_error_messages() {
    assert_eq!(validate_package_spec(" \t").unwrap_err(), "package spec must not be empty");
    assert_eq!(validate_package_spec("-x").unwrap_err(), "package spec must not start with '-': -x");
    assert_eq!(
        validate_package_spec("a b").unwrap_err(),
        "package spec contains characters outside PEP 508 syntax: a b"
    );
}

// ---------------------------------------------------------------------------
// Self update URLs
// ---------------------------------------------------------------------------

#[test]
fn manifest_url_per_channel() {
    assert_eq!(
        default_manifest_url("nightly"),
        "https://github.com/VOID-TECHNOLOGY-INC/PyBun/releases/download/nightly/pybun-release.json"
    );
    assert_eq!(
        default_manifest_url("stable"),
        "https://github.com/VOID-TECHNOLOGY-INC/PyBun/releases/latest/download/pybun-release.json"
    );
}

#[test]
fn release_url_strips_leading_v() {
    assert_eq!(
        release_url_for_version("v1.2.3"),
        "https://github.com/VOID-TECHNOLOGY-INC/PyBun/releases/tag/v1.2.3"
    );
    assert_eq!(
        release_url_for_version("1.2.3"),
        "https://github.com/VOID-TECHNOLOGY-INC/PyBun/releases/tag/v1.2.3"
    );
    assert_eq!(
        release_url_for_version("vv0.1"),
        "https://github.com/VOID-TECHNOLOGY-INC/PyBun/releases/tag/v0.1"
    );
}

// ---------------------------------------------------------------------------
// Tests: shards, selection, hints, diagnostics
// ---------------------------------------------------------------------------

#[test]
fn commands_test_parse_shard_valid() {
    assert_eq!(parse_shard("1/2").unwrap(), (1, 2));
    assert_eq!(parse_shard("3/4").unwrap(), (3, 4));
    assert_eq!(parse_shard("1/1").unwrap(), (1, 1));
}

#[test]
fn commands_test_parse_shard_invalid() {
    assert!(parse_shard("invalid").is_err());
    assert!(parse_shard("1").is_err());
    assert!(parse_shard("a/b").is_err());
    assert!(parse_shard("0/2").is_err());
    assert!(parse_shard("3/2").is_err());
}

#[test]
fn test_test_parse_shard_valid() {
    assert_eq!(parse_shard("1/2").unwrap(), (1, 2));
    assert_eq!(parse_shard("3/4").unwrap(), (3, 4));
    assert_eq!(parse_shard("1/1").unwrap(), (1, 1));
}

#[test]
fn test_test_parse_shard_invalid() {
    assert!(parse_shard("invalid").is_err());
    assert!(parse_shard("1").is_err());
    assert!(parse_shard("a/b").is_err());
    assert!(parse_shard("0/2").is_err());
    assert!(parse_shard("3/2").is_err());
}

#[test]
fn parse_shard_error_messages() {
    assert_eq!(parse_shard("1/2/3").unwrap_err(), "invalid shard format '1/2/3': expected N/M (e.g., 1/4)");
    assert_eq!(parse_shard("x/2").unwrap_err(), "invalid shard number 'x': must be a positive integer");
    assert_eq!(parse_shard("1/").unwrap_err(), "invalid shard total '': must be a positive integer");
    assert_eq!(parse_shard("0/2").unwrap_err(), "shard values must be greater than 0");
    assert_eq!(parse_shard("3/2").unwrap_err(), "shard 3 cannot be greater than total 2");
    assert_eq!(parse_shard("4294967296/1").unwrap_err(), "invalid shard number '4294967296': must be a positive integer");
    assert_eq!(parse_shard("+2/+3").unwrap(), (2, 3));
}

fn item(name: &str, short: &str, class: Option<&str>) -> TestItem {
    TestItem {
        name: name.to_string(),
        short_name: short.to_string(),
        path: "test_file.py".to_string(),
        line: 1,
        class_name: class.map(|c| c.to_string()),
        skipped: false,
    }
}

fn names(items: &[TestItem]) -> Vec<&str> {
    items.iter().map(|t| t.short_name.as_str()).collect()
}

#[test]
fn filter_tests_matches_name_short_name_or_class() {
    let tests = vec![
        item("test_a.py::test_login", "test_login", None),
        item("test_a.py::TestAuth::test_token", "test_token", Some("TestAuth")),
        item("test_b.py::test_other", "test_other", None),
    ];
    assert_eq!(names(&filter_tests(tests.clone(), "login")), vec!["test_login"]);
    assert_eq!(names(&filter_tests(tests.clone(), "Auth")), vec!["test_token"]);
    assert_eq!(names(&filter_tests(tests.clone(), "test_b")), vec!["test_other"]);
    assert_eq!(names(&filter_tests(tests.clone(), "")), vec!["test_login", "test_token", "test_other"]);
    assert!(filter_tests(tests, "missing").is_empty());
}

#[test]
fn shard_tests_deals_round_robin() {
    let tests: Vec<TestItem> = (0..7).map(|i| item(&format!("t{i}"), &format!("t{i}"), None)).collect();
    assert_eq!(names(&shard_tests(tests.clone(), 1, 3)), vec!["t0", "t3", "t6"]);
    assert_eq!(names(&shard_tests(tests.clone(), 2, 3)), vec!["t1", "t4"]);
    assert_eq!(names(&shard_tests(tests.clone(), 3, 3)), vec!["t2", "t5"]);
    let total: usize = (1..=3).map(|n| shard_tests(tests.clone(), n, 3).len()).sum();
    assert_eq!(total, tests.len());
}

#[test]
fn pytest_compat_hints_by_code() {
    assert_eq!(
        get_pytest_compat_hint("W001"),
        Some("Consider using --backend pytest for session/package scoped fixtures")
    );
    assert_eq!(get_pytest_compat_hint("I001"), Some("Parametrized tests will be expanded during discovery"));
    assert_eq!(get_pytest_compat_hint("W004"), Some("Async fixtures require pytest-asyncio or similar"));
    assert_eq!(get_pytest_compat_hint("W999"), None);
}

#[test]
fn native_backend_compat_diagnostic_prefixes_code_and_suggests_pytest_backend() {
    let warning = CompatWarning {
        code: "W001".to_string(),
        message: "Session/package scoped fixture may need pytest backend: fixture".to_string(),
        path: "test_example.py".to_string(),
        line: 5,
        severity: WarningSeverity::Warning,
    };

    let diag = native_backend_compat_diagnostic(&warning);

    assert_eq!(diag.code.as_deref(), Some("W_TEST_BACKEND_COMPAT_W001"));
    assert_eq!(diag.level, DiagnosticLevel::Warning);
    assert_eq!(diag.file.as_deref(), Some("test_example.py"));
    assert_eq!(diag.line, Some(5));
    assert!(diag.message.contains(&warning.message));
    let suggestion = diag.suggestion.as_deref().unwrap_or("");
    assert!(
        suggestion.contains("--backend=pytest"),
        "expected suggestion to mention --backend=pytest, got: {suggestion:?}"
    );
}

#[test]
fn native_backend_compat_diagnostic_maps_severity_levels() {
    let make = |severity| CompatWarning {
        code: "I001".to_string(),
        message: "info".to_string(),
        path: "t.py".to_string(),
        line: 1,
        severity,
    };

    assert_eq!(native_backend_compat_diagnostic(&make(WarningSeverity::Info)).level, DiagnosticLevel::Info);
    assert_eq!(
        native_backend_compat_diagnostic(&make(WarningSeverity::Warning)).level,
        DiagnosticLevel::Warning
    );
    assert_eq!(native_backend_compat_diagnostic(&make(WarningSeverity::Error)).level, DiagnosticLevel::Error);
}

#[test]
fn native_backend_compat_diagnostic_message_text() {
    let warning = CompatWarning {
        code: "W002".to_string(),
        message: "xfail strict".to_string(),
        path: "t.py".to_string(),
        line: 9,
        severity: WarningSeverity::Warning,
    };
    let diag = native_backend_compat_diagnostic(&warning);
    assert_eq!(
        diag.message,
        "xfail strict (the native --backend=pybun executor may not fully emulate this pytest feature)"
    );
}

// ---------------------------------------------------------------------------
// Snapshot normalisation
// ---------------------------------------------------------------------------

#[test]
fn test_normalize_snapshot_stdout_masks_pytest_duration() {
    let first = "collecting ... collected 1 item\n\
test_snap.py::test_prints PASSED\n\
============================== 1 passed in 0.01s ===============================";
    let second = "collecting ... collected 1 item\n\
test_snap.py::test_prints PASSED\n\
============================== 1 passed in 0.00s ===============================";

    assert_eq!(normalize_snapshot_stdout(first), normalize_snapshot_stdout(second));
    assert!(normalize_snapshot_stdout(first).contains("in X.XXs"));
}

#[test]
fn test_normalize_snapshot_stdout_handles_multi_status_summary() {
    let first = "================ 2 passed, 1 failed in 0.05s ================";
    let second = "================ 2 passed, 1 failed in 1.23s ================";
    assert_eq!(normalize_snapshot_stdout(first), normalize_snapshot_stdout(second));
    assert!(normalize_snapshot_stdout(first).contains("in X.XXs"));
}

#[test]
fn test_normalize_snapshot_stdout_does_not_mangle_incidental_in_text() {
    let stdout = "FAILED test_foo.py::test_bar - assert 1 in [2, 3]\n\
test_collection.py::test_year checks 1 in 2024\n\
collected 3 items in fixtures.py";
    assert_eq!(normalize_snapshot_stdout(stdout), stdout);
}

#[test]
fn test_normalize_snapshot_stdout_preserves_unrelated_lines() {
    let stdout = "hello snapshot\nPASSED\n";
    assert_eq!(normalize_snapshot_stdout(stdout), "hello snapshot\nPASSED");
}

#[test]
fn normalize_snapshot_stdout_drops_carriage_returns_and_keeps_blank_lines() {
    assert_eq!(normalize_snapshot_stdout("a\r\n\r\nb"), "a\n\nb");
    assert_eq!(normalize_snapshot_stdout(""), "");
    assert_eq!(normalize_snapshot_stdout("\n"), "");
    assert_eq!(normalize_snapshot_stdout("x\r"), "x\r");
}

#[test]
fn normalize_timing_in_line_examples() {
    assert_eq!(normalize_timing_in_line("1 passed in 0.01s"), "1 passed in X.XXs");
    assert_eq!(normalize_timing_in_line("== 3 failed in 12s =="), "== 3 failed in X.XXs ==");
    assert_eq!(normalize_timing_in_line("1 passed in .s"), "1 passed in .s");
    assert_eq!(normalize_timing_in_line("1 passed in 0.01s, slow"), "1 passed in 0.01s, slow");
    assert_eq!(normalize_timing_in_line("no marker here"), "no marker here");
    let once = normalize_timing_in_line("1 passed in 0.01s ===");
    assert_eq!(normalize_timing_in_line(&once), once);
}

// ---------------------------------------------------------------------------
// Project scaffolding
// ---------------------------------------------------------------------------

#[test]
fn sanitize_project_name_examples() {
    assert_eq!(sanitize_project_name("My Project"), "my_project");
    assert_eq!(sanitize_project_name("hello-world"), "hello_world");
    assert_eq!(sanitize_project_name("3d-tools"), "_3d_tools");
    assert_eq!(sanitize_project_name("Ünïcode!"), "ncode");
    assert_eq!(sanitize_project_name("!!!"), "");
    let once = sanitize_project_name("9 Lives");
    assert_eq!(sanitize_project_name(&once), once);
}

#[test]
fn default_project_name_falls_back() {
    assert_eq!(default_project_name(Some("Cool App")), "cool_app");
    assert_eq!(default_project_name(Some("***")), "my_project");
    assert_eq!(default_project_name(None), "my_project");
}

#[test]
fn render_pyproject_with_and_without_optional_fields() {
    assert_eq!(
        render_pyproject("demo", None, None, None),
        "[project]\nname = \"demo\"\nversion = \"0.1.0\"\ndependencies = []\n\n[build-system]\nrequires = [\"hatchling\"]\nbuild-backend = \"hatchling.build\"\n"
    );
    assert_eq!(
        render_pyproject("demo", Some("A demo"), Some("3.12"), Some("Ann")),
        "[project]\nname = \"demo\"\nversion = \"0.1.0\"\ndescription = \"A demo\"\nrequires-python = \">=3.12\"\nauthors = [{ name = \"Ann\" }]\ndependencies = []\n\n[build-system]\nrequires = [\"hatchling\"]\nbuild-backend = \"hatchling.build\"\n"
    );
}

#[test]
fn readme_and_summary_text() {
    assert_eq!(render_readme("demo"), "# demo\n\nA Python project.\n");
    assert_eq!(init_summary("demo", 3, 1), "Initialized project 'demo' with 3 files (1 skipped)");
}

// ---------------------------------------------------------------------------
// Run helpers
// ---------------------------------------------------------------------------

#[test]
fn script_lock_path_appends_lock() {
    assert_eq!(script_lock_path("scripts/tool.py"), "scripts/tool.py.lock");
}

#[test]
fn split_env_list_on_whitespace_and_commas() {
    assert_eq!(
        split_env_list(" https://a/simple, https://b/simple\thttps://c ,,"),
        vec!["https://a/simple".to_string(), "https://b/simple".to_string(), "https://c".to_string()]
    );
    assert!(split_env_list("  , ").is_empty());
}

#[test]
fn capture_stdio_keeps_short_output_and_truncates_long_output() {
    assert_eq!(capture_stdio(b""), None);
    assert_eq!(capture_stdio(b"hello\n"), Some("hello\n".to_string()));
    assert_eq!(capture_stdio(&[0x66, 0xff, 0x6f]), Some("f\u{fffd}o".to_string()));
    let long = vec![b'a'; MAX_RUN_STDIO_CAPTURE_BYTES + 10];
    let captured = capture_stdio(&long).unwrap();
    assert!(captured.ends_with("\n...[truncated]"));
    assert_eq!(captured.len(), MAX_RUN_STDIO_CAPTURE_BYTES + "\n...[truncated]".len());
}

#[test]
fn script_lock_hash_is_first_half_of_sha256() {
    // SHA-256("abc") = ba7816bf8f01cfea414140de5dae2223b00361a396177a9cb410ff61f20015ad
    assert_eq!(script_lock_hash(b"abc"), "ba7816bf8f01cfea414140de5dae2223");
}

#[test]
fn join_python_path_prepends_directory() {
    assert_eq!(join_python_path("/tmp/site", Some("/opt/lib")), "/tmp/site:/opt/lib");
    assert_eq!(join_python_path("/tmp/site", Some("")), "/tmp/site");
    assert_eq!(join_python_path("/tmp/site", None), "/tmp/site");
}

#[test]
fn python_version_override_is_trimmed() {
    assert_eq!(python_version_env_override(Some(" 3.11 ")), Some("3.11".to_string()));
    assert_eq!(python_version_env_override(Some("  ")), None);
    assert_eq!(python_version_env_override(None), None);
}

// ---------------------------------------------------------------------------
// Diagnostics, schema version, install policy
// ---------------------------------------------------------------------------

#[test]
fn sandbox_diagnostics_are_warnings_with_codes() {
    let limits = vec!["memory".to_string(), "cpu".to_string()];
    let ds = emit_unsupported_resource_limit_diagnostics(&limits);
    assert_eq!(ds.len(), 2);
    assert_eq!(ds[0].level, DiagnosticLevel::Warning);
    assert_eq!(ds[0].code.as_deref(), Some("W_SANDBOX_LIMIT_UNSUPPORTED"));
    assert_eq!(ds[1].message, "sandbox cpu limit is not enforced on this platform and will have no effect");

    let rejected = vec!["AWS_SECRET".to_string()];
    let ds = emit_rejected_allow_env_diagnostics(&rejected);
    assert_eq!(ds.len(), 1);
    assert_eq!(ds[0].code.as_deref(), Some("W_SANDBOX_ALLOW_ENV_REJECTED"));
    assert!(ds[0].message.starts_with("--allow-env=AWS_SECRET was ignored"));
}

fn obj(members: Vec<(&str, Json)>) -> Json {
    Json::Object(members.into_iter().map(|(k, v)| (k.to_string(), v)).collect())
}

#[test]
fn schema_version_from_const_or_enum() {
    let with_const = obj(vec![("properties", obj(vec![("version", obj(vec![("const", Json::Str("1".into()))]))]))]);
    assert_eq!(schema_version_from(&with_const), Some("1".to_string()));
    let with_enum = obj(vec![(
        "properties",
        obj(vec![("version", obj(vec![("enum", Json::Array(vec![Json::Str("2".into()), Json::Str("3".into())]))]))]),
    )]);
    assert_eq!(schema_version_from(&with_enum), Some("2".to_string()));
    let with_number = obj(vec![("properties", obj(vec![("version", obj(vec![("const", Json::Number("1".into()))]))]))]);
    assert_eq!(schema_version_from(&with_number), None);
    assert_eq!(schema_version_from(&obj(vec![])), None);
}

#[test]
fn classify_update_by_release_part() {
    assert_eq!(classify_update(Some((1, 2, 3)), Some((2, 0, 0))), "major");
    assert_eq!(classify_update(Some((1, 2, 3)), Some((1, 3, 0))), "minor");
    assert_eq!(classify_update(Some((1, 2, 3)), Some((1, 2, 4))), "patch");
    assert_eq!(classify_update(Some((1, 2, 3)), Some((1, 2, 3))), "other");
    assert_eq!(classify_update(None, Some((1, 0, 0))), "unknown");
}

#[test]
fn missing_sha256_policy() {
    assert!(is_missing_sha256(None));
    assert!(is_missing_sha256(Some(true)));
    assert!(!is_missing_sha256(Some(false)));
}

// ---------------------------------------------------------------------------
// Later additions: run selection, presentation, gc and self update
// ---------------------------------------------------------------------------

fn compat(code: &str) -> CompatWarning {
    CompatWarning {
        code: code.to_string(),
        message: "m".to_string(),
        path: "t.py".to_string(),
        line: 3,
        severity: WarningSeverity::Info,
    }
}

#[test]
fn pytest_compat_diagnostic_carries_hint() {
    let d = pytest_compat_diagnostic(&compat("W003"));
    assert_eq!(d.code.as_deref(), Some("W003"));
    assert_eq!(d.suggestion.as_deref(), Some("This fixture pattern may require pytest plugins"));
    assert_eq!(pytest_compat_diagnostic(&compat("X")).suggestion, None);
}

#[test]
fn compat_diagnostics_native_then_pytest() {
    let ws = vec![compat("W001"), compat("W002")];
    let ds = compat_diagnostics(&ws, true, true);
    assert_eq!(ds.len(), 4);
    assert_eq!(ds[0].code.as_deref(), Some("W_TEST_BACKEND_COMPAT_W001"));
    assert_eq!(ds[3].code.as_deref(), Some("W002"));
    assert_eq!(compat_diagnostics(&ws, false, true).len(), 2);
    assert!(compat_diagnostics(&ws, false, false).is_empty());
}

#[test]
fn select_tests_filters_then_shards() {
    let tests: Vec<TestItem> = (0..6).map(|i| item(&format!("t{i}"), &format!("case{i}"), None)).collect();
    let picked = select_tests(tests.clone(), Some("case"), Some((2, 2)));
    assert_eq!(names(&picked), vec!["case1", "case3", "case5"]);
    assert_eq!(select_tests(tests.clone(), None, None).len(), 6);
    let mut with_skips = tests;
    with_skips[0].skipped = true;
    with_skips[4].skipped = true;
    assert_eq!(count_runnable(&with_skips), 4);
}

fn cli_with(format: OutputFormat, progress: ProgressMode, no_progress: bool) -> Cli {
    Cli { format, progress, no_progress, command: Commands::Gc(GcArgs { max_size: None, dry_run: false }) }
}

#[test]
fn progress_mode_resolution() {
    assert_eq!(effective_progress_mode(&cli_with(OutputFormat::Text, ProgressMode::Always, false)), ProgressMode::Always);
    assert_eq!(effective_progress_mode(&cli_with(OutputFormat::Text, ProgressMode::Always, true)), ProgressMode::Never);
    assert_eq!(effective_progress_mode(&cli_with(OutputFormat::Json, ProgressMode::Auto, false)), ProgressMode::Never);
}

#[test]
fn exit_codes_and_rendering() {
    assert_eq!(exit_code_for(true, Some(3)), Some(1));
    assert_eq!(exit_code_for(false, Some(3)), Some(3));
    assert_eq!(exit_code_for(false, Some(0)), None);
    assert_eq!(exit_code_for(false, None), None);
    let ok = RenderDetail::with_json("done".to_string(), Json::Null);
    assert!(!envelope_reports_error(&ok));
    assert_eq!(render_text("gc", &ok), Some("pybun gc: done".to_string()));
    let child_failed = RenderDetail::with_json("ran".to_string(), Json::Null).with_process_exit_code(2);
    assert!(envelope_reports_error(&child_failed));
    let child_ok = RenderDetail::with_json("ran".to_string(), Json::Null).with_process_exit_code(0);
    assert!(!envelope_reports_error(&child_ok));
    assert!(envelope_reports_error(&RenderDetail::error("boom".to_string(), Json::Null)));
    let raw = RenderDetail::with_json_raw_text("done".to_string(), Json::Null);
    assert_eq!(render_text("gc", &raw), Some("done".to_string()));
    assert_eq!(render_text("mcp", &RenderDetail::silent()), None);
}

#[test]
fn stub_detail_marks_unimplemented_commands() {
    let d = stub_detail("watch mode", Json::Bool(true));
    assert_eq!(d.text, "watch mode (not implemented yet)");
    assert!(!d.is_error);
    let Json::Object(ms) = &d.json else { panic!("expected an object") };
    assert_eq!(ms[0].0, "status");
    assert!(matches!(&ms[0].1, Json::Str(s) if s == "stub"));
    assert!(matches!(&ms[1].1, Json::Str(s) if s == "watch mode (not implemented yet)"));
    assert!(matches!(&ms[2].1, Json::Bool(true)));
}

#[test]
fn gc_summary_lines() {
    assert_eq!(gc_summary(true, 0, 0, 0, 2048, 2048), "Cache is within limits (2.00 KB used)");
    assert_eq!(gc_summary(true, 2, 0, 1536, 4096, 2560), "Would free 1.50 KB (2 files/envs)");
    assert_eq!(gc_summary(false, 0, 0, 0, 100, 100), "Cache is within limits (100 B used)");
    assert_eq!(gc_summary(false, 0, 3, 3 * 1024 * 1024, 0, 0), "Freed 3.00 MB (3 files/envs removed)");
}

#[test]
fn self_update_decisions() {
    assert!(should_fetch_manifest(false, false, false));
    assert!(!should_fetch_manifest(true, false, false));
    assert!(should_fetch_manifest(true, true, false));
    match self_update_step(Some("timeout"), true, true, None) {
        SelfUpdateStep::ManifestFailed { message } => assert_eq!(message, "failed to load release manifest: timeout"),
        other => panic!("unexpected {other:?}"),
    }
    match self_update_step(None, true, false, None) {
        SelfUpdateStep::NoAsset { message } => assert_eq!(message, "no release asset found for target unknown"),
        other => panic!("unexpected {other:?}"),
    }
    assert!(matches!(self_update_step(None, false, false, None), SelfUpdateStep::UpToDate));
    assert!(matches!(self_update_step(None, true, true, Some("x86_64-linux")), SelfUpdateStep::Apply));
    assert_eq!(
        self_update_summary(true, true, false, None, None, "0.1.0", "0.2.0", "stable"),
        "Update available: 0.1.0 -> 0.2.0 (dry-run, no changes made)"
    );
    assert_eq!(
        self_update_summary(false, false, false, None, None, "0.1.0", "0.1.0", "nightly"),
        "Already up to date: 0.1.0 (channel: nightly)"
    );
    assert_eq!(self_update_summary(false, true, false, None, Some("disk full"), "a", "b", "c"), "Update failed: disk full");
    assert_eq!(self_update_summary(false, true, true, None, None, "a", "b", "c"), "Updated: a -> b");
}

fn member<'a>(j: &'a Json, key: &str) -> Option<&'a Json> {
    match j {
        Json::Object(ms) => ms.iter().find(|(k, _)| k == key).map(|(_, v)| v),
        _ => None,
    }
}

fn str_of(j: Option<&Json>) -> Option<&str> {
    match j {
        Some(Json::Str(s)) => Some(s.as_str()),
        _ => None,
    }
}

#[test]
fn extras_warnings_only_for_requirements_with_extras() {
    let reqs = vec![
        RequestedExtras { name: "typer".into(), extras: vec!["all".into(), "dev".into()] },
        RequestedExtras { name: "plain".into(), extras: vec![] },
    ];
    let ds = warn_on_ignored_extras(&reqs);
    assert_eq!(ds.len(), 1);
    assert_eq!(ds[0].code.as_deref(), Some("W_EXTRAS_IGNORED"));
    assert_eq!(
        ds[0].message,
        "extras ignored for 'typer': pybun does not yet resolve PEP 508 extras, so only the base package will be installed (dropped: [all, dev])"
    );
    let ctx = ds[0].context.as_ref().unwrap();
    assert_eq!(str_of(member(ctx, "package")), Some("typer"));
    assert!(matches!(member(ctx, "extras"), Some(Json::Array(items)) if items.len() == 2));
}

#[test]
fn prerelease_warnings_name_package_and_version() {
    let ds = warn_on_prerelease_fallback(&[PrereleasePick { name: "pkg".into(), version: "2.0.0rc1".into() }]);
    assert_eq!(ds.len(), 1);
    assert_eq!(
        ds[0].message,
        "selected pre-release version pkg 2.0.0rc1 because only pre-release versions satisfy the constraints"
    );
    assert_eq!(ds[0].code.as_deref(), Some("W_PRERELEASE_SELECTED"));
    let ctx = ds[0].context.as_ref().unwrap();
    assert_eq!(str_of(member(ctx, "version")), Some("2.0.0rc1"));
}

#[test]
fn missing_hash_error_describes_artifact() {
    let a = ArtifactChoice {
        package: "requests".into(),
        version: "2.31.0".into(),
        filename: "requests-2.31.0-py3-none-any.whl".into(),
        url: "https://files/requests.whl".into(),
        platform_tag: None,
        from_source: false,
    };
    let d = missing_hash_diagnostic(&a, "https://pypi.org/simple");
    assert_eq!(d.level, DiagnosticLevel::Error);
    assert_eq!(d.code.as_deref(), Some("E_VERIFY_MISSING_HASH"));
    assert_eq!(
        d.message,
        "selected artifact for requests 2.31.0 (requests-2.31.0-py3-none-any.whl) is missing sha256 verification metadata"
    );
    let ctx = d.context.as_ref().unwrap();
    assert_eq!(str_of(member(ctx, "index_url")), Some("https://pypi.org/simple"));
    assert!(matches!(member(ctx, "platform_tag"), Some(Json::Null)));
    assert!(matches!(member(ctx, "from_source"), Some(Json::Bool(false))));
}

#[test]
fn shard_text_round_trips() {
    for (n, m) in [(1u32, 1u32), (7, 9), (3, 4294967295)] {
        assert_eq!(parse_shard(&format!("{n}/{m}")).unwrap(), (n, m));
    }
}

#[test]
fn exclude_patterns_merge_without_repeats() {
    let base = vec!["__pycache__".to_string(), ".git".to_string()];
    let extra = vec![".git".to_string(), "*.tmp".to_string(), "*.tmp".to_string()];
    assert_eq!(
        merge_exclude_patterns(base, &extra),
        vec!["__pycache__".to_string(), ".git".to_string(), "*.tmp".to_string()]
    );
}

#[test]
fn watch_command_for_target() {
    assert_eq!(watch_target_command(Some("main.py")), "pybun run main.py");
    assert_eq!(watch_target_command(None), "echo 'File changed'");
}

#[test]
fn pep723_install_deps_prefer_lock_pins() {
    let declared = vec!["requests".to_string(), "rich>=13".to_string()];
    let pins = vec![("requests".to_string(), "2.31.0".to_string())];
    assert_eq!(pep723_install_deps(Some(&pins), &declared), vec!["requests==2.31.0".to_string()]);
    assert_eq!(pep723_install_deps(Some(&[]), &declared), declared);
    assert_eq!(pep723_install_deps(None, &declared), declared);
}

#[test]
fn pep723_backend_setting_values() {
    assert_eq!(pep723_backend_setting(None).unwrap(), Pep723Backend::Auto);
    assert_eq!(pep723_backend_setting(Some(" UV ")).unwrap(), Pep723Backend::Uv);
    assert_eq!(pep723_backend_setting(Some("PyBun")).unwrap(), Pep723Backend::Pybun);
    assert_eq!(
        pep723_backend_setting(Some(" Conda ")).unwrap_err(),
        "invalid PYBUN_PEP723_BACKEND value: conda (expected auto|pybun|uv)"
    );
}

#[test]
fn pep723_runner_choice() {
    assert_eq!(choose_pep723_runner(Pep723Backend::Auto, false, false, false, false, true).unwrap(), Pep723Runner::UvRun);
    assert_eq!(choose_pep723_runner(Pep723Backend::Auto, false, false, false, false, false).unwrap(), Pep723Runner::CachedVenv);
    assert_eq!(
        choose_pep723_runner(Pep723Backend::Uv, false, false, false, false, false).unwrap_err(),
        "PYBUN_PEP723_BACKEND=uv requires `uv` to be available in PATH"
    );
    assert_eq!(choose_pep723_runner(Pep723Backend::Uv, false, false, false, true, true).unwrap(), Pep723Runner::CachedVenv);
    assert_eq!(choose_pep723_runner(Pep723Backend::Auto, true, false, false, false, true).unwrap(), Pep723Runner::DryRunPreview);
    assert_eq!(choose_pep723_runner(Pep723Backend::Auto, false, true, false, false, true).unwrap(), Pep723Runner::TemporaryVenv);
    assert_eq!(choose_pep723_runner(Pep723Backend::Pybun, false, false, true, false, true).unwrap(), Pep723Runner::CachedVenv);
    assert!(warns_uv_lockfile_fallback(Pep723Backend::Uv, true));
    assert!(!warns_uv_lockfile_fallback(Pep723Backend::Auto, true));
}

#[test]
fn flaky_snapshot_warning_text() {
    let d = flaky_snapshot_diagnostic("tests/test_a.py", "test_x", 1, 12);
    assert_eq!(
        d.message,
        "tests/test_a.py::test_x passed only after 1 retry \u{2014} its snapshot reflects the final attempt's output, which may not be reproducible"
    );
    assert_eq!(d.line, Some(12));
    assert_eq!(d.code.as_deref(), Some("W_SNAPSHOT_FLAKY_RETRY"));
    let d = flaky_snapshot_diagnostic("t.py", "y", 3, usize::MAX);
    assert!(d.message.contains("after 3 retries"));
    assert_eq!(d.line, if usize::MAX as u64 > u32::MAX as u64 { None } else { Some(u32::MAX) });
}

#[test]
fn pep723_index_settings_keep_metadata_then_env_order() {
    let metadata = vec!["https://meta/simple".to_string()];
    let settings = pep723_index_settings(
        &metadata,
        Some("https://pip/simple"),
        Some("https://pip-extra/a, https://pip-extra/b"),
        None,
        Some(" https://uv-extra/simple "),
    );
    assert_eq!(
        settings,
        vec![
            "https://meta/simple".to_string(),
            "https://pip/simple".to_string(),
            "https://pip-extra/a".to_string(),
            "https://pip-extra/b".to_string(),
            "https://uv-extra/simple".to_string(),
        ]
    );
    assert!(pep723_index_settings(&[], None, Some(" , "), None, None).is_empty());
}
