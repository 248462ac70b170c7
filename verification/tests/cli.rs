use pybun::cli::{json_help_envelope, pybun_command_tree, scan_help_request};

fn args(list: &[&str]) -> Vec<String> {
    list.iter().map(|s| s.to_string()).collect()
}

#[test]
fn detects_top_level_json_help_request() {
    let scan = scan_help_request(&args(&["--format=json", "--help"]), &pybun_command_tree());
    assert!(scan.wants_help);
    assert!(scan.wants_json);
    assert!(scan.path.is_empty());
}

#[test]
fn detects_subcommand_json_help_request_with_split_format_flag() {
    let scan = scan_help_request(&args(&["mcp", "serve", "--format", "json", "-h"]), &pybun_command_tree());
    assert!(scan.wants_help);
    assert!(scan.wants_json);
    assert_eq!(scan.path, vec!["mcp".to_string(), "serve".to_string()]);
}

#[test]
fn ignores_text_format_help_requests() {
    let scan = scan_help_request(&args(&["install", "--help"]), &pybun_command_tree());
    assert!(scan.wants_help);
    assert!(!scan.wants_json);
}

#[test]
fn returns_none_when_not_a_help_request() {
    assert!(json_help_envelope(&args(&["install", "--format=json"])).is_none());
}

#[test]
fn ignores_option_values_that_resemble_subcommand_names() {
    let scan = scan_help_request(
        &args(&["lock", "--script", "foo.py", "--format=json", "--help"]),
        &pybun_command_tree(),
    );
    assert!(scan.wants_help);
    assert!(scan.wants_json);
    assert_eq!(scan.path, vec!["lock".to_string()]);
    assert_eq!(scan.command, "lock");
}

#[test]
fn json_help_request_names_top_level_command() {
    let req = json_help_envelope(&args(&["--help", "--format=json"])).expect("expected JSON help request");
    assert_eq!(req.command_line, "pybun --help");
    assert!(req.path.is_empty());
}

#[test]
fn json_help_request_names_subcommand() {
    let req = json_help_envelope(&args(&["install", "--format=json", "--help"])).expect("expected JSON help request");
    assert_eq!(req.command_line, "pybun install --help");
    assert_eq!(req.path, vec!["install".to_string()]);
}

#[test]
fn json_help_request_keeps_command_when_option_value_looks_like_a_subcommand() {
    let req = json_help_envelope(&args(&["lock", "--script", "foo.py", "--format=json", "--help"]))
        .expect("expected JSON help request");
    assert_eq!(req.command_line, "pybun lock --help");
}

#[test]
fn format_value_is_not_taken_for_a_subcommand() {
    let scan = scan_help_request(&args(&["--format", "install", "-h"]), &pybun_command_tree());
    assert!(scan.wants_help);
    assert!(!scan.wants_json);
    assert!(scan.path.is_empty());
    assert_eq!(scan.command, "pybun");
}

#[test]
fn progress_value_is_skipped_and_trailing_flag_tolerated() {
    let scan = scan_help_request(&args(&["--progress", "python", "x", "--progress"]), &pybun_command_tree());
    assert!(!scan.wants_help);
    assert_eq!(scan.path, vec!["x".to_string()]);
}

#[test]
fn json_help_request_path_ends_with_the_command() {
    let req = json_help_envelope(&args(&["install", "--format=json", "--help"])).expect("expected JSON help request");
    assert_eq!(req.path.last().map(|s| s.as_str()), Some("install"));
    let req = json_help_envelope(&args(&["lock", "--script", "foo.py", "--format=json", "--help"]))
        .expect("expected JSON help request");
    assert_eq!(req.path.last().map(|s| s.as_str()), Some("lock"));
}

#[test]
fn command_tree_holds_the_commands() {
    let tree = pybun_command_tree();
    assert_eq!(tree.name, "pybun");
    let names: Vec<&str> = tree.subcommands.iter().map(|c| c.name.as_str()).collect();
    for expected in ["install", "lock", "run", "test", "gc", "mcp", "self"] {
        assert!(names.contains(&expected), "missing {expected}");
    }
    let mcp = tree.subcommands.iter().find(|c| c.name == "mcp").unwrap();
    assert_eq!(mcp.subcommands[0].name, "serve");
}
