//! The command-line interface: its arguments as plain values, the tree of
//! its subcommands, and the detection of `--help --format=json` requests.

use vstd::prelude::*;
use crate::text::{chars_eq_str, chars_of, chars_starts_with, starts_with};

verus! {

/// Parsed top-level arguments.
#[derive(Debug, Clone)]
pub struct Cli {
    /// Output format for machine readability.
    pub format: OutputFormat,
    /// Progress UI mode (auto hides on non-TTY).
    pub progress: ProgressMode,
    /// Disable progress UI.
    pub no_progress: bool,
    pub command: Commands,
}

#[derive(Copy, Clone, Debug, PartialEq, Eq)]
pub enum OutputFormat {
    Text,
    Json,
}

#[derive(Copy, Clone, Debug, PartialEq, Eq)]
pub enum ProgressMode {
    Auto,
    Always,
    Never,
}

#[derive(Debug, Clone)]
pub enum Commands {
    /// Initialize a new Python project.
    Init(InitArgs),
    /// Install dependencies from lock or project metadata.
    Install(InstallArgs),
    /// Add a package and update lockfile.
    Add(PackageArgs),
    /// Remove a package and update lockfile.
    Remove(PackageArgs),
    /// Lock dependencies for scripts.
    Lock(LockArgs),
    /// Run a script with import/runtime optimizations.
    Run(RunArgs),
    /// Run an ad-hoc package without prior install.
    X(ToolArgs),
    /// Execute test suite with PyBun's fast runner.
    Test(TestArgs),
    /// Build distributable artifacts.
    Build(BuildArgs),
    /// Diagnose environment and produce support bundle.
    Doctor(DoctorArgs),
    /// Run PyBun as an MCP server.
    Mcp(McpCommands),
    /// Self-related commands.
    SelfCmd(SelfCommands),
    /// Manage caches.
    Gc(GcArgs),
    /// Manage Python versions (install, list, remove).
    Python(PythonCommands),
    /// Find Python modules using Rust-based module finder.
    ModuleFind(ModuleFindArgs),
    /// Configure and generate lazy import settings.
    LazyImport(LazyImportArgs),
    /// Watch files and reload on changes (dev mode).
    Watch(WatchArgs),
    /// Show or configure launch profiles.
    Profile(ProfileArgs),
    /// Print or validate the CLI JSON schema.
    Schema(SchemaArgs),
    /// Manage telemetry settings (opt-in/opt-out).
    Telemetry(TelemetryCommands),
    /// Check for outdated dependencies.
    Outdated(OutdatedArgs),
    /// Upgrade dependencies within constraints.
    Upgrade(UpgradeArgs),
}

#[derive(Debug, Clone)]
pub enum PythonCommands {
    /// List installed and available Python versions.
    List(PythonListArgs),
    /// Install a Python version.
    Install(PythonInstallArgs),
    /// Remove an installed Python version.
    Remove(PythonRemoveArgs),
    /// Show path to Python for a version.
    Which(PythonWhichArgs),
}

#[derive(Debug, Clone)]
pub struct PythonListArgs {
    /// Show all available versions (not just installed).
    pub all: bool,
}

#[derive(Debug, Clone)]
pub struct PythonInstallArgs {
    /// Version to install (e.g., 3.11, 3.12.7).
    pub version: String,
}

#[derive(Debug, Clone)]
pub struct PythonRemoveArgs {
    /// Version to remove.
    pub version: String,
}

#[derive(Debug, Clone)]
pub struct PythonWhichArgs {
    /// Version to look up.
    pub version: Option<String>,
}

#[derive(Debug, Clone)]
pub struct InstallArgs {
    /// Use offline mode when cache is sufficient.
    pub offline: bool,
    /// Requirements to install, as written (`NAME==VERSION`).
    pub requirements: Vec<String>,
    /// Path to index JSON.
    pub index: Option<String>,
    /// Path to write lockfile (default `pybun.lockb`).
    pub lock: String,
}

#[derive(Debug, Clone)]
pub struct LockArgs {
    /// Lock dependencies for a PEP 723 script.
    pub script: Option<String>,
    /// Use offline mode when cache is sufficient.
    pub offline: bool,
    /// Path to index JSON.
    pub index: Option<String>,
}

#[derive(Debug, Clone)]
pub struct PackageArgs {
    /// Package name (optionally with version).
    pub package: Option<String>,
    /// Use offline mode when cache is sufficient.
    pub offline: bool,
}

#[derive(Debug, Clone)]
pub struct RunArgs {
    /// Script or module to execute. Use -c for inline code.
    pub target: Option<String>,
    /// Run in sandboxed mode for untrusted code.
    pub sandbox: bool,
    /// Allow network access inside the sandbox (escape hatch).
    pub allow_network: bool,
    /// Allow reading from a path inside the sandbox.
    pub allow_read: Vec<String>,
    /// Allow writing to a path inside the sandbox.
    pub allow_write: Vec<String>,
    /// Optional profile (dev/prod/benchmark; default dev).
    pub profile: String,
    /// Pass additional args to the target.
    pub passthrough: Vec<String>,
}

#[derive(Debug, Clone)]
pub struct ToolArgs {
    /// Package to execute temporarily.
    pub package: Option<String>,
    /// Arguments to forward to the tool.
    pub passthrough: Vec<String>,
}

#[derive(Debug, Clone)]
pub struct TestArgs {
    /// Test file(s) or directory to run. Defaults to current directory.
    pub paths: Vec<String>,
    /// Shard identifier (N/M) for distributed testing.
    pub shard: Option<String>,
    /// Stop on first failure.
    pub fail_fast: bool,
    /// Enable pytest compatibility layer.
    pub pytest_compat: bool,
    /// Test runner backend. Auto-detected if not specified.
    pub backend: Option<TestBackend>,
    /// Only discover tests without running them.
    pub discover: bool,
    /// Run tests in parallel (number of workers).
    pub parallel: Option<usize>,
    /// Filter tests by name pattern.
    pub filter: Option<String>,
    /// Show verbose output including fixture information.
    pub verbose: bool,
    /// Enable snapshot testing.
    pub snapshot: bool,
    /// Update snapshots instead of comparing them.
    pub update_snapshots: bool,
    /// Directory for snapshot files (default: __snapshots__).
    pub snapshot_dir: Option<String>,
    /// Additional arguments to pass to the test runner.
    pub passthrough: Vec<String>,
}

#[derive(Copy, Clone, Debug, PartialEq, Eq)]
pub enum TestBackend {
    Pytest,
    Unittest,
    /// Native Rust-based parallel executor (pybun-native).
    Pybun,
}

#[derive(Debug, Clone)]
pub struct BuildArgs {
    /// Emit SBOM along with artifacts.
    pub sbom: bool,
}

#[derive(Debug, Clone)]
pub struct DoctorArgs {
    /// Include verbose logs in bundle.
    pub verbose: bool,
    /// Write support bundle to a directory.
    pub bundle: Option<String>,
    /// Upload support bundle to the configured endpoint.
    pub upload: bool,
    /// Override the support bundle upload endpoint.
    pub upload_url: Option<String>,
}

#[derive(Debug, Clone)]
pub enum McpCommands {
    /// Start MCP server for programmatic control.
    Serve(McpServeArgs),
}

#[derive(Debug, Clone)]
pub struct SchemaArgs {
    pub command: Option<SchemaCommands>,
}

#[derive(Debug, Clone)]
pub enum SchemaCommands {
    /// Print the JSON schema for CLI output.
    Print(SchemaPrintArgs),
    /// Check the JSON schema against the frozen v1 definition.
    Check(SchemaCheckArgs),
}

#[derive(Debug, Clone)]
pub struct SchemaPrintArgs {}

#[derive(Debug, Clone)]
pub struct SchemaCheckArgs {
    /// Optional path to compare against the embedded schema.
    pub path: Option<String>,
}

#[derive(Debug, Clone)]
pub enum TelemetryCommands {
    /// Show current telemetry status.
    Status(TelemetryStatusArgs),
    /// Enable telemetry collection.
    Enable(TelemetryEnableArgs),
    /// Disable telemetry collection.
    Disable(TelemetryDisableArgs),
}

#[derive(Debug, Clone)]
pub struct TelemetryStatusArgs {}

#[derive(Debug, Clone)]
pub struct TelemetryEnableArgs {}

#[derive(Debug, Clone)]
pub struct TelemetryDisableArgs {}

#[derive(Debug, Clone)]
pub struct McpServeArgs {
    /// Port to bind (for HTTP mode; default 9999).
    pub port: u16,
    /// Use stdio mode for MCP communication.
    pub stdio: bool,
}

#[derive(Debug, Clone)]
pub enum SelfCommands {
    /// Update PyBun binary with signature verification.
    Update(SelfUpdateArgs),
}

#[derive(Debug, Clone)]
pub struct SelfUpdateArgs {
    /// Channel to update from (stable/nightly; default stable).
    pub channel: String,
    /// Check for updates without installing.
    pub dry_run: bool,
}

#[derive(Debug, Clone)]
pub struct GcArgs {
    /// Maximum cache size (e.g., 10G); LRU eviction if exceeded.
    pub max_size: Option<String>,
    /// Preview what would be deleted without actually deleting.
    pub dry_run: bool,
}

#[derive(Debug, Clone)]
pub struct ModuleFindArgs {
    /// Module name to find (e.g., "os.path", "numpy.core").
    pub module: Option<String>,
    /// Search path(s) for modules.
    pub paths: Vec<String>,
    /// Scan directory and list all modules instead of finding a specific one.
    pub scan: bool,
    /// Show timing information for benchmarking.
    pub benchmark: bool,
    /// Number of threads for parallel scanning (default 4).
    pub threads: usize,
}

#[derive(Debug, Clone)]
pub struct LazyImportArgs {
    /// Generate Python code for lazy import injection.
    pub generate: bool,
    /// Check if a module would be lazily imported.
    pub check: Option<String>,
    /// Show current configuration.
    pub show_config: bool,
    /// Add module to allowlist.
    pub allow: Vec<String>,
    /// Add module to denylist.
    pub deny: Vec<String>,
    /// Enable logging of lazy imports in generated code.
    pub log_imports: bool,
    /// Disable fallback to CPython import.
    pub no_fallback: bool,
    /// Output file for generated Python code.
    pub output: Option<String>,
}

#[derive(Debug, Clone)]
pub struct WatchArgs {
    /// Script or command to run on file changes.
    pub target: Option<String>,
    /// Paths to watch.
    pub paths: Vec<String>,
    /// File patterns to include (e.g., "*.py").
    pub include_patterns: Vec<String>,
    /// File patterns to exclude (e.g., "__pycache__").
    pub exclude: Vec<String>,
    /// Debounce delay in milliseconds (default 300).
    pub debounce: u64,
    /// Clear terminal before each reload.
    pub clear: bool,
    /// Show configuration without starting watcher.
    pub show_config: bool,
    /// Generate shell command for external watcher.
    pub shell_command: bool,
    /// Preview what would be watched without actually starting.
    pub dry_run: bool,
}

#[derive(Debug, Clone)]
pub struct ProfileArgs {
    /// Profile to show or set (dev, prod, benchmark).
    pub profile: Option<String>,
    /// List all available profiles.
    pub list: bool,
    /// Show detailed profile configuration.
    pub show: bool,
    /// Compare two profiles.
    pub compare: Option<String>,
    /// Export profile to a file.
    pub output: Option<String>,
}

#[derive(Debug, Clone)]
pub struct InitArgs {
    /// Project name (defaults to directory name).
    pub name: Option<String>,
    /// Project description.
    pub description: Option<String>,
    /// Python version requirement.
    pub python: Option<String>,
    /// Author name and email.
    pub author: Option<String>,
    /// Project template (minimal or package; default minimal).
    pub template: InitTemplate,
    /// Accept defaults without prompting.
    pub yes: bool,
}

#[derive(Copy, Clone, Debug, PartialEq, Eq)]
pub enum InitTemplate {
    /// Flat layout with just pyproject.toml.
    Minimal,
    /// Source layout with src/<package>/__init__.py.
    Package,
}

#[derive(Debug, Clone)]
pub struct OutdatedArgs {
    /// Path to index JSON (uses PyPI if not specified).
    pub index: Option<String>,
    /// Use offline mode when cache is sufficient.
    pub offline: bool,
}

#[derive(Debug, Clone)]
pub struct UpgradeArgs {
    /// Package(s) to upgrade (upgrades all if not specified).
    pub packages: Vec<String>,
    /// Path to index JSON (uses PyPI if not specified).
    pub index: Option<String>,
    /// Use offline mode when cache is sufficient.
    pub offline: bool,
    /// Preview changes without updating lockfile.
    pub dry_run: bool,
    /// Path to lockfile (default `pybun.lockb`).
    pub lock: String,
}


// ---------------------------------------------------------------------------
// The subcommand tree and JSON help requests
// ---------------------------------------------------------------------------

/// A command and its subcommands, by name.
#[derive(Debug)]
pub struct CommandNode {
    pub name: String,
    pub subcommands: Vec<CommandNode>,
}

/// The position of the first subcommand of `subs` named `name`.
pub open spec fn find_child_from(subs: Seq<CommandNode>, name: Seq<char>, k: int) -> Option<int>
    decreases subs.len() - k,
{
    if k < 0 || k >= subs.len() {
        None
    } else if subs[k].name@ == name {
        Some(k)
    } else {
        find_child_from(subs, name, k + 1)
    }
}

pub open spec fn find_child(node: CommandNode, name: Seq<char>) -> Option<int> {
    find_child_from(node.subcommands@, name, 0)
}

proof fn lemma_find_child_from_range(subs: Seq<CommandNode>, name: Seq<char>, k: int)
    ensures
        find_child_from(subs, name, k) matches Some(j) ==> k <= j < subs.len() && subs[j].name@
            == name,
    decreases subs.len() - k,
{
    if 0 <= k < subs.len() && subs[k].name@ != name {
        lemma_find_child_from_range(subs, name, k + 1);
    }
}

/// The scan state after reading `args[i..]` from the state `(help, json,
/// node, path)`: `--help`/`-h` asks for help; `--format json` (two
/// arguments) and `--format=json` ask for JSON; the value after `--format`
/// and `--progress` is skipped; other flags are ignored; any other argument
/// descends into the subcommand of that name, if the current command has
/// one, and is otherwise ignored.
pub open spec fn scan(
    args: Seq<Seq<char>>,
    i: int,
    help: bool,
    json: bool,
    node: CommandNode,
    path: Seq<Seq<char>>,
) -> (bool, bool, CommandNode, Seq<Seq<char>>)
    decreases args.len() + 1 - i,
{
    if i < 0 || i >= args.len() {
        (help, json, node, path)
    } else {
        let a = args[i];
        if a == "--help"@ || a == "-h"@ {
            scan(args, i + 1, true, json, node, path)
        } else if a == "--format"@ {
            let j = if i + 1 < args.len() && args[i + 1] == "json"@ {
                true
            } else {
                json
            };
            scan(args, i + 2, help, j, node, path)
        } else if a == "--format=json"@ {
            scan(args, i + 1, help, true, node, path)
        } else if a == "--progress"@ {
            scan(args, i + 2, help, json, node, path)
        } else if starts_with(a, "-"@) {
            scan(args, i + 1, help, json, node, path)
        } else {
            match find_child(node, a) {
                Some(k) => scan(args, i + 1, help, json, node.subcommands@[k], path.push(a)),
                None => scan(args, i + 1, help, json, node, path),
            }
        }
    }
}

/// The views of a sequence of strings.
pub open spec fn string_views(v: Seq<String>) -> Seq<Seq<char>> {
    v.map_values(|s: String| s@)
}


/// `n` is named `name` and has exactly the leaf subcommands `children`, in
/// order.
pub open spec fn named(n: CommandNode, name: Seq<char>, children: Seq<Seq<char>>) -> bool {
    &&& n.name@ == name
    &&& n.subcommands@.len() == children.len()
    &&& forall|i: int|
        0 <= i < children.len() ==> (#[trigger] n.subcommands@[i]).name@ == children[i]
            && n.subcommands@[i].subcommands@.len() == 0
}

/// `t` is the subcommand tree of `pybun`, in declaration order.
pub open spec fn is_pybun_tree(t: CommandNode) -> bool {
    &&& t.name@ == "pybun"@
    &&& t.subcommands@.len() == 22
    &&& named(t.subcommands@[0], "init"@, Seq::empty())
    &&& named(t.subcommands@[1], "install"@, Seq::empty())
    &&& named(t.subcommands@[2], "add"@, Seq::empty())
    &&& named(t.subcommands@[3], "remove"@, Seq::empty())
    &&& named(t.subcommands@[4], "lock"@, Seq::empty())
    &&& named(t.subcommands@[5], "run"@, Seq::empty())
    &&& named(t.subcommands@[6], "x"@, Seq::empty())
    &&& named(t.subcommands@[7], "test"@, Seq::empty())
    &&& named(t.subcommands@[8], "build"@, Seq::empty())
    &&& named(t.subcommands@[9], "doctor"@, Seq::empty())
    &&& named(t.subcommands@[10], "mcp"@, seq!["serve"@])
    &&& named(t.subcommands@[11], "self"@, seq!["update"@])
    &&& named(t.subcommands@[12], "gc"@, Seq::empty())
    &&& named(t.subcommands@[13], "python"@, seq!["list"@, "install"@, "remove"@, "which"@])
    &&& named(t.subcommands@[14], "module-find"@, Seq::empty())
    &&& named(t.subcommands@[15], "lazy-import"@, Seq::empty())
    &&& named(t.subcommands@[16], "watch"@, Seq::empty())
    &&& named(t.subcommands@[17], "profile"@, Seq::empty())
    &&& named(t.subcommands@[18], "schema"@, seq!["print"@, "check"@])
    &&& named(t.subcommands@[19], "telemetry"@, seq!["status"@, "enable"@, "disable"@])
    &&& named(t.subcommands@[20], "outdated"@, Seq::empty())
    &&& named(t.subcommands@[21], "upgrade"@, Seq::empty())
}

fn leaf(name: &str) -> (r: CommandNode)
    ensures
        named(r, name@, Seq::empty()),
{
    CommandNode { name: String::from_str(name), subcommands: Vec::new() }
}

fn node(name: &str, subs: Vec<CommandNode>) -> (r: CommandNode)
    ensures
        r.name@ == name@,
        r.subcommands@ == subs@,
{
    CommandNode { name: String::from_str(name), subcommands: subs }
}

/// The subcommand tree of the `pybun` command line.
pub fn pybun_command_tree() -> (r: CommandNode)
    ensures
        is_pybun_tree(r),
{
    let mut subs: Vec<CommandNode> = Vec::new();
    subs.push(leaf("init"));
    subs.push(leaf("install"));
    subs.push(leaf("add"));
    subs.push(leaf("remove"));
    subs.push(leaf("lock"));
    subs.push(leaf("run"));
    subs.push(leaf("x"));
    subs.push(leaf("test"));
    subs.push(leaf("build"));
    subs.push(leaf("doctor"));
    let mut c: Vec<CommandNode> = Vec::new();
    c.push(leaf("serve"));
    let n = node("mcp", c);
    assert(named(n, "mcp"@, seq!["serve"@]));
    subs.push(n);
    let mut c: Vec<CommandNode> = Vec::new();
    c.push(leaf("update"));
    let n = node("self", c);
    assert(named(n, "self"@, seq!["update"@]));
    subs.push(n);
    subs.push(leaf("gc"));
    let mut c: Vec<CommandNode> = Vec::new();
    c.push(leaf("list"));
    c.push(leaf("install"));
    c.push(leaf("remove"));
    c.push(leaf("which"));
    let n = node("python", c);
    assert(named(n, "python"@, seq!["list"@, "install"@, "remove"@, "which"@]));
    subs.push(n);
    subs.push(leaf("module-find"));
    subs.push(leaf("lazy-import"));
    subs.push(leaf("watch"));
    subs.push(leaf("profile"));
    let mut c: Vec<CommandNode> = Vec::new();
    c.push(leaf("print"));
    c.push(leaf("check"));
    let n = node("schema", c);
    assert(named(n, "schema"@, seq!["print"@, "check"@]));
    subs.push(n);
    let mut c: Vec<CommandNode> = Vec::new();
    c.push(leaf("status"));
    c.push(leaf("enable"));
    c.push(leaf("disable"));
    let n = node("telemetry", c);
    assert(named(n, "telemetry"@, seq!["status"@, "enable"@, "disable"@]));
    subs.push(n);
    subs.push(leaf("outdated"));
    subs.push(leaf("upgrade"));
    node("pybun", subs)
}

/// What a scan of the raw arguments found.
#[derive(Debug)]
pub struct HelpScan {
    pub wants_help: bool,
    pub wants_json: bool,
    /// Name of the command the subcommand chain reached.
    pub command: String,
    /// The subcommand chain, e.g. `["mcp", "serve"]`.
    pub path: Vec<String>,
}

fn child_index(node: &CommandNode, name: &[char]) -> (r: Option<usize>)
    ensures
        match r {
            Some(k) => find_child(*node, name@) == Some(k as int) && k < node.subcommands@.len(),
            None => find_child(*node, name@) is None,
        },
{
    let mut k: usize = 0;
    while k < node.subcommands.len()
        invariant
            0 <= k <= node.subcommands.len(),
            find_child(*node, name@) == find_child_from(node.subcommands@, name@, k as int),
        decreases node.subcommands.len() - k,
    {
        let n = chars_of(node.subcommands[k].name.as_str());
        if crate::text::chars_eq(n.as_slice(), name) {
            return Some(k);
        }
        k = k + 1;
    }
    None
}

/// Scan raw CLI arguments for `--help`/`-h`, `--format=json`, and the
/// subcommand chain (e.g. `pybun mcp serve --help` resolves to the `serve`
/// command and path `["mcp", "serve"]`), walking `tree` alongside the
/// arguments so that option values are never mistaken for subcommands.
pub fn scan_help_request(args: &[String], tree: &CommandNode) -> (r: HelpScan)
    ensures
        ({
            let (help, json, node, path) = scan(
                string_views(args@),
                0,
                false,
                false,
                *tree,
                Seq::empty(),
            );
            &&& r.wants_help == help
            &&& r.wants_json == json
            &&& r.command@ == node.name@
            &&& string_views(r.path@) == path
        }),
{
    let ghost a = string_views(args@);
    let mut help = false;
    let mut json = false;
    let mut cur: &CommandNode = tree;
    let mut path: Vec<String> = Vec::new();
    let mut i: usize = 0;
    assert(string_views(path@) =~= Seq::<Seq<char>>::empty());
    while i < args.len()
        invariant
            0 <= i <= args.len(),
            a == string_views(args@),
            scan(a, 0, false, false, *tree, Seq::empty()) == scan(
                a,
                i as int,
                help,
                json,
                *cur,
                string_views(path@),
            ),
        decreases args.len() + 1 - i,
    {
        let arg = chars_of(args[i].as_str());
        assert(a[i as int] == arg@);
        if chars_eq_str(arg.as_slice(), "--help") || chars_eq_str(arg.as_slice(), "-h") {
            help = true;
            i = i + 1;
        } else if chars_eq_str(arg.as_slice(), "--format") {
            if i + 1 < args.len() {
                let next = chars_of(args[i + 1].as_str());
                assert(a[i + 1] == next@);
                if chars_eq_str(next.as_slice(), "json") {
                    json = true;
                }
            }
            proof {
                if i + 1 >= args.len() {
                    assert(scan(a, i + 2, help, json, *cur, string_views(path@)) == scan(
                        a,
                        args.len() as int,
                        help,
                        json,
                        *cur,
                        string_views(path@),
                    ));
                }
            }
            i = if i + 1 < args.len() { i + 2 } else { args.len() };
        } else if chars_eq_str(arg.as_slice(), "--format=json") {
            json = true;
            i = i + 1;
        } else if chars_eq_str(arg.as_slice(), "--progress") {
            proof {
                if i + 1 >= args.len() {
                    assert(scan(a, i + 2, help, json, *cur, string_views(path@)) == scan(
                        a,
                        args.len() as int,
                        help,
                        json,
                        *cur,
                        string_views(path@),
                    ));
                }
            }
            i = if i + 1 < args.len() { i + 2 } else { args.len() };
        } else if arg.len() > 0 && arg[0] == '-' {
            proof {
                reveal_strlit("-");
                assert(arg@.subrange(0, 1) =~= "-"@);
            }
            i = i + 1;
        } else {
            proof {
                reveal_strlit("-");
                if arg@.len() > 0 {
                    assert(arg@.subrange(0, 1)[0] == arg@[0]);
                }
            }
            match child_index(cur, arg.as_slice()) {
                Some(k) => {
                    let ghost old_path = string_views(path@);
                    path.push(args[i].clone());
                    assert(string_views(path@) =~= old_path.push(a[i as int]));
                    cur = &cur.subcommands[k];
                },
                None => {},
            }
            i = i + 1;
        }
    }
    assert(scan(a, i as int, help, json, *cur, string_views(path@)) == (
        help,
        json,
        *cur,
        string_views(path@),
    ));
    HelpScan { wants_help: help, wants_json: json, command: cur.name.clone(), path }
}

/// `parts` joined with single spaces.
pub open spec fn join_words(parts: Seq<Seq<char>>) -> Seq<char>
    decreases parts.len(),
{
    if parts.len() == 0 {
        Seq::empty()
    } else if parts.len() == 1 {
        parts[0]
    } else {
        join_words(parts.drop_last()) + seq![' '] + parts.last()
    }
}

/// A request for the JSON help of one command.
#[derive(Debug)]
pub struct HelpEnvelopeRequest {
    /// The subcommand chain whose help is asked for.
    pub path: Vec<String>,
    /// The command as the envelope names it, e.g. `pybun mcp serve --help`.
    pub command_line: String,
}

/// `r` is the answer, for the command tree `t`, to whether `args` ask for
/// JSON help, and for which command.
pub open spec fn json_help_answer(
    args: Seq<Seq<char>>,
    t: CommandNode,
    r: Option<HelpEnvelopeRequest>,
) -> bool {
    let (help, json, node, path) = scan(args, 0, false, false, t, Seq::empty());
    match r {
        None => !(help && json),
        Some(req) => help && json && string_views(req.path@) == path && req.command_line@
            == join_words(seq!["pybun"@] + path + seq!["--help"@]),
    }
}

/// Each word of `ws` preceded by a space.
pub open spec fn spaced(ws: Seq<Seq<char>>) -> Seq<char>
    decreases ws.len(),
{
    if ws.len() == 0 {
        Seq::empty()
    } else {
        seq![' '] + ws[0] + spaced(ws.drop_first())
    }
}

proof fn lemma_spaced_push(ws: Seq<Seq<char>>, w: Seq<char>)
    ensures
        spaced(ws.push(w)) == spaced(ws) + seq![' '] + w,
    decreases ws.len(),
{
    if ws.len() > 0 {
        lemma_spaced_push(ws.drop_first(), w);
        assert(ws.push(w).drop_first() =~= ws.drop_first().push(w));
        assert(ws.push(w)[0] == ws[0]);
        let rest = spaced(ws.drop_first());
        assert(spaced(ws.push(w)) == seq![' '] + ws[0] + spaced(ws.drop_first().push(w)));
        assert(spaced(ws) == seq![' '] + ws[0] + rest);
        assert(seq![' '] + ws[0] + (rest + seq![' '] + w) =~= (seq![' '] + ws[0] + rest) + seq![' '] + w);
    } else {
        assert(ws.push(w).drop_first() =~= Seq::<Seq<char>>::empty());
        assert(ws.push(w)[0] == w);
        assert(spaced(ws) == Seq::<char>::empty());
        assert(spaced(Seq::<Seq<char>>::empty()) == Seq::<char>::empty());
        assert(spaced(ws.push(w)) == seq![' '] + w + spaced(Seq::<Seq<char>>::empty()));
        assert(seq![' '] + w + Seq::<char>::empty() =~= Seq::<char>::empty() + seq![' '] + w);
    }
}

proof fn lemma_join_words_spaced(first: Seq<char>, ws: Seq<Seq<char>>)
    ensures
        join_words(seq![first] + ws) == first + spaced(ws),
    decreases ws.len(),
{
    if ws.len() == 0 {
        assert(seq![first] + ws =~= seq![first]);
        assert(first + spaced(ws) =~= first);
    } else {
        lemma_join_words_spaced(first, ws.drop_last());
        lemma_spaced_push(ws.drop_last(), ws.last());
        assert(ws.drop_last().push(ws.last()) =~= ws);
        assert((seq![first] + ws).drop_last() =~= seq![first] + ws.drop_last());
        assert((seq![first] + ws).last() == ws.last());
    }
}

/// The command a JSON help request names is `pybun`, then every
/// subcommand of its path in order, then `--help`, separated by single
/// spaces.
pub proof fn lemma_help_command_line(args: Seq<Seq<char>>, t: CommandNode, req: HelpEnvelopeRequest)
    requires
        json_help_answer(args, t, Some(req)),
    ensures
        req.command_line@ == "pybun"@ + spaced(string_views(req.path@)) + " --help"@,
{
    let path = string_views(req.path@);
    lemma_join_words_spaced("pybun"@, path + seq!["--help"@]);
    assert(seq!["pybun"@] + path + seq!["--help"@] =~= seq!["pybun"@] + (path + seq!["--help"@]));
    lemma_spaced_push(path, "--help"@);
    assert(path.push("--help"@) =~= path + seq!["--help"@]);
    reveal_strlit(" --help");
    reveal_strlit("--help");
    assert(seq![' '] + "--help"@ =~= " --help"@);
    assert("pybun"@ + (spaced(path) + seq![' '] + "--help"@) =~= "pybun"@ + spaced(path) + " --help"@);
}

/// Decides whether the raw arguments ask for JSON help (both `--help`/`-h`
/// and `--format=json`) and, if so, for which command. Clap intercepts
/// `--help` and prints plain text before normal dispatch runs, so this must
/// be checked before the arguments are parsed; `None` means normal parsing
/// (including clap's text help) applies. Rendering the help of the chosen
/// command is the caller's part.
pub fn json_help_envelope(args: &[String]) -> (r: Option<HelpEnvelopeRequest>)
    ensures
        ({
            exists|t: CommandNode|
                {
                    &&& is_pybun_tree(t)
                    &&& #[trigger] json_help_answer(string_views(args@), t, r)
                }
        }),
{
    let tree = pybun_command_tree();
    let scanned = scan_help_request(args, &tree);
    if !(scanned.wants_help && scanned.wants_json) {
        assert(json_help_answer(string_views(args@), tree, None));
        return None;
    }
    let ghost words = seq!["pybun"@] + string_views(scanned.path@) + seq!["--help"@];
    let mut line = String::from_str("pybun");
    let mut k: usize = 0;
    assert(words.take(1) =~= seq!["pybun"@]);
    while k < scanned.path.len()
        invariant
            0 <= k <= scanned.path.len(),
            words == seq!["pybun"@] + string_views(scanned.path@) + seq!["--help"@],
            line@ == join_words(words.take(k + 1)),
        decreases scanned.path.len() - k,
    {
        assert(words.take(k + 2).drop_last() =~= words.take(k + 1));
        assert(words.take(k + 2).last() == scanned.path@[k as int]@);
        line = line.concat(" ");
        line = line.concat(scanned.path[k].as_str());
        proof {
            reveal_strlit(" ");
        }
        assert(line@ =~= join_words(words.take(k + 2)));
        k = k + 1;
    }
    assert(words.take(k + 2).drop_last() =~= words.take(k + 1));
    assert(words.take(k + 2) =~= words);
    line = line.concat(" ");
    line = line.concat("--help");
    proof {
        reveal_strlit(" ");
    }
    assert(line@ =~= join_words(words));
    let r = Some(HelpEnvelopeRequest { path: scanned.path, command_line: line });
    assert(json_help_answer(string_views(args@), tree, r));
    r
}

/// The command reached from `node` by following the subcommand names of
/// `path`, if every name names a subcommand.
pub open spec fn follow(node: CommandNode, path: Seq<Seq<char>>) -> Option<CommandNode>
    decreases path.len(),
{
    if path.len() == 0 {
        Some(node)
    } else {
        match find_child(node, path[0]) {
            Some(k) => if 0 <= k < node.subcommands@.len() {
                follow(node.subcommands@[k], path.drop_first())
            } else {
                None
            },
            None => None,
        }
    }
}

proof fn lemma_follow_push(t: CommandNode, path: Seq<Seq<char>>, node: CommandNode, name: Seq<char>, k: int)
    requires
        follow(t, path) == Some(node),
        find_child(node, name) == Some(k),
        0 <= k < node.subcommands@.len(),
    ensures
        follow(t, path.push(name)) == Some(node.subcommands@[k]),
    decreases path.len(),
{
    if path.len() > 0 {
        let j = find_child(t, path[0])->0;
        lemma_follow_push(t.subcommands@[j], path.drop_first(), node, name, k);
        assert(path.push(name).drop_first() =~= path.drop_first().push(name));
        assert(path.push(name)[0] == path[0]);
    } else {
        assert(path.push(name).drop_first() =~= Seq::<Seq<char>>::empty());
        assert(follow(node.subcommands@[k], Seq::<Seq<char>>::empty()) == Some(node.subcommands@[k]));
    }
}

proof fn lemma_scan_follows(
    args: Seq<Seq<char>>,
    i: int,
    help: bool,
    json: bool,
    t: CommandNode,
    node: CommandNode,
    path: Seq<Seq<char>>,
)
    requires
        follow(t, path) == Some(node),
    ensures
        follow(t, scan(args, i, help, json, node, path).3) == Some(scan(args, i, help, json, node, path).2),
    decreases args.len() + 1 - i,
{
    if 0 <= i < args.len() {
        let a = args[i];
        if a == "--help"@ || a == "-h"@ {
            lemma_scan_follows(args, i + 1, true, json, t, node, path);
        } else if a == "--format"@ {
            let j = if i + 1 < args.len() && args[i + 1] == "json"@ {
                true
            } else {
                json
            };
            lemma_scan_follows(args, i + 2, help, j, t, node, path);
        } else if a == "--format=json"@ {
            lemma_scan_follows(args, i + 1, help, true, t, node, path);
        } else if a == "--progress"@ {
            lemma_scan_follows(args, i + 2, help, json, t, node, path);
        } else if starts_with(a, "-"@) {
            lemma_scan_follows(args, i + 1, help, json, t, node, path);
        } else {
            match find_child(node, a) {
                Some(k) => {
                    lemma_find_child_from_range(node.subcommands@, a, 0);
                    lemma_follow_push(t, path, node, a, k);
                    lemma_scan_follows(args, i + 1, help, json, t, node.subcommands@[k], path.push(a));
                },
                None => {
                    lemma_scan_follows(args, i + 1, help, json, t, node, path);
                },
            }
        }
    }
}

/// The scan only ever descends into real subcommands: the path it reports
/// names a chain of subcommands of the tree, and leads to the command it
/// reports. Option values, such as the `foo.py` of `lock --script foo.py`,
/// therefore never become part of the path unless a command of that name
/// exists there.
pub proof fn lemma_scan_path_follows_tree(args: Seq<Seq<char>>, t: CommandNode)
    ensures
        follow(t, scan(args, 0, false, false, t, Seq::empty()).3) == Some(
            scan(args, 0, false, false, t, Seq::empty()).2,
        ),
{
    lemma_scan_follows(args, 0, false, false, t, t, Seq::empty());
}

} // verus!
