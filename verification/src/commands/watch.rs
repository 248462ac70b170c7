//! `pybun watch`: the watch configuration the command line asks for.

use vstd::prelude::*;
use crate::cli::WatchArgs;
use crate::text::{chars_eq, opt_view};

verus! {

/// `base` with each pattern of `extra` appended, in order, unless it is
/// already there.
pub open spec fn merged(base: Seq<Seq<char>>, extra: Seq<Seq<char>>) -> Seq<Seq<char>>
    decreases extra.len(),
{
    if extra.len() == 0 {
        base
    } else {
        let m = merged(base, extra.drop_last());
        if m.contains(extra.last()) {
            m
        } else {
            m.push(extra.last())
        }
    }
}

/// The views of a vector of strings.
pub open spec fn views(v: Seq<String>) -> Seq<Seq<char>> {
    v.map_values(|s: String| s@)
}

fn contains_pattern(v: &Vec<String>, p: &String) -> (r: bool)
    ensures
        r == views(v@).contains(p@),
{
    let pc = crate::text::chars_of(p.as_str());
    let mut i: usize = 0;
    while i < v.len()
        invariant
            0 <= i <= v.len(),
            pc@ == p@,
            forall|k: int| 0 <= k < i ==> v@[k]@ != p@,
        decreases v.len() - i,
    {
        let c = crate::text::chars_of(v[i].as_str());
        if chars_eq(c.as_slice(), pc.as_slice()) {
            assert(views(v@)[i as int] == p@);
            return true;
        }
        i = i + 1;
    }
    assert forall|k: int| 0 <= k < views(v@).len() implies views(v@)[k] != p@ by {
        assert(views(v@)[k] == v@[k]@);
    }
    false
}

/// Merge the `--exclude` patterns into the default ones: each new pattern is
/// added once, after the defaults.
pub fn merge_exclude_patterns(base: Vec<String>, extra: &[String]) -> (r: Vec<String>)
    ensures
        views(r@) == merged(views(base@), views(extra@)),
{
    let mut out = base;
    let ghost b = views(out@);
    let mut i: usize = 0;
    assert(views(extra@.take(0)) =~= Seq::<Seq<char>>::empty());
    while i < extra.len()
        invariant
            0 <= i <= extra.len(),
            views(out@) == merged(b, views(extra@.take(i as int))),
        decreases extra.len() - i,
    {
        assert(views(extra@.take(i + 1)).drop_last() =~= views(extra@.take(i as int)));
        assert(views(extra@.take(i + 1)).last() == extra@[i as int]@);
        if !contains_pattern(&out, &extra[i]) {
            let ghost before = views(out@);
            out.push(extra[i].clone());
            assert(views(out@) =~= before.push(extra@[i as int]@));
        }
        i = i + 1;
    }
    assert(extra@.take(i as int) =~= extra@);
    out
}

/// Merging keeps every default pattern, adds every requested one, adds
/// nothing else, and repeats nothing that was not repeated before.
pub proof fn lemma_merge_patterns(base: Seq<Seq<char>>, extra: Seq<Seq<char>>)
    ensures
        merged(base, extra).len() >= base.len(),
        merged(base, extra).subrange(0, base.len() as int) == base,
        forall|p: Seq<char>| #[trigger] extra.contains(p) ==> merged(base, extra).contains(p),
        forall|p: Seq<char>| #[trigger] merged(base, extra).contains(p) ==> base.contains(p) || extra.contains(p),
        base.no_duplicates() ==> merged(base, extra).no_duplicates(),
    decreases extra.len(),
{
    if extra.len() > 0 {
        let e = extra.drop_last();
        lemma_merge_patterns(base, e);
        let m = merged(base, e);
        assert forall|p: Seq<char>| #[trigger] extra.contains(p) implies merged(base, extra).contains(p) by {
            let k = choose|k: int| 0 <= k < extra.len() && extra[k] == p;
            if k < extra.len() - 1 {
                assert(e[k] == p);
                assert(e.contains(p));
            }
            if !m.contains(extra.last()) {
                assert(m.push(extra.last())[m.len() as int] == extra.last());
                if m.contains(p) {
                    let j = choose|j: int| 0 <= j < m.len() && m[j] == p;
                    assert(m.push(extra.last())[j] == p);
                }
            }
        }
        assert forall|p: Seq<char>| #[trigger] merged(base, extra).contains(p) implies base.contains(p)
            || extra.contains(p) by {
            if m.contains(p) {
                if e.contains(p) {
                    let k = choose|k: int| 0 <= k < e.len() && e[k] == p;
                    assert(extra[k] == p);
                }
            } else {
                assert(p == extra.last());
                assert(extra[extra.len() - 1] == p);
            }
        }
        if !m.contains(extra.last()) {
            assert(m.push(extra.last()).subrange(0, base.len() as int) =~= m.subrange(0, base.len() as int));
        }
    }
}

/// What a file change runs: `pybun run <target>`, or a notice when there is
/// no target.
pub open spec fn watch_command(target: Option<Seq<char>>) -> Seq<char> {
    match target {
        Some(t) => "pybun run "@ + t,
        None => "echo 'File changed'"@,
    }
}

/// The command a generated external watcher runs on each change.
pub fn watch_target_command(target: Option<&str>) -> (r: String)
    ensures
        r@ == watch_command(
            match target {
                Some(t) => Some(t@),
                None => None,
            },
        ),
{
    match target {
        Some(t) => String::from_str("pybun run ").concat(t),
        None => String::from_str("echo 'File changed'"),
    }
}


/// The settings a watch runs with.
pub struct WatchConfig {
    pub watch_paths: Vec<String>,
    pub include_patterns: Vec<String>,
    pub exclude_patterns: Vec<String>,
    pub debounce_ms: u64,
    pub clear_on_reload: bool,
}

fn copy_strings(v: &[String]) -> (r: Vec<String>)
    ensures
        views(r@) == views(v@),
{
    let mut out: Vec<String> = Vec::new();
    let mut i: usize = 0;
    while i < v.len()
        invariant
            0 <= i <= v.len(),
            views(out@) == views(v@).take(i as int),
        decreases v.len() - i,
    {
        let ghost before = views(out@);
        out.push(v[i].clone());
        assert(views(out@) =~= before.push(v@[i as int]@));
        assert(views(v@).take(i + 1) =~= views(v@).take(i as int).push(v@[i as int]@));
        i = i + 1;
    }
    assert(views(v@).take(i as int) =~= views(v@));
    out
}

/// The configuration `pybun watch` runs with, from the command line, the
/// current directory `cwd` and the development defaults: the given paths
/// (else `cwd`), the given include patterns (else the default ones), the
/// default exclude patterns merged with the given ones, and the given
/// debounce and clear settings.
pub fn watch_config(args: &WatchArgs, cwd: &str, defaults: WatchConfig) -> (r: WatchConfig)
    ensures
        views(r.watch_paths@) == if args.paths@.len() > 0 {
            views(args.paths@)
        } else {
            seq![cwd@]
        },
        views(r.include_patterns@) == if args.include_patterns@.len() > 0 {
            views(args.include_patterns@)
        } else {
            views(defaults.include_patterns@)
        },
        views(r.exclude_patterns@) == merged(views(defaults.exclude_patterns@), views(args.exclude@)),
        r.debounce_ms == args.debounce,
        r.clear_on_reload == args.clear,
{
    let watch_paths = if args.paths.len() > 0 {
        copy_strings(args.paths.as_slice())
    } else {
        let mut v: Vec<String> = Vec::new();
        v.push(String::from_str(cwd));
        assert(views(v@) =~= seq![cwd@]);
        v
    };
    let include_patterns = if args.include_patterns.len() > 0 {
        copy_strings(args.include_patterns.as_slice())
    } else {
        defaults.include_patterns
    };
    let exclude_patterns = merge_exclude_patterns(defaults.exclude_patterns, args.exclude.as_slice());
    WatchConfig {
        watch_paths,
        include_patterns,
        exclude_patterns,
        debounce_ms: args.debounce,
        clear_on_reload: args.clear,
    }
}

/// What `pybun watch` does.
pub enum WatchPlan {
    /// Print the configuration.
    ShowConfig,
    /// Print a shell command for an external watcher that runs `command`.
    ShellCommand { command: String },
    /// No target was given: print the usage.
    AwaitingTarget,
    /// Describe what would be watched for `target`, without watching.
    DryRun { target: String },
    /// Watch and re-run `target` on each change.
    Start { target: String },
}

/// `p` is what `pybun watch` does for these flags, this target and
/// `dry_run`: the configuration first, then the shell command, then the
/// usage when there is no target, then a dry run or the watch itself.
pub open spec fn is_watch_plan(
    p: WatchPlan,
    show_config: bool,
    shell_command: bool,
    target: Option<Seq<char>>,
    dry_run: bool,
) -> bool {
    match p {
        WatchPlan::ShowConfig => show_config,
        WatchPlan::ShellCommand { command } => !show_config && shell_command && command@
            == watch_command(target),
        WatchPlan::AwaitingTarget => !show_config && !shell_command && target is None,
        WatchPlan::DryRun { target: t } => !show_config && !shell_command && target == Some(t@)
            && dry_run,
        WatchPlan::Start { target: t } => !show_config && !shell_command && target == Some(t@)
            && !dry_run,
    }
}

/// Decides what `pybun watch` does; `dry_run_env` says whether
/// `PYBUN_WATCH_DRY_RUN` is set, which asks for a dry run as `--dry-run`
/// does.
pub fn watch_plan(args: &WatchArgs, dry_run_env: bool) -> (r: WatchPlan)
    ensures
        is_watch_plan(
            r,
            args.show_config,
            args.shell_command,
            opt_view(args.target),
            args.dry_run || dry_run_env,
        ),
{
    if args.show_config {
        return WatchPlan::ShowConfig;
    }
    if args.shell_command {
        let command = match &args.target {
            Some(t) => watch_target_command(Some(t.as_str())),
            None => watch_target_command(None),
        };
        return WatchPlan::ShellCommand { command };
    }
    match &args.target {
        None => WatchPlan::AwaitingTarget,
        Some(t) => {
            if args.dry_run || dry_run_env {
                WatchPlan::DryRun { target: t.clone() }
            } else {
                WatchPlan::Start { target: t.clone() }
            }
        },
    }
}

} // verus!
