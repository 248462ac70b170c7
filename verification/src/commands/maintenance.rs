//! `pybun gc` and `pybun doctor`: the summary line of a collection and the
//! report of the environment checks.

use vstd::prelude::*;
use crate::cache::size::{format_size, size_text};
use crate::text::{dec, dec_chars, opt_view, string_of};

verus! {

/// The summary of a collection: in a dry run, what would be freed, or that
/// the cache is within its limit when nothing would be removed; otherwise
/// what was freed, or that the cache is within its limit when nothing was
/// removed.
pub open spec fn gc_summary_text(
    dry_run: bool,
    would_remove: nat,
    removed: nat,
    freed: u64,
    size_before: u64,
    size_after: u64,
) -> Seq<char> {
    if dry_run {
        if would_remove == 0 {
            "Cache is within limits ("@ + size_text(size_before as nat) + " used)"@
        } else {
            "Would free "@ + size_text(freed as nat) + " ("@ + dec(would_remove) + " files/envs)"@
        }
    } else if removed == 0 {
        "Cache is within limits ("@ + size_text(size_after as nat) + " used)"@
    } else {
        "Freed "@ + size_text(freed as nat) + " ("@ + dec(removed) + " files/envs removed)"@
    }
}

/// Summarise a collection from its totals.
pub fn gc_summary(
    dry_run: bool,
    would_remove: usize,
    removed: usize,
    freed: u64,
    size_before: u64,
    size_after: u64,
) -> (r: String)
    ensures
        r@ == gc_summary_text(dry_run, would_remove as nat, removed as nat, freed, size_before, size_after),
{
    if dry_run {
        if would_remove == 0 {
            let used = format_size(size_before);
            String::from_str("Cache is within limits (").concat(used.as_str()).concat(" used)")
        } else {
            let f = format_size(freed);
            let n = dec_chars(would_remove as u128);
            String::from_str("Would free ").concat(f.as_str()).concat(" (").concat(
                string_of(n.as_slice()).as_str(),
            ).concat(" files/envs)")
        }
    } else if removed == 0 {
        let used = format_size(size_after);
        String::from_str("Cache is within limits (").concat(used.as_str()).concat(" used)")
    } else {
        let f = format_size(freed);
        let n = dec_chars(removed as u128);
        String::from_str("Freed ").concat(f.as_str()).concat(" (").concat(string_of(n.as_slice()).as_str()).concat(
            " files/envs removed)",
        )
    }
}


/// The outcome of one `pybun doctor` check.
#[derive(Debug, Clone, Copy, PartialEq, Eq, Structural)]
pub enum CheckStatus {
    /// Reported as `ok`.
    Passed,
    /// Reported as `info`.
    Info,
    /// Reported as `error`.
    Failed,
}

/// One line of the `pybun doctor` report.
#[derive(Debug)]
pub struct DoctorCheck {
    pub name: String,
    pub status: CheckStatus,
    /// What the check found, when it says more than its status.
    pub message: Option<String>,
}

/// What the PyPI metadata cache holds.
pub struct PypiCacheStats {
    pub path: String,
    pub entry_count: u64,
    pub stale_count: u64,
}

/// What `pybun doctor` found in the environment.
pub struct DoctorFindings {
    /// The path of the running `pybun` binary, when it could be found.
    pub binary: Option<String>,
    /// The Python interpreter found, or why none was.
    pub python: Result<String, String>,
    /// The cache directory, or why the cache could not be set up.
    pub cache: Result<String, String>,
    /// The PyPI metadata cache, when there is one.
    pub pypi_cache: Option<PypiCacheStats>,
    /// The project's pyproject.toml, when there is one.
    pub project: Option<String>,
}

/// The report of `pybun doctor`.
pub struct DoctorReport {
    pub checks: Vec<DoctorCheck>,
    /// No check failed.
    pub healthy: bool,
    /// `healthy` or `issues_found`.
    pub status: String,
    pub summary: String,
}

/// `c` is the check `name` with this status and message.
pub open spec fn is_check(c: DoctorCheck, name: Seq<char>, status: CheckStatus, message: Option<Seq<char>>) -> bool {
    c.name@ == name && c.status == status && opt_view(c.message) == message
}

/// The checks of a report, in order: the binary (when found), Python, the
/// cache, the PyPI metadata cache (when there is one) and the project.
pub open spec fn doctor_checks_ok(checks: Seq<DoctorCheck>, f: DoctorFindings) -> bool {
    let b: int = if f.binary is Some { 1 } else { 0 };
    let p: int = if f.pypi_cache is Some { 1 } else { 0 };
    &&& checks.len() == 3 + b + p
    &&& (f.binary is Some ==> is_check(checks[0], "pybun_binary"@, CheckStatus::Passed, opt_view(f.binary)))
    &&& match f.python {
        Ok(path) => is_check(checks[b], "python"@, CheckStatus::Passed, Some("Python found at "@ + path@)),
        Err(e) => is_check(checks[b], "python"@, CheckStatus::Failed, Some("Python not found: "@ + e@)),
    }
    &&& match f.cache {
        Ok(dir) => is_check(checks[b + 1], "cache"@, CheckStatus::Passed, Some("Cache directory: "@ + dir@)),
        Err(e) => is_check(
            checks[b + 1],
            "cache"@,
            CheckStatus::Failed,
            Some("Cache initialization failed: "@ + e@),
        ),
    }
    &&& match f.pypi_cache {
        Some(st) => is_check(
            checks[b + 2],
            "pypi_cache"@,
            if st.stale_count > 0 {
                CheckStatus::Info
            } else {
                CheckStatus::Passed
            },
            Some(
                "PyPI metadata cache: "@ + st.path@ + " ("@ + dec(st.entry_count as nat) + " entries, "@
                    + dec(st.stale_count as nat) + " stale)"@,
            ),
        ),
        None => true,
    }
    &&& match f.project {
        Some(path) => is_check(checks[b + p + 2], "project"@, CheckStatus::Passed, Some("Project found at "@ + path@)),
        None => is_check(
            checks[b + p + 2],
            "project"@,
            CheckStatus::Info,
            Some("No pyproject.toml found in current directory"@),
        ),
    }
}

fn check(name: &str, status: CheckStatus, message: Option<String>) -> (c: DoctorCheck)
    ensures
        is_check(c, name@, status, opt_view(message)),
{
    DoctorCheck { name: String::from_str(name), status, message }
}

fn dec_string(n: u64) -> (r: String)
    ensures
        r@ == dec(n as nat),
{
    let v = dec_chars(n as u128);
    string_of(v.as_slice())
}

/// The `pybun doctor` report for what was found: the environment is healthy
/// when Python was found and the cache could be set up; a missing project or
/// stale PyPI cache entries are only informational.
pub fn doctor_report(f: DoctorFindings) -> (r: DoctorReport)
    ensures
        doctor_checks_ok(r.checks@, f),
        r.healthy == (f.python is Ok && f.cache is Ok),
        r.status@ == if r.healthy { "healthy"@ } else { "issues_found"@ },
        r.summary@ == if r.healthy { "All checks passed"@ } else { "Some issues found"@ },
{
    let ghost g = f;
    let mut checks: Vec<DoctorCheck> = Vec::new();
    let healthy = f.python.is_ok() && f.cache.is_ok();
    match f.binary {
        Some(path) => {
            checks.push(check("pybun_binary", CheckStatus::Passed, Some(path)));
        },
        None => {},
    }
    let ghost b: int = checks@.len() as int;
    match f.python {
        Ok(path) => {
            checks.push(check("python", CheckStatus::Passed, Some(String::from_str("Python found at ").concat(path.as_str()))));
        },
        Err(e) => {
            checks.push(check("python", CheckStatus::Failed, Some(String::from_str("Python not found: ").concat(e.as_str()))));
        },
    }
    match f.cache {
        Ok(dir) => {
            checks.push(check("cache", CheckStatus::Passed, Some(String::from_str("Cache directory: ").concat(dir.as_str()))));
        },
        Err(e) => {
            checks.push(check(
                "cache",
                CheckStatus::Failed,
                Some(String::from_str("Cache initialization failed: ").concat(e.as_str())),
            ));
        },
    }
    match f.pypi_cache {
        Some(st) => {
            let status = if st.stale_count > 0 {
                CheckStatus::Info
            } else {
                CheckStatus::Passed
            };
            let entries = dec_string(st.entry_count);
            let stale = dec_string(st.stale_count);
            let message = String::from_str("PyPI metadata cache: ").concat(st.path.as_str()).concat(" (").concat(
                entries.as_str(),
            ).concat(" entries, ").concat(stale.as_str()).concat(" stale)");
            checks.push(check("pypi_cache", status, Some(message)));
        },
        None => {},
    }
    match f.project {
        Some(path) => {
            checks.push(check("project", CheckStatus::Passed, Some(String::from_str("Project found at ").concat(path.as_str()))));
        },
        None => {
            checks.push(check(
                "project",
                CheckStatus::Info,
                Some(String::from_str("No pyproject.toml found in current directory")),
            ));
        },
    }
    let status = if healthy {
        String::from_str("healthy")
    } else {
        String::from_str("issues_found")
    };
    let summary = if healthy {
        String::from_str("All checks passed")
    } else {
        String::from_str("Some issues found")
    };
    DoctorReport { checks, healthy, status, summary }
}

} // verus!
