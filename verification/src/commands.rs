//! The decision logic of the `pybun` subcommands: package-spec parsing,
//! test selection and sharding, snapshot normalisation, project scaffolding
//! text and the diagnostics the commands emit.

pub mod diagnostics;
pub mod dispatch;
pub mod install;
pub mod maintenance;
pub mod project;
pub mod run;
pub mod test_runner;
pub mod tooling;
pub mod watch;

use vstd::prelude::*;
use crate::commands::diagnostics::{Diagnostic, DiagnosticLevel};
use crate::json::{Json, as_array, as_str, get, json_as_array, json_as_str, json_get};
use crate::text::{chars_of, opt_view, trim, trim_chars, string_of};

verus! {

/// The warning for a sandbox resource limit that the platform cannot enforce.
pub open spec fn unsupported_limit_message(limit: Seq<char>) -> Seq<char> {
    "sandbox "@ + limit + " limit is not enforced on this platform and will have no effect"@
}

/// The warning for an `--allow-env` name that was refused as credential-shaped.
pub open spec fn rejected_env_message(name: Seq<char>) -> Seq<char> {
    "--allow-env="@ + name
        + " was ignored because its name looks like a credential (e.g. ends in _KEY/_TOKEN, contains _SECRET, or starts with AWS_); sandbox env filtering never passes credential-shaped names through, even when explicitly allow-listed"@
}

/// One warning diagnostic per entry of `names`, with message `message(name)`
/// and code `code`.
pub open spec fn warnings_for(
    ds: Seq<Diagnostic>,
    names: Seq<String>,
    message: spec_fn(Seq<char>) -> Seq<char>,
    code: Seq<char>,
) -> bool {
    &&& ds.len() == names.len()
    &&& forall|i: int|
        0 <= i < ds.len() ==> {
            &&& (#[trigger] ds[i]).level == DiagnosticLevel::Warning
            &&& ds[i].message@ == message(names[i]@)
            &&& opt_view(ds[i].code) == Some(code)
            &&& ds[i].file is None
            &&& ds[i].line is None
            &&& ds[i].suggestion is None
            &&& ds[i].context is None
        }
}

/// A warning for each resource limit that was requested but cannot be
/// enforced on the current platform.
pub fn emit_unsupported_resource_limit_diagnostics(unsupported: &[String]) -> (r: Vec<Diagnostic>)
    ensures
        warnings_for(
            r@,
            unsupported@,
            |l: Seq<char>| unsupported_limit_message(l),
            "W_SANDBOX_LIMIT_UNSUPPORTED"@,
        ),
{
    let mut out: Vec<Diagnostic> = Vec::new();
    let mut i: usize = 0;
    while i < unsupported.len()
        invariant
            0 <= i <= unsupported.len(),
            warnings_for(
                out@,
                unsupported@.take(i as int),
                |l: Seq<char>| unsupported_limit_message(l),
                "W_SANDBOX_LIMIT_UNSUPPORTED"@,
            ),
        decreases unsupported.len() - i,
    {
        let message = String::from_str("sandbox ").concat(unsupported[i].as_str()).concat(
            " limit is not enforced on this platform and will have no effect",
        );
        let d = Diagnostic::warning(message).with_code("W_SANDBOX_LIMIT_UNSUPPORTED");
        out.push(d);
        i = i + 1;
        assert(unsupported@.take(i as int).drop_last() =~= unsupported@.take(i - 1));
    }
    assert(unsupported@.take(i as int) =~= unsupported@);
    out
}

/// A warning for each `--allow-env` name that was ignored because it looks
/// like a credential.
pub fn emit_rejected_allow_env_diagnostics(rejected_env: &[String]) -> (r: Vec<Diagnostic>)
    ensures
        warnings_for(
            r@,
            rejected_env@,
            |n: Seq<char>| rejected_env_message(n),
            "W_SANDBOX_ALLOW_ENV_REJECTED"@,
        ),
{
    let mut out: Vec<Diagnostic> = Vec::new();
    let mut i: usize = 0;
    while i < rejected_env.len()
        invariant
            0 <= i <= rejected_env.len(),
            warnings_for(
                out@,
                rejected_env@.take(i as int),
                |n: Seq<char>| rejected_env_message(n),
                "W_SANDBOX_ALLOW_ENV_REJECTED"@,
            ),
        decreases rejected_env.len() - i,
    {
        let message = String::from_str("--allow-env=").concat(rejected_env[i].as_str()).concat(
            " was ignored because its name looks like a credential (e.g. ends in _KEY/_TOKEN, contains _SECRET, or starts with AWS_); sandbox env filtering never passes credential-shaped names through, even when explicitly allow-listed",
        );
        let d = Diagnostic::warning(message).with_code("W_SANDBOX_ALLOW_ENV_REJECTED");
        out.push(d);
        i = i + 1;
        assert(rejected_env@.take(i as int).drop_last() =~= rejected_env@.take(i - 1));
    }
    assert(rejected_env@.take(i as int) =~= rejected_env@);
    out
}

/// The version a JSON schema pins: `properties.version.const`, or, without
/// one, `properties.version.enum`; a string there is the version, otherwise
/// the first element when it is an array whose first element is a string.
pub open spec fn schema_version(schema: Json) -> Option<Seq<char>> {
    match get(schema, "properties"@) {
        Some(props) => match get(props, "version"@) {
            Some(version) => {
                let pinned = match get(version, "const"@) {
                    Some(c) => Some(c),
                    None => get(version, "enum"@),
                };
                match pinned {
                    Some(v) => match as_str(v) {
                        Some(s) => Some(s),
                        None => match as_array(v) {
                            Some(items) => if items.len() > 0 {
                                as_str(items[0])
                            } else {
                                None
                            },
                            None => None,
                        },
                    },
                    None => None,
                }
            },
            None => None,
        },
        None => None,
    }
}

/// Read the schema version that a JSON schema pins.
pub fn schema_version_from(schema: &Json) -> (r: Option<String>)
    ensures
        opt_view(r) == schema_version(*schema),
{
    let props = match json_get(schema, "properties") {
        Some(p) => p,
        None => return None,
    };
    let version = match json_get(props, "version") {
        Some(v) => v,
        None => return None,
    };
    let pinned = match json_get(version, "const") {
        Some(c) => c,
        None => match json_get(version, "enum") {
            Some(e) => e,
            None => return None,
        },
    };
    match json_as_str(pinned) {
        Some(s) => Some(String::from_str(s)),
        None => match json_as_array(pinned) {
            Some(items) => if items.len() > 0 {
                match json_as_str(&items[0]) {
                    Some(s) => Some(String::from_str(s)),
                    None => None,
                }
            } else {
                None
            },
            None => None,
        },
    }
}

/// The Python version that `PYBUN_PYPI_PYTHON_VERSION` asks for: its value
/// trimmed, when that is not empty.
pub open spec fn python_version_override(raw: Option<Seq<char>>) -> Option<Seq<char>> {
    match raw {
        Some(v) => if trim(v).len() > 0 {
            Some(trim(v))
        } else {
            None
        },
        None => None,
    }
}

/// Reads the override from the variable's value, `None` when it is unset.
pub fn python_version_env_override(raw: Option<&str>) -> (r: Option<String>)
    ensures
        opt_view(r) == python_version_override(
            match raw {
                Some(v) => Some(v@),
                None => None,
            },
        ),
{
    match raw {
        Some(v) => {
            let c = chars_of(v);
            let t = trim_chars(c.as_slice());
            if t.len() > 0 {
                Some(string_of(t.as_slice()))
            } else {
                None
            }
        },
        None => None,
    }
}

/// `PYTHONPATH` with `dir` in front of what it held before (on Unix, entries
/// are separated by `:`); an unset or empty previous value adds nothing.
pub open spec fn python_path(dir: Seq<char>, existing: Option<Seq<char>>) -> Seq<char> {
    match existing {
        Some(e) => if e.len() > 0 {
            dir + seq![':'] + e
        } else {
            dir
        },
        None => dir,
    }
}

/// Build a `PYTHONPATH` that puts `dir` before the existing one.
pub fn join_python_path(dir: &str, existing: Option<&str>) -> (r: String)
    ensures
        r@ == python_path(
            dir@,
            match existing {
                Some(e) => Some(e@),
                None => None,
            },
        ),
{
    match existing {
        Some(e) => {
            if !e.is_empty() {
                proof {
                    reveal_strlit(":");
                }
                String::from_str(dir).concat(":").concat(e)
            } else {
                String::from_str(dir)
            }
        },
        None => String::from_str(dir),
    }
}

} // verus!
