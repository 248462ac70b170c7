//! `pybun x` package specs and `pybun self update` release URLs.

use vstd::prelude::*;
use crate::text::{
    chars_eq_str, chars_of, char_is_ascii_alnum, char_is_ws, find, find_chars, is_ascii_alnum, is_ws,
    occurs_at, opt_view, substring, trim,
};

verus! {

/// The version-specifier operators, in the order they are tried.
pub open spec fn specifier_ops() -> Seq<Seq<char>> {
    seq![
        seq!['=', '='],
        seq!['>', '='],
        seq!['<', '='],
        seq!['!', '='],
        seq!['~', '='],
        seq!['>'],
        seq!['<'],
    ]
}

/// Splits `s` at the first occurrence of the first operator, from the `k`-th
/// on, that occurs in it at all.
pub open spec fn split_spec_from(s: Seq<char>, k: int) -> (Seq<char>, Option<Seq<char>>)
    decreases specifier_ops().len() - k,
{
    if k < 0 || k >= specifier_ops().len() {
        (s, None)
    } else {
        match find(s, specifier_ops()[k]) {
            Some(i) => (s.take(i), Some(s.skip(i + specifier_ops()[k].len()))),
            None => split_spec_from(s, k + 1),
        }
    }
}

/// The (name, version) of a package spec such as `cowsay==6.1`: the text
/// before and after the first operator of `==, >=, <=, !=, ~=, >, <` (in that
/// order of preference) that occurs in it; with none, the whole spec and no
/// version.
pub open spec fn package_spec(s: Seq<char>) -> (Seq<char>, Option<Seq<char>>) {
    split_spec_from(s, 0)
}

fn specifier_op(k: usize) -> (op: Vec<char>)
    requires
        k < 7,
    ensures
        op@ == specifier_ops()[k as int],
{
    let mut op: Vec<char> = Vec::new();
    if k == 0 {
        op.push('=');
        op.push('=');
    } else if k == 1 {
        op.push('>');
        op.push('=');
    } else if k == 2 {
        op.push('<');
        op.push('=');
    } else if k == 3 {
        op.push('!');
        op.push('=');
    } else if k == 4 {
        op.push('~');
        op.push('=');
    } else if k == 5 {
        op.push('>');
    } else {
        op.push('<');
    }
    assert(op@ =~= specifier_ops()[k as int]);
    op
}

/// Parse a package specification like "cowsay==6.1" into (name, version).
pub fn parse_package_spec(spec: &str) -> (r: (String, Option<String>))
    ensures
        (r.0@, opt_view(r.1)) == package_spec(spec@),
{
    let s = chars_of(spec);
    let mut k: usize = 0;
    while k < 7
        invariant
            0 <= k <= 7,
            s@ == spec@,
            package_spec(spec@) == split_spec_from(spec@, k as int),
        decreases 7 - k,
    {
        let op = specifier_op(k);
        match find_chars(s.as_slice(), op.as_slice()) {
            Some(idx) => {
                assert(occurs_at(s@, op@, idx as int));
                let n = s.len();
                let w = op.len();
                assert(idx + w <= n);
                let end = idx + w;
                let name = substring(&s, 0, idx);
                let version = substring(&s, end, s.len());
                assert(s@.subrange(0, idx as int) =~= spec@.take(idx as int));
                assert(s@.subrange(idx + op.len(), s@.len() as int) =~= spec@.skip(idx + op@.len()));
                return (name, Some(version));
            },
            None => {},
        }
        k = k + 1;
    }
    (String::from_str(spec), None)
}

/// Characters a package spec may hold: ASCII letters and digits and the
/// punctuation of PEP 508 names and version specifiers.
pub open spec fn spec_char_allowed(c: char) -> bool {
    is_ascii_alnum(c) || c == '.' || c == '_' || c == '-' || c == '=' || c == '<' || c == '>'
        || c == '!' || c == '~' || c == ',' || c == '*' || c == '+' || c == '[' || c == ']'
}

/// Why a package spec is refused, if it is: empty after trimming, starting
/// with `-` (pip would read it as a flag), or holding a character outside
/// the PEP 508 grammar, checked in that order.
pub open spec fn package_spec_error(s: Seq<char>) -> Option<Seq<char>> {
    if trim(s).len() == 0 {
        Some("package spec must not be empty"@)
    } else if s[0] == '-' {
        Some("package spec must not start with '-': "@ + s)
    } else if exists|i: int| 0 <= i < s.len() && !spec_char_allowed(#[trigger] s[i]) {
        Some("package spec contains characters outside PEP 508 syntax: "@ + s)
    } else {
        None
    }
}

/// A spec made only of ASCII letters, digits and the characters
/// `. _ - = < > ! ~ , * + [ ]`, and not starting with `-`, is accepted;
/// one holding any other character is refused.
pub proof fn lemma_package_spec_charset(s: Seq<char>)
    ensures
        (s.len() > 0 && s[0] != '-' && forall|i: int|
            0 <= i < s.len() ==> {
                let c = #[trigger] s[i];
                ||| 'a' <= c <= 'z'
                ||| 'A' <= c <= 'Z'
                ||| '0' <= c <= '9'
                ||| c == '.' || c == '_' || c == '-' || c == '=' || c == '<' || c == '>'
                ||| c == '!' || c == '~' || c == ',' || c == '*' || c == '+' || c == '[' || c == ']'
            }) ==> package_spec_error(s) is None,
        (exists|i: int|
            0 <= i < s.len() && {
                let c = #[trigger] s[i];
                !('a' <= c <= 'z') && !('A' <= c <= 'Z') && !('0' <= c <= '9') && c != '.' && c != '_'
                    && c != '-' && c != '=' && c != '<' && c != '>' && c != '!' && c != '~' && c != ','
                    && c != '*' && c != '+' && c != '[' && c != ']'
            }) ==> package_spec_error(s) is Some,
{
    if s.len() > 0 && s[0] != '-' && forall|i: int|
        0 <= i < s.len() ==> {
            let c = #[trigger] s[i];
            ||| 'a' <= c <= 'z'
            ||| 'A' <= c <= 'Z'
            ||| '0' <= c <= '9'
            ||| c == '.' || c == '_' || c == '-' || c == '=' || c == '<' || c == '>'
            ||| c == '!' || c == '~' || c == ',' || c == '*' || c == '+' || c == '[' || c == ']'
        } {
        assert(!crate::text::is_ws(s[0]));
        assert(!crate::text::is_ws(s[s.len() - 1]));
        crate::text::lemma_trim_fixed(s);
        assert forall|i: int| 0 <= i < s.len() implies spec_char_allowed(#[trigger] s[i]) by {}
    }
}

fn char_allowed(c: char) -> (b: bool)
    ensures
        b == spec_char_allowed(c),
{
    char_is_ascii_alnum(c) || c == '.' || c == '_' || c == '-' || c == '=' || c == '<' || c == '>'
        || c == '!' || c == '~' || c == ',' || c == '*' || c == '+' || c == '[' || c == ']'
}

/// Validate a `pybun x` package spec against expected PEP 508 syntax before
/// it is passed to `pip`/`uv`.
pub fn validate_package_spec(spec: &str) -> (r: Result<(), String>)
    ensures
        match r {
            Ok(()) => package_spec_error(spec@) is None,
            Err(msg) => package_spec_error(spec@) == Some(msg@),
        },
{
    let s = chars_of(spec);
    let t = crate::text::trim_chars(s.as_slice());
    if t.len() == 0 {
        return Err(String::from_str("package spec must not be empty"));
    }
    if s[0] == '-' {
        let m = String::from_str("package spec must not start with '-': ");
        return Err(m.concat(spec));
    }
    let mut i: usize = 0;
    while i < s.len()
        invariant
            0 <= i <= s.len(),
            s@ == spec@,
            trim(spec@).len() != 0,
            spec@[0] != '-',
            forall|j: int| 0 <= j < i ==> spec_char_allowed(#[trigger] s@[j]),
        decreases s.len() - i,
    {
        if !char_allowed(s[i]) {
            assert(!spec_char_allowed(spec@[i as int]));
            let m = String::from_str("package spec contains characters outside PEP 508 syntax: ");
            return Err(m.concat(spec));
        }
        i = i + 1;
    }
    Ok(())
}

/// The release manifest of the `nightly` channel.
pub open spec fn nightly_manifest_url() -> Seq<char> {
    "https://github.com/VOID-TECHNOLOGY-INC/PyBun/releases/download/nightly/pybun-release.json"@
}

/// The release manifest of every other channel: the latest stable release.
pub open spec fn latest_manifest_url() -> Seq<char> {
    "https://github.com/VOID-TECHNOLOGY-INC/PyBun/releases/latest/download/pybun-release.json"@
}

/// The manifest that `pybun self update` reads for `channel`.
pub fn default_manifest_url(channel: &str) -> (r: String)
    ensures
        r@ == (if channel@ == "nightly"@ { nightly_manifest_url() } else { latest_manifest_url() }),
{
    let c = chars_of(channel);
    if chars_eq_str(c.as_slice(), "nightly") {
        String::from_str(
            "https://github.com/VOID-TECHNOLOGY-INC/PyBun/releases/download/nightly/pybun-release.json",
        )
    } else {
        String::from_str(
            "https://github.com/VOID-TECHNOLOGY-INC/PyBun/releases/latest/download/pybun-release.json",
        )
    }
}

/// Number of leading `c` characters of `s`.
pub open spec fn leading_count(s: Seq<char>, c: char) -> nat
    decreases s.len(),
{
    if s.len() > 0 && s[0] == c {
        1 + leading_count(s.drop_first(), c)
    } else {
        0
    }
}

/// `str::trim_start_matches` with a character: `s` without its leading `c`s.
pub open spec fn trim_start(s: Seq<char>, c: char) -> Seq<char> {
    s.skip(leading_count(s, c) as int)
}

/// The GitHub release page of `version`, with or without a leading `v`.
pub open spec fn release_url(version: Seq<char>) -> Seq<char> {
    "https://github.com/VOID-TECHNOLOGY-INC/PyBun/releases/tag/v"@ + trim_start(version, 'v')
}

/// The release page for `version`.
pub fn release_url_for_version(version: &str) -> (r: String)
    ensures
        r@ == release_url(version@),
{
    let s = chars_of(version);
    let mut i: usize = 0;
    assert(s@.skip(0) =~= s@);
    while i < s.len() && s[i] == 'v'
        invariant
            0 <= i <= s.len(),
            s@ == version@,
            leading_count(s@, 'v') == i + leading_count(s@.skip(i as int), 'v'),
        decreases s.len() - i,
    {
        assert(s@.skip(i as int).drop_first() =~= s@.skip(i + 1));
        i = i + 1;
    }
    assert(leading_count(s@.skip(i as int), 'v') == 0) by {
        if i < s.len() {
            assert(s@.skip(i as int)[0] == s@[i as int]);
        }
    }
    let rest = substring(&s, i, s.len());
    assert(s@.subrange(i as int, s@.len() as int) =~= s@.skip(i as int));
    let prefix = String::from_str("https://github.com/VOID-TECHNOLOGY-INC/PyBun/releases/tag/v");
    prefix.concat(rest.as_str())
}

// ---------------------------------------------------------------------------
// pybun self update
// ---------------------------------------------------------------------------

/// The release manifest is fetched unless this is a dry run; a dry run
/// fetches it too when a manifest source is set in the environment or a
/// fetch is forced there.
pub open spec fn fetches_manifest(dry_run: bool, manifest_env_set: bool, fetch_env_set: bool) -> bool {
    !dry_run || manifest_env_set || fetch_env_set
}

/// Whether `pybun self update` loads the release manifest.
pub fn should_fetch_manifest(dry_run: bool, manifest_env_set: bool, fetch_env_set: bool) -> (r: bool)
    ensures
        r == fetches_manifest(dry_run, manifest_env_set, fetch_env_set),
{
    !dry_run || manifest_env_set || fetch_env_set
}

/// What an update that is not a dry run does once the manifest was read.
#[derive(Debug)]
pub enum SelfUpdateStep {
    /// Nothing to install: the binary is current.
    UpToDate,
    /// The manifest could not be loaded.
    ManifestFailed { message: String },
    /// No release asset matches this platform.
    NoAsset { message: String },
    /// Install the selected asset.
    Apply,
}

/// The step after reading the manifest: a load failure stops the update;
/// otherwise an available update without an asset for the target stops it;
/// otherwise an available update is applied.
pub fn self_update_step(
    manifest_error: Option<&str>,
    update_available: bool,
    asset_found: bool,
    target: Option<&str>,
) -> (r: SelfUpdateStep)
    ensures
        match manifest_error {
            Some(e) => r matches SelfUpdateStep::ManifestFailed { message } && message@
                == "failed to load release manifest: "@ + e@,
            None => if !update_available {
                r is UpToDate
            } else if !asset_found {
                r matches SelfUpdateStep::NoAsset { message } && message@ == "no release asset found for target "@
                    + match target {
                    Some(t) => t@,
                    None => "unknown"@,
                }
            } else {
                r is Apply
            },
        },
{
    match manifest_error {
        Some(e) => SelfUpdateStep::ManifestFailed {
            message: String::from_str("failed to load release manifest: ").concat(e),
        },
        None => {
            if !update_available {
                SelfUpdateStep::UpToDate
            } else if !asset_found {
                let t = match target {
                    Some(t) => t,
                    None => "unknown",
                };
                SelfUpdateStep::NoAsset {
                    message: String::from_str("no release asset found for target ").concat(t),
                }
            } else {
                SelfUpdateStep::Apply
            }
        },
    }
}

/// The summary line of `pybun self update`.
pub open spec fn self_update_summary_text(
    dry_run: bool,
    update_available: bool,
    update_applied: bool,
    manifest_error: Option<Seq<char>>,
    update_error: Option<Seq<char>>,
    current: Seq<char>,
    latest: Seq<char>,
    channel: Seq<char>,
) -> Seq<char> {
    let up_to_date = "Already up to date: "@ + current + " (channel: "@ + channel + ")"@;
    if dry_run {
        if update_available {
            "Update available: "@ + current + " -> "@ + latest + " (dry-run, no changes made)"@
        } else {
            match manifest_error {
                Some(e) => "Update check failed: "@ + e + " (dry-run)"@,
                None => up_to_date,
            }
        }
    } else {
        match update_error {
            Some(e) => "Update failed: "@ + e,
            None => if update_available && update_applied {
                "Updated: "@ + current + " -> "@ + latest
            } else if update_available {
                "Update failed: "@ + current + " -> "@ + latest
            } else {
                up_to_date
            },
        }
    }
}

/// Summarise a self update.
pub fn self_update_summary(
    dry_run: bool,
    update_available: bool,
    update_applied: bool,
    manifest_error: Option<&str>,
    update_error: Option<&str>,
    current: &str,
    latest: &str,
    channel: &str,
) -> (r: String)
    ensures
        r@ == self_update_summary_text(
            dry_run,
            update_available,
            update_applied,
            match manifest_error {
                Some(e) => Some(e@),
                None => None,
            },
            match update_error {
                Some(e) => Some(e@),
                None => None,
            },
            current@,
            latest@,
            channel@,
        ),
{
    let up_to_date = String::from_str("Already up to date: ").concat(current).concat(" (channel: ").concat(
        channel,
    ).concat(")");
    if dry_run {
        if update_available {
            String::from_str("Update available: ").concat(current).concat(" -> ").concat(latest).concat(
                " (dry-run, no changes made)",
            )
        } else {
            match manifest_error {
                Some(e) => String::from_str("Update check failed: ").concat(e).concat(" (dry-run)"),
                None => up_to_date,
            }
        }
    } else {
        match update_error {
            Some(e) => String::from_str("Update failed: ").concat(e),
            None => if update_available && update_applied {
                String::from_str("Updated: ").concat(current).concat(" -> ").concat(latest)
            } else if update_available {
                String::from_str("Update failed: ").concat(current).concat(" -> ").concat(latest)
            } else {
                up_to_date
            },
        }
    }
}


// ---------------------------------------------------------------------------
// `pybun x`
// ---------------------------------------------------------------------------

/// What `pybun x` runs: the package's name and version from its spec, once
/// the spec is given and accepted (see [`package_spec_error`]).
pub open spec fn tool_request_for(package: Option<Seq<char>>) -> Result<(Seq<char>, Option<Seq<char>>), Seq<char>> {
    match package {
        None => Err("package name is required"@),
        Some(p) => match package_spec_error(p) {
            Some(e) => Err(e),
            None => Ok(package_spec(p)),
        },
    }
}

/// Reads the package `pybun x` is asked to run.
pub fn tool_request(package: Option<&str>) -> (r: Result<(String, Option<String>), String>)
    ensures
        match r {
            Ok(v) => tool_request_for(crate::commands::run::opt_str_view(package)) == Ok::<
                (Seq<char>, Option<Seq<char>>),
                Seq<char>,
            >((v.0@, opt_view(v.1))),
            Err(e) => tool_request_for(crate::commands::run::opt_str_view(package)) == Err::<
                (Seq<char>, Option<Seq<char>>),
                Seq<char>,
            >(e@),
        },
{
    match package {
        None => Err(String::from_str("package name is required")),
        Some(p) => match validate_package_spec(p) {
            Err(e) => Err(e),
            Ok(()) => Ok(parse_package_spec(p)),
        },
    }
}

/// The arguments that install `spec` into the environment at `venv`: with
/// uv, `uv pip install --quiet --python <venv> <spec>`; otherwise the
/// environment's pip, `pip install --quiet <spec>`.
pub fn tool_install_args(uv: bool, venv: &str, spec: &str) -> (r: Vec<String>)
    ensures
        r@.map_values(|s: String| s@) == if uv {
            seq!["pip"@, "install"@, "--quiet"@, "--python"@, venv@, spec@]
        } else {
            seq!["install"@, "--quiet"@, spec@]
        },
{
    let mut out: Vec<String> = Vec::new();
    if uv {
        out.push(String::from_str("pip"));
    }
    out.push(String::from_str("install"));
    out.push(String::from_str("--quiet"));
    if uv {
        out.push(String::from_str("--python"));
        out.push(String::from_str(venv));
    }
    out.push(String::from_str(spec));
    proof {
        if uv {
            assert(out@.map_values(|s: String| s@) =~= seq!["pip"@, "install"@, "--quiet"@, "--python"@, venv@, spec@]);
        } else {
            assert(out@.map_values(|s: String| s@) =~= seq!["install"@, "--quiet"@, spec@]);
        }
    }
    out
}

} // verus!
