//! `pybun run`: the script lockfile's place, index-URL lists from the
//! environment, and the capture of a script's output.

use vstd::prelude::*;
use crate::digest::{hex_encode, hex_text, sha256_digest, sha256_of};
use crate::pathname::append_to_path;
use crate::commands::diagnostics::Diagnostic;
use crate::text::{dec, dec_chars};
use crate::text::{
    ascii_lower, char_is_ws, chars_eq_str, chars_of, is_ws, opt_view, string_of, trim, trim_chars, utf8_lossy,
    utf8_lossy_text, views,
};

verus! {

/// The lockfile of a PEP 723 script: the script's path with `.lock` appended.
pub fn script_lock_path(script_path: &str) -> (r: String)
    ensures
        r@ == script_path@ + ".lock"@,
{
    append_to_path(script_path, ".lock")
}

/// A character that separates the entries of an index-URL list.
pub open spec fn is_list_sep(c: char) -> bool {
    is_ws(c) || c == ','
}

/// The pieces of `s` between separators, empty ones included.
pub open spec fn list_pieces(s: Seq<char>) -> Seq<Seq<char>>
    decreases s.len(),
{
    if s.len() == 0 {
        seq![Seq::empty()]
    } else {
        let p = list_pieces(s.drop_last());
        if is_list_sep(s.last()) {
            p.push(Seq::empty())
        } else {
            p.update(p.len() - 1, p.last().push(s.last()))
        }
    }
}

proof fn lemma_list_pieces_nonempty(s: Seq<char>)
    ensures
        list_pieces(s).len() >= 1,
    decreases s.len(),
{
    if s.len() > 0 {
        lemma_list_pieces_nonempty(s.drop_last());
    }
}

/// The entries of a whitespace- or comma-separated list, without empty ones.
pub open spec fn list_entries(s: Seq<char>) -> Seq<Seq<char>> {
    list_pieces(s).filter(|p: Seq<char>| p.len() > 0)
}

/// Split an environment variable holding index URLs into its entries.
pub fn split_env_list(raw: &str) -> (r: Vec<String>)
    ensures
        r@.map_values(|e: String| e@) == list_entries(raw@),
{
    let s = chars_of(raw);
    let mut out: Vec<String> = Vec::new();
    let mut cur: Vec<char> = Vec::new();
    let mut i: usize = 0;
    let ghost nonempty = |p: Seq<char>| p.len() > 0;
    assert(s@.take(0) =~= Seq::<char>::empty());
    proof {
        reveal(Seq::filter);
        assert(list_pieces(s@.take(0)).drop_last() =~= Seq::<Seq<char>>::empty());
    }
    while i < s.len()
        invariant
            0 <= i <= s.len(),
            s@ == raw@,
            nonempty == (|p: Seq<char>| p.len() > 0),
            list_pieces(s@.take(i as int)).len() >= 1,
            cur@ == list_pieces(s@.take(i as int)).last(),
            out@.map_values(|e: String| e@) == list_pieces(s@.take(i as int)).drop_last().filter(nonempty),
        decreases s.len() - i,
    {
        let c = s[i];
        let ghost prev = list_pieces(s@.take(i as int));
        assert(s@.take(i + 1).drop_last() =~= s@.take(i as int));
        assert(s@.take(i + 1).last() == c);
        proof {
            lemma_list_pieces_nonempty(s@.take(i as int));
            reveal(Seq::filter);
        }
        if char_is_ws(c) || c == ',' {
            let ghost before = out@.map_values(|e: String| e@);
            if cur.len() > 0 {
                let w = crate::text::string_of(cur.as_slice());
                out.push(w);
                assert(out@.map_values(|e: String| e@) =~= before.push(cur@));
            }
            assert(list_pieces(s@.take(i + 1)).drop_last() =~= prev);
            assert(prev =~= prev.drop_last().push(prev.last()));
            cur = Vec::new();
        } else {
            cur.push(c);
            assert(list_pieces(s@.take(i + 1)).drop_last() =~= prev.drop_last());
        }
        i = i + 1;
    }
    assert(s@.take(i as int) =~= s@);
    let ghost all = list_pieces(s@);
    proof {
        reveal(Seq::filter);
        assert(all =~= all.drop_last().push(all.last()));
    }
    if cur.len() > 0 {
        let ghost before = out@.map_values(|e: String| e@);
        let w = crate::text::string_of(cur.as_slice());
        out.push(w);
        assert(out@.map_values(|e: String| e@) =~= before.push(cur@));
    }
    out
}

/// The entries of an environment variable's value, none where it is unset.
pub open spec fn env_list_entries(value: Option<&str>) -> Seq<Seq<char>> {
    match value {
        Some(v) => list_entries(v@),
        None => Seq::empty(),
    }
}

fn extend_with_env_list(out: &mut Vec<String>, value: Option<&str>)
    ensures
        final(out)@.map_values(|e: String| e@) == old(out)@.map_values(|e: String| e@) + env_list_entries(value),
{
    if let Some(v) = value {
        let entries = split_env_list(v);
        let mut i: usize = 0;
        while i < entries.len()
            invariant
                0 <= i <= entries.len(),
                entries@.map_values(|e: String| e@) == list_entries(v@),
                out@.map_values(|e: String| e@) == old(out)@.map_values(|e: String| e@)
                    + entries@.map_values(|e: String| e@).take(i as int),
            decreases entries.len() - i,
        {
            let ghost before = out@.map_values(|e: String| e@);
            out.push(entries[i].clone());
            assert(out@.map_values(|e: String| e@) =~= before.push(entries@[i as int]@));
            assert(entries@.map_values(|e: String| e@).take(i + 1)
                =~= entries@.map_values(|e: String| e@).take(i as int).push(entries@[i as int]@));
            i = i + 1;
        }
        assert(entries@.map_values(|e: String| e@).take(i as int) =~= entries@.map_values(|e: String| e@));
    } else {
        assert(out@.map_values(|e: String| e@) =~= old(out)@.map_values(|e: String| e@) + Seq::<Seq<char>>::empty());
    }
}

/// The package indexes of a PEP 723 script: those its metadata names, then
/// the entries of `PIP_INDEX_URL`, `PIP_EXTRA_INDEX_URL`, `UV_INDEX_URL` and
/// `UV_EXTRA_INDEX_URL`, in that order, each variable's value handed in as
/// read from the environment.
pub fn pep723_index_settings(
    metadata_index_urls: &[String],
    pip_index_url: Option<&str>,
    pip_extra_index_url: Option<&str>,
    uv_index_url: Option<&str>,
    uv_extra_index_url: Option<&str>,
) -> (r: Vec<String>)
    ensures
        r@.map_values(|e: String| e@) == metadata_index_urls@.map_values(|e: String| e@)
            + env_list_entries(pip_index_url) + env_list_entries(pip_extra_index_url)
            + env_list_entries(uv_index_url) + env_list_entries(uv_extra_index_url),
{
    let mut settings: Vec<String> = Vec::new();
    let mut i: usize = 0;
    while i < metadata_index_urls.len()
        invariant
            0 <= i <= metadata_index_urls.len(),
            settings@.map_values(|e: String| e@) == metadata_index_urls@.map_values(|e: String| e@).take(i as int),
        decreases metadata_index_urls.len() - i,
    {
        let ghost before = settings@.map_values(|e: String| e@);
        settings.push(metadata_index_urls[i].clone());
        assert(settings@.map_values(|e: String| e@) =~= before.push(metadata_index_urls@[i as int]@));
        assert(metadata_index_urls@.map_values(|e: String| e@).take(i + 1)
            =~= metadata_index_urls@.map_values(|e: String| e@).take(i as int).push(metadata_index_urls@[i as int]@));
        i = i + 1;
    }
    assert(metadata_index_urls@.map_values(|e: String| e@).take(i as int) =~= metadata_index_urls@.map_values(|e: String| e@));
    extend_with_env_list(&mut settings, pip_index_url);
    extend_with_env_list(&mut settings, pip_extra_index_url);
    extend_with_env_list(&mut settings, uv_index_url);
    extend_with_env_list(&mut settings, uv_extra_index_url);
    settings
}

/// The most bytes of a script's stdout or stderr that are kept.
pub const MAX_RUN_STDIO_CAPTURE_BYTES: usize = 64 * 1024;

/// What is kept of a script's captured output stream: nothing for no
/// output; otherwise its first 64 KiB decoded leniently as UTF-8, followed by
/// a truncation note when there was more.
pub open spec fn captured(bytes: Seq<u8>) -> Option<Seq<char>> {
    if bytes.len() == 0 {
        None
    } else if bytes.len() > MAX_RUN_STDIO_CAPTURE_BYTES {
        Some(utf8_lossy_text(bytes.take(MAX_RUN_STDIO_CAPTURE_BYTES as int)) + "\n...[truncated]"@)
    } else {
        Some(utf8_lossy_text(bytes))
    }
}

/// Keep a script's output for the run report.
pub fn capture_stdio(bytes: &[u8]) -> (r: Option<String>)
    ensures
        opt_view(r) == captured(bytes@),
{
    if bytes.len() == 0 {
        return None;
    }
    let truncated = bytes.len() > MAX_RUN_STDIO_CAPTURE_BYTES;
    if truncated {
        let mut head: Vec<u8> = Vec::new();
        let mut i: usize = 0;
        while i < MAX_RUN_STDIO_CAPTURE_BYTES
            invariant
                0 <= i <= MAX_RUN_STDIO_CAPTURE_BYTES < bytes.len(),
                head@ == bytes@.take(i as int),
            decreases MAX_RUN_STDIO_CAPTURE_BYTES - i,
        {
            head.push(bytes[i]);
            i = i + 1;
            assert(head@ =~= bytes@.take(i as int));
        }
        let out = utf8_lossy(head.as_slice());
        Some(out.concat("\n...[truncated]"))
    } else {
        Some(utf8_lossy(bytes))
    }
}

/// The hash a script lockfile is known by: the first 16 bytes of the
/// SHA-256 of its contents, in lower-case hexadecimal.
pub open spec fn lock_hash_text(bytes: Seq<u8>) -> Seq<char> {
    hex_text(sha256_of(bytes).take(16))
}

/// Hash the contents of a script lockfile.
pub fn script_lock_hash(bytes: &[u8]) -> (r: String)
    ensures
        r@ == lock_hash_text(bytes@),
{
    let digest = sha256_digest(bytes);
    let mut head: Vec<u8> = Vec::new();
    let mut i: usize = 0;
    while i < 16
        invariant
            0 <= i <= 16,
            digest@.len() == 32,
            head@ == digest@.take(i as int),
        decreases 16 - i,
    {
        head.push(digest[i]);
        i = i + 1;
        assert(head@ =~= digest@.take(i as int));
    }
    hex_encode(head.as_slice())
}

// ---------------------------------------------------------------------------
// PEP 723 environments
// ---------------------------------------------------------------------------

/// The packages installed for a PEP 723 script: with a script lockfile that
/// pins packages, those pins as `name==version`; otherwise (no lockfile, or
/// one that pins nothing) the dependencies the script declares.
pub open spec fn install_deps_for(locked: Option<Seq<(Seq<char>, Seq<char>)>>, declared: Seq<Seq<char>>) -> Seq<Seq<char>> {
    match locked {
        Some(pins) => if pins.len() > 0 {
            pins.map_values(|p: (Seq<char>, Seq<char>)| p.0 + "=="@ + p.1)
        } else {
            declared
        },
        None => declared,
    }
}

/// The views of a vector of strings.
pub open spec fn string_views(v: Seq<String>) -> Seq<Seq<char>> {
    v.map_values(|s: String| s@)
}

/// The views of a vector of string pairs.
pub open spec fn pair_views(v: Seq<(String, String)>) -> Seq<(Seq<char>, Seq<char>)> {
    v.map_values(|p: (String, String)| (p.0@, p.1@))
}

/// A script lockfile that pins packages is installed pin for pin, in
/// order, each as `name==version`; without pins, the declared dependencies
/// are installed as they are.
pub proof fn lemma_install_deps_follow_pins(
    locked: Option<Seq<(Seq<char>, Seq<char>)>>,
    declared: Seq<Seq<char>>,
)
    ensures
        locked is Some && locked->Some_0.len() > 0 ==> {
            &&& install_deps_for(locked, declared).len() == locked->Some_0.len()
            &&& forall|i: int|
                0 <= i < locked->Some_0.len() ==> #[trigger] install_deps_for(locked, declared)[i]
                    == locked->Some_0[i].0 + "=="@ + locked->Some_0[i].1
        },
        !(locked is Some && locked->Some_0.len() > 0) ==> install_deps_for(locked, declared) == declared,
{
}

/// Choose the requirements to install for a PEP 723 script.
pub fn pep723_install_deps(locked: Option<&[(String, String)]>, declared: &[String]) -> (r: Vec<String>)
    ensures
        string_views(r@) == install_deps_for(
            match locked {
                Some(l) => Some(pair_views(l@)),
                None => None,
            },
            string_views(declared@),
        ),
{
    let use_pins = match locked {
        Some(l) => l.len() > 0,
        None => false,
    };
    let mut out: Vec<String> = Vec::new();
    if use_pins {
        let pins = locked.unwrap();
        let mut i: usize = 0;
        while i < pins.len()
            invariant
                0 <= i <= pins.len(),
                string_views(out@) == pair_views(pins@).take(i as int).map_values(
                    |p: (Seq<char>, Seq<char>)| p.0 + "=="@ + p.1,
                ),
            decreases pins.len() - i,
        {
            let ghost before = string_views(out@);
            let pin = String::from_str(pins[i].0.as_str()).concat("==").concat(pins[i].1.as_str());
            out.push(pin);
            assert(string_views(out@) =~= before.push(pins@[i as int].0@ + "=="@ + pins@[i as int].1@));
            assert(pair_views(pins@).take(i + 1).map_values(|p: (Seq<char>, Seq<char>)| p.0 + "=="@ + p.1)
                =~= before.push(pins@[i as int].0@ + "=="@ + pins@[i as int].1@));
            i = i + 1;
        }
        assert(pair_views(pins@).take(i as int) =~= pair_views(pins@));
    } else {
        let mut i: usize = 0;
        while i < declared.len()
            invariant
                0 <= i <= declared.len(),
                string_views(out@) == string_views(declared@).take(i as int),
            decreases declared.len() - i,
        {
            let ghost before = string_views(out@);
            let item = declared[i].clone();
            assert(item@ == declared@[i as int]@);
            out.push(item);
            assert(string_views(out@) =~= before.push(declared@[i as int]@));
            i = i + 1;
            assert(string_views(out@) =~= string_views(declared@).take(i as int));
        }
        assert(string_views(declared@).take(i as int) =~= string_views(declared@));
    }
    out
}

/// The environment backend `PYBUN_PEP723_BACKEND` asks for.
#[derive(Debug, Clone, Copy, PartialEq, Eq, Structural)]
pub enum Pep723Backend {
    Auto,
    Pybun,
    Uv,
}

/// The backend a value of `PYBUN_PEP723_BACKEND` names (`auto` when unset),
/// read trimmed and ASCII-lower-cased; anything else is refused.
pub open spec fn pep723_backend_of(raw: Option<Seq<char>>) -> Result<Pep723Backend, Seq<char>> {
    let v = match raw {
        Some(r) => trim(r).map_values(|c: char| ascii_lower(c)),
        None => "auto"@,
    };
    if v == "auto"@ {
        Ok(Pep723Backend::Auto)
    } else if v == "pybun"@ {
        Ok(Pep723Backend::Pybun)
    } else if v == "uv"@ {
        Ok(Pep723Backend::Uv)
    } else {
        Err("invalid PYBUN_PEP723_BACKEND value: "@ + v + " (expected auto|pybun|uv)"@)
    }
}

/// Read `PYBUN_PEP723_BACKEND` (`None` when unset).
pub fn pep723_backend_setting(raw: Option<&str>) -> (r: Result<Pep723Backend, String>)
    ensures
        match r {
            Ok(b) => pep723_backend_of(
                match raw {
                    Some(x) => Some(x@),
                    None => None,
                },
            ) == Ok::<Pep723Backend, Seq<char>>(b),
            Err(e) => pep723_backend_of(
                match raw {
                    Some(x) => Some(x@),
                    None => None,
                },
            ) == Err::<Pep723Backend, Seq<char>>(e@),
        },
{
    let v: Vec<char> = match raw {
        Some(x) => {
            let c = chars_of(x);
            let t = trim_chars(c.as_slice());
            let mut low: Vec<char> = Vec::new();
            let mut i: usize = 0;
            while i < t.len()
                invariant
                    0 <= i <= t.len(),
                    low@ == t@.take(i as int).map_values(|c: char| ascii_lower(c)),
                decreases t.len() - i,
            {
                let ch = t[i];
                let l = if 'A' <= ch && ch <= 'Z' {
                    ((ch as u32) + 32) as u8 as char
                } else {
                    ch
                };
                assert(l == ascii_lower(ch)) by {
                    if 'A' <= ch && ch <= 'Z' {
                        assert(((ch as u32) + 32) as u8 as char == ((ch as u32) + 32) as char);
                    }
                }
                low.push(l);
                i = i + 1;
                assert(low@ =~= t@.take(i as int).map_values(|c: char| ascii_lower(c)));
            }
            assert(t@.take(i as int) =~= t@);
            low
        },
        None => chars_of("auto"),
    };
    if chars_eq_str(v.as_slice(), "auto") {
        Ok(Pep723Backend::Auto)
    } else if chars_eq_str(v.as_slice(), "pybun") {
        Ok(Pep723Backend::Pybun)
    } else if chars_eq_str(v.as_slice(), "uv") {
        Ok(Pep723Backend::Uv)
    } else {
        let shown = string_of(v.as_slice());
        Err(String::from_str("invalid PYBUN_PEP723_BACKEND value: ").concat(shown.as_str()).concat(
            " (expected auto|pybun|uv)",
        ))
    }
}

/// How a PEP 723 script with dependencies gets its environment.
#[derive(Debug, Clone, Copy, PartialEq, Eq, Structural)]
pub enum Pep723Runner {
    /// `uv run --script`, which manages its own environment.
    UvRun,
    /// Preview only: report which cached environment would be used.
    DryRunPreview,
    /// A cached virtual environment, reused when its key matches.
    CachedVenv,
    /// A throw-away virtual environment.
    TemporaryVenv,
}

/// The runner for a PEP 723 script: `uv run` when uv is available and
/// nothing rules it out (a dry run, a forced fresh environment, the
/// sandbox, the `pybun` backend, or a PyBun script lockfile, which uv cannot
/// read); an error when the `uv` backend was demanded but uv is missing;
/// otherwise the built-in runner.
pub open spec fn pep723_runner(
    backend: Pep723Backend,
    dry_run: bool,
    no_cache: bool,
    sandbox: bool,
    has_script_lock: bool,
    uv_available: bool,
) -> Result<Pep723Runner, Seq<char>> {
    if !dry_run && !no_cache && !sandbox && backend != Pep723Backend::Pybun && !has_script_lock {
        if uv_available {
            Ok(Pep723Runner::UvRun)
        } else if backend == Pep723Backend::Uv {
            Err("PYBUN_PEP723_BACKEND=uv requires `uv` to be available in PATH"@)
        } else {
            Ok(Pep723Runner::CachedVenv)
        }
    } else if dry_run {
        Ok(Pep723Runner::DryRunPreview)
    } else if !no_cache {
        Ok(Pep723Runner::CachedVenv)
    } else {
        Ok(Pep723Runner::TemporaryVenv)
    }
}

/// Choose how to run a PEP 723 script with dependencies.
pub fn choose_pep723_runner(
    backend: Pep723Backend,
    dry_run: bool,
    no_cache: bool,
    sandbox: bool,
    has_script_lock: bool,
    uv_available: bool,
) -> (r: Result<Pep723Runner, String>)
    ensures
        match r {
            Ok(x) => pep723_runner(backend, dry_run, no_cache, sandbox, has_script_lock, uv_available) == Ok::<
                Pep723Runner,
                Seq<char>,
            >(x),
            Err(e) => pep723_runner(backend, dry_run, no_cache, sandbox, has_script_lock, uv_available) == Err::<
                Pep723Runner,
                Seq<char>,
            >(e@),
        },
{
    let not_pybun = match backend {
        Pep723Backend::Pybun => false,
        _ => true,
    };
    if !dry_run && !no_cache && !sandbox && not_pybun && !has_script_lock {
        if uv_available {
            Ok(Pep723Runner::UvRun)
        } else if backend == Pep723Backend::Uv {
            Err(String::from_str("PYBUN_PEP723_BACKEND=uv requires `uv` to be available in PATH"))
        } else {
            Ok(Pep723Runner::CachedVenv)
        }
    } else if dry_run {
        Ok(Pep723Runner::DryRunPreview)
    } else if !no_cache {
        Ok(Pep723Runner::CachedVenv)
    } else {
        Ok(Pep723Runner::TemporaryVenv)
    }
}

/// A script lockfile always wins over the `uv` backend, which cannot read
/// it: this asks for the warning that says so.
pub fn warns_uv_lockfile_fallback(backend: Pep723Backend, has_script_lock: bool) -> (r: bool)
    ensures
        r == (backend == Pep723Backend::Uv && has_script_lock),
{
    backend == Pep723Backend::Uv && has_script_lock
}

/// Whatever the settings, a script with a PyBun lockfile is never handed to
/// `uv run`.
pub proof fn lemma_lockfile_never_uses_uv(
    backend: Pep723Backend,
    dry_run: bool,
    no_cache: bool,
    sandbox: bool,
    uv_available: bool,
)
    ensures
        pep723_runner(backend, dry_run, no_cache, sandbox, true, uv_available) != Ok::<
            Pep723Runner,
            Seq<char>,
        >(Pep723Runner::UvRun),
{
}


// ---------------------------------------------------------------------------
// Planning `pybun run`
// ---------------------------------------------------------------------------

/// What `pybun run` was asked to run.
pub struct ScriptRunRequest {
    /// Inline code (`-c`), run instead of a script.
    pub code: Option<String>,
    /// The script to run.
    pub target: Option<String>,
    pub sandbox: bool,
}

/// What the caller found out about the script and the environment.
pub struct ScriptFacts {
    pub script_exists: bool,
    /// The dependencies the script's PEP 723 metadata declares (none when it
    /// has no metadata or the metadata does not parse).
    pub declared: Vec<String>,
    /// The pins of the script's lockfile, when it has one.
    pub locked: Option<Vec<(String, String)>>,
    /// The value of `PYBUN_PEP723_BACKEND`, when set.
    pub backend_setting: Option<String>,
    /// `PYBUN_PEP723_DRY_RUN` is set.
    pub dry_run: bool,
    /// `PYBUN_PEP723_NO_CACHE` is set.
    pub no_cache: bool,
    /// `uv` was found in PATH.
    pub uv_available: bool,
}

/// How `pybun run` proceeds.
pub enum ScriptRunPlan {
    /// Run the inline code.
    InlineCode,
    /// Run the script with the project's Python: it needs no packages.
    Plain { script: String },
    /// Run the script in an environment with `deps` installed, got by
    /// `runner`; `warn_uv_lock` asks for the warning that the `uv` backend
    /// gives way to the script lockfile.
    WithDeps { script: String, deps: Vec<String>, runner: Pep723Runner, warn_uv_lock: bool },
}

/// The packages a script needs, from what the caller found.
pub open spec fn script_deps(f: ScriptFacts) -> Seq<Seq<char>> {
    install_deps_for(
        match f.locked {
            Some(l) => Some(pair_views(l@)),
            None => None,
        },
        string_views(f.declared@),
    )
}

/// Why `pybun run` refuses, if it does: no target, a missing script, or,
/// for a script that needs packages, an unknown backend setting or a `uv`
/// backend without uv.
pub open spec fn script_run_error(req: ScriptRunRequest, f: ScriptFacts) -> Option<Seq<char>> {
    if req.code is Some {
        None
    } else {
        match req.target {
            None => Some("script target is required (e.g., pybun run script.py)"@),
            Some(t) => if !f.script_exists {
                Some("script not found: "@ + t@)
            } else if script_deps(f).len() == 0 {
                None
            } else {
                match pep723_backend_of(opt_view(f.backend_setting)) {
                    Err(e) => Some(e),
                    Ok(b) => match pep723_runner(b, f.dry_run, f.no_cache, req.sandbox, f.locked is Some, f.uv_available) {
                        Err(e) => Some(e),
                        Ok(_) => None,
                    },
                }
            },
        }
    }
}

/// `p` is how `pybun run` proceeds when it does not refuse.
pub open spec fn is_script_plan(p: ScriptRunPlan, req: ScriptRunRequest, f: ScriptFacts) -> bool {
    if req.code is Some {
        p is InlineCode
    } else {
        let t = req.target->Some_0;
        if script_deps(f).len() == 0 {
            p matches ScriptRunPlan::Plain { script } && script@ == t@
        } else {
            let b = pep723_backend_of(opt_view(f.backend_setting))->Ok_0;
            match p {
                ScriptRunPlan::WithDeps { script, deps, runner, warn_uv_lock } => {
                    &&& script@ == t@
                    &&& string_views(deps@) == script_deps(f)
                    &&& Ok::<Pep723Runner, Seq<char>>(runner) == pep723_runner(
                        b,
                        f.dry_run,
                        f.no_cache,
                        req.sandbox,
                        f.locked is Some,
                        f.uv_available,
                    )
                    &&& warn_uv_lock == (b == Pep723Backend::Uv && f.locked is Some)
                },
                _ => false,
            }
        }
    }
}

/// Plans `pybun run`: inline code first; otherwise the script, which must
/// exist, run plainly when it needs no packages, or in an environment whose
/// packages come from its lockfile or its PEP 723 metadata.
pub fn plan_script_run(req: &ScriptRunRequest, facts: &ScriptFacts) -> (r: Result<ScriptRunPlan, String>)
    ensures
        match r {
            Err(e) => script_run_error(*req, *facts) == Some(e@),
            Ok(p) => script_run_error(*req, *facts) is None && is_script_plan(p, *req, *facts),
        },
{
    if req.code.is_some() {
        return Ok(ScriptRunPlan::InlineCode);
    }
    let target = match &req.target {
        None => {
            return Err(String::from_str("script target is required (e.g., pybun run script.py)"));
        },
        Some(t) => t,
    };
    if !facts.script_exists {
        return Err(String::from_str("script not found: ").concat(target.as_str()));
    }
    let locked = match &facts.locked {
        Some(l) => Some(l.as_slice()),
        None => None,
    };
    let deps = pep723_install_deps(locked, facts.declared.as_slice());
    assert(string_views(deps@) == script_deps(*facts));
    if deps.len() == 0 {
        return Ok(ScriptRunPlan::Plain { script: target.clone() });
    }
    let setting = match &facts.backend_setting {
        Some(v) => Some(v.as_str()),
        None => None,
    };
    let backend = match pep723_backend_setting(setting) {
        Ok(b) => b,
        Err(e) => {
            return Err(e);
        },
    };
    let has_lock = facts.locked.is_some();
    let runner = match choose_pep723_runner(
        backend,
        facts.dry_run,
        facts.no_cache,
        req.sandbox,
        has_lock,
        facts.uv_available,
    ) {
        Ok(x) => x,
        Err(e) => {
            return Err(e);
        },
    };
    let warn_uv_lock = warns_uv_lockfile_fallback(backend, has_lock);
    Ok(ScriptRunPlan::WithDeps { script: target.clone(), deps, runner, warn_uv_lock })
}


// ---------------------------------------------------------------------------
// Inline code and the sandbox
// ---------------------------------------------------------------------------

/// The sandbox lets the code reach the network when `--allow-network` is
/// given or `PYBUN_SANDBOX_ALLOW_NETWORK` is `1` or `true` (in any case).
pub open spec fn network_allowed(flag: bool, env: Option<Seq<char>>) -> bool {
    flag || match env {
        Some(v) => v == "1"@ || crate::commands::install::eq_ignore_ascii_case(v, "true"@),
        None => false,
    }
}

/// Whether the sandbox lets the code reach the network.
pub fn sandbox_allows_network(flag: bool, env: Option<&str>) -> (r: bool)
    ensures
        r == network_allowed(flag, opt_str_view(env)),
{
    if flag {
        return true;
    }
    match env {
        Some(v) => {
            let c = chars_of(v);
            chars_eq_str(c.as_slice(), "1") || crate::commands::install::same_ignoring_case(v, "true")
        },
        None => false,
    }
}

/// The view of an optional string slice.
pub open spec fn opt_str_view(o: Option<&str>) -> Option<Seq<char>> {
    match o {
        Some(s) => Some(s@),
        None => None,
    }
}

/// A signed integer in decimal.
pub open spec fn signed_dec(n: int) -> Seq<char> {
    if n < 0 {
        "-"@ + dec((-n) as nat)
    } else {
        dec(n as nat)
    }
}

/// A signed integer in decimal.
pub fn signed_text(n: i32) -> (r: String)
    ensures
        r@ == signed_dec(n as int),
{
    if n < 0 {
        let m: u128 = (0i64 - (n as i64)) as u128;
        let d = dec_chars(m);
        String::from_str("-").concat(string_of(d.as_slice()).as_str())
    } else {
        let d = dec_chars(n as u128);
        string_of(d.as_slice())
    }
}

/// The summary of a run of inline code.
pub open spec fn inline_summary(success: bool, sandbox: bool, exit_code: i32) -> Seq<char> {
    if success {
        if sandbox {
            "executed inline code successfully (sandboxed)"@
        } else {
            "executed inline code successfully"@
        }
    } else {
        "inline code exited with code "@ + signed_dec(exit_code as int)
    }
}

/// Summarises a run of inline code from how the process ended.
pub fn inline_code_summary(success: bool, sandbox: bool, exit_code: i32) -> (r: String)
    ensures
        r@ == inline_summary(success, sandbox, exit_code),
{
    if success {
        if sandbox {
            String::from_str("executed inline code successfully (sandboxed)")
        } else {
            String::from_str("executed inline code successfully")
        }
    } else {
        let n = signed_text(exit_code);
        String::from_str("inline code exited with code ").concat(n.as_str())
    }
}

/// The error reported when the sandbox killed the process: for running past
/// `--sandbox-timeout`, else for using more CPU than `--sandbox-cpu` (when
/// that limit is set); nothing otherwise.
pub fn sandbox_kill_diagnostic(timed_out: bool, timeout_secs: u64, cpu_limit_secs: u64, cpu_exceeded: bool) -> (r: Option<
    Diagnostic,
>)
    ensures
        r is Some <==> (timed_out || (cpu_limit_secs > 0 && cpu_exceeded)),
        r matches Some(d) ==> if timed_out {
            crate::commands::dispatch::is_coded_error(
                d,
                "E_SANDBOX_TIMEOUT"@,
                "sandboxed process killed after exceeding --sandbox-timeout="@ + dec(timeout_secs as nat) + "s"@,
                "increase --sandbox-timeout, set --sandbox-timeout=0 to disable, or optimize the script to finish sooner"@,
            )
        } else {
            crate::commands::dispatch::is_coded_error(
                d,
                "E_SANDBOX_CPU_LIMIT"@,
                "sandboxed process killed after exceeding --sandbox-cpu="@ + dec(cpu_limit_secs as nat)
                    + "s of CPU time"@,
                "increase --sandbox-cpu, set --sandbox-cpu=0 to disable, or optimize the script to use less CPU time"@,
            )
        },
{
    if timed_out {
        let n = dec_chars(timeout_secs as u128);
        let message = String::from_str("sandboxed process killed after exceeding --sandbox-timeout=").concat(
            string_of(n.as_slice()).as_str(),
        ).concat("s");
        Some(crate::commands::dispatch::coded_error(
            "E_SANDBOX_TIMEOUT",
            message,
            "increase --sandbox-timeout, set --sandbox-timeout=0 to disable, or optimize the script to finish sooner",
        ))
    } else if cpu_limit_secs > 0 && cpu_exceeded {
        let n = dec_chars(cpu_limit_secs as u128);
        let message = String::from_str("sandboxed process killed after exceeding --sandbox-cpu=").concat(
            string_of(n.as_slice()).as_str(),
        ).concat("s of CPU time");
        Some(crate::commands::dispatch::coded_error(
            "E_SANDBOX_CPU_LIMIT",
            message,
            "increase --sandbox-cpu, set --sandbox-cpu=0 to disable, or optimize the script to use less CPU time",
        ))
    } else {
        None
    }
}

} // verus!
