//! Build backends: which kind a PEP 517 backend is, the environment a build
//! runs with, and the key under which its artifacts are cached.

use vstd::prelude::*;
use vstd::utf8::encode_utf8;
use crate::digest::{hex_encode, hex_text, sha256_digest, sha256_of};
use crate::pathname::{join, join_path};
use crate::text::{chars_of, chars_eq_str, contains, contains_chars, to_lowercase, lowercase};

verus! {

/// The build backends `pybun build` knows how to isolate and cache.
#[derive(Debug, Clone, Copy, PartialEq, Eq, Structural)]
pub enum BuildBackendKind {
    Setuptools,
    Maturin,
    ScikitBuild,
    Unknown,
}

/// The name of a backend kind.
pub open spec fn kind_name(k: BuildBackendKind) -> Seq<char> {
    match k {
        BuildBackendKind::Setuptools => "setuptools"@,
        BuildBackendKind::Maturin => "maturin"@,
        BuildBackendKind::ScikitBuild => "scikit-build"@,
        BuildBackendKind::Unknown => "unknown"@,
    }
}

impl BuildBackendKind {
    pub fn as_str(&self) -> (r: &'static str)
        ensures
            r@ == kind_name(*self),
    {
        match self {
            BuildBackendKind::Setuptools => "setuptools",
            BuildBackendKind::Maturin => "maturin",
            BuildBackendKind::ScikitBuild => "scikit-build",
            BuildBackendKind::Unknown => "unknown",
        }
    }
}

/// The kind of a backend, from its lower-cased name: the first of
/// `maturin`, `scikit`, `setuptools` that the name contains.
pub open spec fn kind_of(lower: Seq<char>) -> BuildBackendKind {
    if contains(lower, "maturin"@) {
        BuildBackendKind::Maturin
    } else if contains(lower, "scikit"@) {
        BuildBackendKind::ScikitBuild
    } else if contains(lower, "setuptools"@) {
        BuildBackendKind::Setuptools
    } else {
        BuildBackendKind::Unknown
    }
}

/// A project's build backend, as its `[build-system]` table names it.
#[derive(Debug, Clone)]
pub struct BuildBackend {
    pub name: String,
    pub kind: BuildBackendKind,
    pub build_requires: Vec<String>,
    /// Whether the build runs isolated: for every known kind.
    pub isolated: bool,
}

/// A name/value pair of an environment, as text.
pub open spec fn env_view(v: Seq<(String, String)>) -> Seq<(Seq<char>, Seq<char>)> {
    v.map_values(|p: (String, String)| (p.0@, p.1@))
}

/// The environment a build of backend `name` of kind `kind` runs with, for
/// the build cache directory `cache_dir`.
pub open spec fn build_env(name: Seq<char>, kind: BuildBackendKind, cache_dir: Seq<char>) -> Seq<(Seq<char>, Seq<char>)> {
    let base = seq![
        ("PYTHONNOUSERSITE"@, "1"@),
        ("PIP_DISABLE_PIP_VERSION_CHECK"@, "1"@),
        ("PIP_NO_PYTHON_VERSION_WARNING"@, "1"@),
        ("PYBUN_BUILD_ISOLATION"@, "1"@),
        ("PYBUN_BUILD_BACKEND"@, name),
        ("PYBUN_BUILD_CACHE_DIR"@, cache_dir),
    ];
    match kind {
        BuildBackendKind::Maturin => base.push(("CARGO_TARGET_DIR"@, join(cache_dir, "cargo"@))),
        BuildBackendKind::ScikitBuild => base.push(("SKBUILD_BUILD_DIR"@, join(cache_dir, "scikit-build"@))),
        _ => base,
    }
}

fn pair(name: &str, value: &str) -> (r: (String, String))
    ensures
        r.0@ == name@,
        r.1@ == value@,
{
    (String::from_str(name), String::from_str(value))
}

impl BuildBackend {
    /// The backend a `[build-system]` table describes: its `build-backend`
    /// (setuptools when absent) and the packages it needs to build.
    pub fn from_build_system(build_backend: Option<String>, build_requires: Vec<String>) -> (r: BuildBackend)
        ensures
            r.name@ == match build_backend {
                Some(b) => b@,
                None => "setuptools.build_meta"@,
            },
            r.kind == kind_of(lowercase(r.name@)),
            r.build_requires == build_requires,
            r.isolated == (r.kind != BuildBackendKind::Unknown),
    {
        let name = match build_backend {
            Some(b) => b,
            None => String::from_str("setuptools.build_meta"),
        };
        let lower = to_lowercase(name.as_str());
        let maturin = chars_of("maturin");
        let scikit = chars_of("scikit");
        let setuptools = chars_of("setuptools");
        let kind = if contains_chars(lower.as_str(), maturin.as_slice()) {
            BuildBackendKind::Maturin
        } else if contains_chars(lower.as_str(), scikit.as_slice()) {
            BuildBackendKind::ScikitBuild
        } else if contains_chars(lower.as_str(), setuptools.as_slice()) {
            BuildBackendKind::Setuptools
        } else {
            BuildBackendKind::Unknown
        };
        let isolated = match kind {
            BuildBackendKind::Unknown => false,
            _ => true,
        };
        BuildBackend { name, kind, build_requires, isolated }
    }

    /// The environment variables a build runs with.
    pub fn env_overrides(&self, cache_dir: &str) -> (r: Vec<(String, String)>)
        ensures
            env_view(r@) == build_env(self.name@, self.kind, cache_dir@),
    {
        let mut envs: Vec<(String, String)> = Vec::new();
        envs.push(pair("PYTHONNOUSERSITE", "1"));
        envs.push(pair("PIP_DISABLE_PIP_VERSION_CHECK", "1"));
        envs.push(pair("PIP_NO_PYTHON_VERSION_WARNING", "1"));
        envs.push(pair("PYBUN_BUILD_ISOLATION", "1"));
        envs.push(pair("PYBUN_BUILD_BACKEND", self.name.as_str()));
        envs.push(pair("PYBUN_BUILD_CACHE_DIR", cache_dir));
        match self.kind {
            BuildBackendKind::Maturin => {
                envs.push((String::from_str("CARGO_TARGET_DIR"), join_path(cache_dir, "cargo")));
            },
            BuildBackendKind::ScikitBuild => {
                envs.push((String::from_str("SKBUILD_BUILD_DIR"), join_path(cache_dir, "scikit-build")));
            },
            _ => {},
        }
        assert(env_view(envs@) =~= build_env(self.name@, self.kind, cache_dir@));
        envs
    }
}

/// Directories whose contents never feed a build's cache key.
pub open spec fn ignored_dir(name: Seq<char>) -> bool {
    ||| name == ".git"@
    ||| name == ".venv"@
    ||| name == ".pybun"@
    ||| name == ".pytest_cache"@
    ||| name == ".mypy_cache"@
    ||| name == "__pycache__"@
    ||| name == "dist"@
    ||| name == "build"@
    ||| name == "target"@
    ||| name == "node_modules"@
    ||| name == ".cache"@
}

/// Whether the directory `name` is skipped when collecting build inputs.
pub fn is_ignored_dir(name: &str) -> (r: bool)
    ensures
        r == ignored_dir(name@),
{
    let c = chars_of(name);
    let s = c.as_slice();
    chars_eq_str(s, ".git") || chars_eq_str(s, ".venv") || chars_eq_str(s, ".pybun") || chars_eq_str(
        s,
        ".pytest_cache",
    ) || chars_eq_str(s, ".mypy_cache") || chars_eq_str(s, "__pycache__") || chars_eq_str(s, "dist")
        || chars_eq_str(s, "build") || chars_eq_str(s, "target") || chars_eq_str(s, "node_modules")
        || chars_eq_str(s, ".cache")
}

/// A build input: its path relative to the project root, and its contents.
pub struct BuildInput {
    pub relative_path: String,
    pub contents: Vec<u8>,
}

/// The bytes of the inputs `inputs[..k]`, each as `|`, its relative path
/// and its contents.
pub open spec fn inputs_material(inputs: Seq<BuildInput>) -> Seq<u8>
    decreases inputs.len(),
{
    if inputs.len() == 0 {
        Seq::empty()
    } else {
        inputs_material(inputs.drop_last()) + seq![124u8] + encode_utf8(inputs.last().relative_path@)
            + inputs.last().contents@
    }
}

/// What the cache key hashes: the backend's name and kind and the Python
/// interpreter's path, separated by `|`, then every input.
pub open spec fn cache_key_material(
    backend_name: Seq<char>,
    kind: BuildBackendKind,
    python_path: Seq<char>,
    inputs: Seq<BuildInput>,
) -> Seq<u8> {
    encode_utf8(backend_name) + seq![124u8] + encode_utf8(kind_name(kind)) + seq![124u8] + encode_utf8(
        python_path,
    ) + inputs_material(inputs)
}

fn append_bytes(v: &mut Vec<u8>, b: &[u8])
    ensures
        final(v)@ == old(v)@ + b@,
{
    let ghost start = v@;
    let mut i: usize = 0;
    while i < b.len()
        invariant
            0 <= i <= b.len(),
            v@ == start + b@.subrange(0, i as int),
        decreases b.len() - i,
    {
        v.push(b[i]);
        i = i + 1;
        assert(v@ =~= start + b@.subrange(0, i as int));
    }
    assert(b@.subrange(0, b.len() as int) =~= b@);
}

/// The build cache key: the hexadecimal SHA-256 of the key material. The
/// inputs are the project's files outside ignored directories, in path
/// order.
pub fn compute_cache_key(backend: &BuildBackend, python_path: &str, inputs: &[BuildInput]) -> (r: String)
    ensures
        r@ == hex_text(sha256_of(cache_key_material(backend.name@, backend.kind, python_path@, inputs@))),
{
    let mut material: Vec<u8> = Vec::new();
    append_bytes(&mut material, backend.name.as_str().as_bytes());
    material.push(124u8);
    append_bytes(&mut material, backend.kind.as_str().as_bytes());
    material.push(124u8);
    append_bytes(&mut material, python_path.as_bytes());
    let ghost head = material@;
    let mut i: usize = 0;
    assert(inputs@.take(0) =~= Seq::<BuildInput>::empty());
    while i < inputs.len()
        invariant
            0 <= i <= inputs.len(),
            material@ == head + inputs_material(inputs@.take(i as int)),
        decreases inputs.len() - i,
    {
        material.push(124u8);
        append_bytes(&mut material, inputs[i].relative_path.as_str().as_bytes());
        append_bytes(&mut material, inputs[i].contents.as_slice());
        assert(inputs@.take(i + 1).drop_last() =~= inputs@.take(i as int));
        i = i + 1;
        assert(material@ =~= head + inputs_material(inputs@.take(i as int)));
    }
    assert(inputs@.take(i as int) =~= inputs@);
    assert(material@ =~= cache_key_material(backend.name@, backend.kind, python_path@, inputs@));
    let digest = sha256_digest(material.as_slice());
    hex_encode(digest.as_slice())
}

/// Where built distributions are cached.
pub struct BuildCache {
    root: String,
}

impl View for BuildCache {
    type V = Seq<char>;

    closed spec fn view(&self) -> Seq<char> {
        self.root@
    }
}

impl BuildCache {
    pub fn with_root(root: String) -> (c: BuildCache)
        ensures
            c@ == root@,
    {
        BuildCache { root }
    }

    pub fn root(&self) -> (r: &str)
        ensures
            r@ == self@,
    {
        self.root.as_str()
    }

    /// The cache directory for a key.
    pub fn cache_dir_for_key(&self, key: &str) -> (r: String)
        ensures
            r@ == join(self@, key@),
    {
        join_path(self.root.as_str(), key)
    }
}


// ---------------------------------------------------------------------------
// Build outcomes
// ---------------------------------------------------------------------------

/// `python -m build` failed because the `build` package is missing: its
/// stderr says there is no module named build (with or without quotes).
pub open spec fn build_package_missing(stderr: Seq<char>) -> bool {
    contains(stderr, "No module named 'build'"@) || contains(stderr, "No module named build"@)
}

/// Why a failed `python -m build` failed: the message, and the diagnostic
/// reported with it when the `build` package is missing.
pub fn build_failure(exit_code: i32, stdout: &str, stderr: &str) -> (r: (String, Option<crate::commands::diagnostics::Diagnostic>))
    ensures
        build_package_missing(stderr@) ==> r.0@ == "python -m build failed: No module named build"@ && (r.1 matches Some(
            d,
        ) && crate::commands::dispatch::is_coded_error(
            d,
            "E_BUILD_MISSING_BUILD_PKG"@,
            "python -m build failed: No module named build"@,
            "pybun add build --dev\n  or: pip install build"@,
        )),
        !build_package_missing(stderr@) ==> r.0@ == "python -m build failed with exit code "@
            + crate::commands::run::signed_dec(exit_code as int) + ".\nstdout:\n"@ + stdout@ + "\nstderr:\n"@
            + stderr@ && r.1 is None,
{
    let quoted = contains_chars(stderr, chars_of("No module named 'build'").as_slice());
    let plain = contains_chars(stderr, chars_of("No module named build").as_slice());
    if quoted || plain {
        let message = String::from_str("python -m build failed: No module named build");
        let d = crate::commands::dispatch::coded_error(
            "E_BUILD_MISSING_BUILD_PKG",
            message.clone(),
            "pybun add build --dev\n  or: pip install build",
        );
        (message, Some(d))
    } else {
        let n = crate::commands::run::signed_text(exit_code);
        let message = String::from_str("python -m build failed with exit code ").concat(n.as_str()).concat(
            ".\nstdout:\n",
        ).concat(stdout).concat("\nstderr:\n").concat(stderr);
        (message, None)
    }
}

/// The summary of a build that produced `count` artifacts in `dist_dir`,
/// reused from the cache or built afresh.
pub open spec fn build_summary_text(cache_hit: bool, count: nat, dist_dir: Seq<char>) -> Seq<char> {
    let plural = if count == 1 { ""@ } else { "s"@ };
    if cache_hit {
        "Reused "@ + crate::text::dec(count) + " cached artifact"@ + plural + " from "@ + dist_dir
    } else {
        "Built "@ + crate::text::dec(count) + " artifact"@ + plural + " to "@ + dist_dir
    }
}

/// Summarises a build.
pub fn build_summary(cache_hit: bool, count: usize, dist_dir: &str) -> (r: String)
    ensures
        r@ == build_summary_text(cache_hit, count as nat, dist_dir@),
{
    let n = crate::text::dec_chars(count as u128);
    let ns = crate::text::string_of(n.as_slice());
    let plural = if count == 1 { "" } else { "s" };
    if cache_hit {
        String::from_str("Reused ").concat(ns.as_str()).concat(" cached artifact").concat(plural).concat(" from ").concat(
            dist_dir,
        )
    } else {
        String::from_str("Built ").concat(ns.as_str()).concat(" artifact").concat(plural).concat(" to ").concat(dist_dir)
    }
}

} // verus!
