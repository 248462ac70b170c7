//! `pybun install` / `outdated`: hash policy and update classification.

use vstd::prelude::*;
use crate::commands::diagnostics::{Diagnostic, DiagnosticLevel};
use crate::json::{Json, as_str, get, get_array, get_str, lemma_keys_differ, lemma_lookup_at, lookup, member, member_count};
use crate::text::{dec, dec_chars, opt_view, string_of};
use crate::commands::dispatch::{coded_error, is_coded_error};
use crate::downloader::DownloadRequest;
use crate::pathname::{join, join_path};

verus! {

/// A lock entry's artifact lacks a usable SHA-256 digest when it has none,
/// or when the one it has is a placeholder. Whether a present digest is a
/// placeholder is decided by the security policy and handed in as
/// `placeholder`: `None` for no digest, `Some(p)` for a digest that is a
/// placeholder exactly when `p`.
pub fn is_missing_sha256(placeholder: Option<bool>) -> (r: bool)
    ensures
        r == match placeholder {
            Some(p) => p,
            None => true,
        },
{
    match placeholder {
        Some(p) => p,
        None => true,
    }
}

/// A version's numeric release parts: (major, minor, patch).
pub type Release = (u64, u64, u64);

/// How an available release relates to the installed one, compared part by
/// part: `major` when the major part grew; else `minor` when the minor part
/// grew; else `patch` when the patch part grew; else `other`. Versions that
/// could not be read give `unknown`.
pub open spec fn update_kind(current: Option<Release>, latest: Option<Release>) -> Seq<char> {
    match (current, latest) {
        (Some(c), Some(l)) => if l.0 > c.0 {
            "major"@
        } else if l.1 > c.1 {
            "minor"@
        } else if l.2 > c.2 {
            "patch"@
        } else {
            "other"@
        },
        _ => "unknown"@,
    }
}

/// Classify an available update, from the two versions as parsed.
pub fn classify_update(current: Option<Release>, latest: Option<Release>) -> (r: &'static str)
    ensures
        r@ == update_kind(current, latest),
{
    match (current, latest) {
        (Some(c), Some(l)) => {
            if l.0 > c.0 {
                "major"
            } else if l.1 > c.1 {
                "minor"
            } else if l.2 > c.2 {
                "patch"
            } else {
                "other"
            }
        },
        _ => "unknown",
    }
}

// ---------------------------------------------------------------------------
// Resolution warnings
// ---------------------------------------------------------------------------

/// A requirement as far as extras are concerned: its name and the extras it
/// asks for.
pub struct RequestedExtras {
    pub name: String,
    pub extras: Vec<String>,
}

/// The texts of the extras, joined with `, `.
pub open spec fn comma_joined(parts: Seq<Seq<char>>) -> Seq<char>
    decreases parts.len(),
{
    if parts.len() == 0 {
        Seq::empty()
    } else if parts.len() == 1 {
        parts[0]
    } else {
        comma_joined(parts.drop_last()) + ", "@ + parts.last()
    }
}

/// The views of a vector of strings.
pub open spec fn string_views(v: Seq<String>) -> Seq<Seq<char>> {
    v.map_values(|s: String| s@)
}

/// `d` is the warning that the extras of `r` were dropped.
pub open spec fn is_extras_warning(d: Diagnostic, r: RequestedExtras) -> bool {
    &&& d.level == DiagnosticLevel::Warning
    &&& opt_view(d.code) == Some("W_EXTRAS_IGNORED"@)
    &&& d.message@ == "extras ignored for '"@ + r.name@
        + "': pybun does not yet resolve PEP 508 extras, so only the base package will be installed (dropped: ["@
        + comma_joined(string_views(r.extras@)) + "])"@
    &&& opt_view(d.suggestion) == Some(
        "Full extras support is tracked in Issue #285 / PR-A5. Install '"@ + r.name@
            + "' extra dependencies manually if you need them."@,
    )
    &&& d.file is None
    &&& d.line is None
    &&& match d.context {
        Some(c) => member_count(c) == Some(2nat) && get_str(c, "package"@) == Some(r.name@) && match get_array(c, "extras"@) {
            Some(items) => items.len() == r.extras@.len() && forall|i: int|
                0 <= i < items.len() ==> as_str(#[trigger] items[i]) == Some(r.extras@[i]@),
            None => false,
        },
        None => false,
    }
}

/// The requirements that ask for extras, in order.
pub open spec fn with_extras(reqs: Seq<RequestedExtras>) -> Seq<RequestedExtras> {
    reqs.filter(|r: RequestedExtras| r.extras@.len() > 0)
}

fn join_comma(parts: &[String]) -> (r: String)
    ensures
        r@ == comma_joined(string_views(parts@)),
{
    let mut out = String::new();
    let mut i: usize = 0;
    assert(string_views(parts@.take(0)) =~= Seq::<Seq<char>>::empty());
    while i < parts.len()
        invariant
            0 <= i <= parts.len(),
            out@ == comma_joined(string_views(parts@.take(i as int))),
        decreases parts.len() - i,
    {
        assert(string_views(parts@.take(i + 1)).drop_last() =~= string_views(parts@.take(i as int)));
        if i > 0 {
            out = out.concat(", ");
        }
        out = out.concat(parts[i].as_str());
        i = i + 1;
        proof {
            reveal_strlit(", ");
        }
        assert(out@ =~= comma_joined(string_views(parts@.take(i as int))));
    }
    assert(parts@.take(i as int) =~= parts@);
    out
}


fn extras_warning(r: &RequestedExtras) -> (d: Diagnostic)
    ensures
        is_extras_warning(d, *r),
{
    let listed = join_comma(r.extras.as_slice());
    let message = String::from_str("extras ignored for '").concat(r.name.as_str()).concat(
        "': pybun does not yet resolve PEP 508 extras, so only the base package will be installed (dropped: [",
    ).concat(listed.as_str()).concat("])");
    let suggestion = String::from_str(
        "Full extras support is tracked in Issue #285 / PR-A5. Install '",
    ).concat(r.name.as_str()).concat("' extra dependencies manually if you need them.");
    let mut items: Vec<Json> = Vec::new();
    let mut i: usize = 0;
    while i < r.extras.len()
        invariant
            0 <= i <= r.extras.len(),
            items@.len() == i,
            forall|k: int| 0 <= k < i ==> as_str(#[trigger] items@[k]) == Some(r.extras@[k]@),
        decreases r.extras.len() - i,
    {
        items.push(Json::Str(r.extras[i].clone()));
        i = i + 1;
    }
    let mut ctx: Vec<(String, Json)> = Vec::new();
    ctx.push(member("package", Json::Str(r.name.clone())));
    ctx.push(member("extras", Json::Array(items)));
    proof {
        reveal_strlit("package");
        reveal_strlit("extras");
        assert("package"@[0] != "extras"@[0]);
        assert(lookup(ctx@.drop_first(), "extras"@) == Some(ctx@[1].1));
    }
    Diagnostic::warning(message).with_code("W_EXTRAS_IGNORED").with_suggestion(suggestion).with_context(
        Json::Object(ctx),
    )
}

/// A `W_EXTRAS_IGNORED` warning for every requirement that carries PEP 508
/// extras: pybun installs only the base package of such a requirement.
pub fn warn_on_ignored_extras(reqs: &[RequestedExtras]) -> (r: Vec<Diagnostic>)
    ensures
        r@.len() == with_extras(reqs@).len(),
        forall|i: int| 0 <= i < r@.len() ==> is_extras_warning(#[trigger] r@[i], with_extras(reqs@)[i]),
{
    let mut out: Vec<Diagnostic> = Vec::new();
    let mut i: usize = 0;
    proof {
        reveal(Seq::filter);
        assert(reqs@.take(0) =~= Seq::<RequestedExtras>::empty());
    }
    while i < reqs.len()
        invariant
            0 <= i <= reqs.len(),
            out@.len() == with_extras(reqs@.take(i as int)).len(),
            forall|k: int| 0 <= k < out@.len() ==> is_extras_warning(#[trigger] out@[k], with_extras(reqs@.take(i as int))[k]),
        decreases reqs.len() - i,
    {
        proof {
            reveal(Seq::filter);
        }
        assert(reqs@.take(i + 1).drop_last() =~= reqs@.take(i as int));
        if reqs[i].extras.len() > 0 {
            out.push(extras_warning(&reqs[i]));
        }
        i = i + 1;
    }
    assert(reqs@.take(i as int) =~= reqs@);
    out
}

/// A package that resolved to a pre-release because only pre-releases
/// satisfied its constraints.
pub struct PrereleasePick {
    pub name: String,
    pub version: String,
}

/// `d` is the warning that `p` resolved to a pre-release.
pub open spec fn is_prerelease_warning(d: Diagnostic, p: PrereleasePick) -> bool {
    &&& d.level == DiagnosticLevel::Warning
    &&& opt_view(d.code) == Some("W_PRERELEASE_SELECTED"@)
    &&& d.message@ == "selected pre-release version "@ + p.name@ + " "@ + p.version@
        + " because only pre-release versions satisfy the constraints"@
    &&& opt_view(d.suggestion) == Some(
        "Pass --pre to opt in to pre-release versions explicitly, or pin a stable version."@,
    )
    &&& d.file is None
    &&& d.line is None
    &&& d.context matches Some(c) && member_count(c) == Some(2nat) && get_str(c, "package"@) == Some(
        p.name@,
    ) && get_str(c, "version"@) == Some(p.version@)
}

/// A `W_PRERELEASE_SELECTED` warning for every package that resolved to a
/// pre-release through the fallback path.
pub fn warn_on_prerelease_fallback(picks: &[PrereleasePick]) -> (r: Vec<Diagnostic>)
    ensures
        r@.len() == picks@.len(),
        forall|i: int| 0 <= i < r@.len() ==> is_prerelease_warning(#[trigger] r@[i], picks@[i]),
{
    let mut out: Vec<Diagnostic> = Vec::new();
    let mut i: usize = 0;
    while i < picks.len()
        invariant
            0 <= i <= picks.len(),
            out@.len() == i,
            forall|k: int| 0 <= k < i ==> is_prerelease_warning(#[trigger] out@[k], picks@[k]),
        decreases picks.len() - i,
    {
        let p = &picks[i];
        let message = String::from_str("selected pre-release version ").concat(p.name.as_str()).concat(
            " ",
        ).concat(p.version.as_str()).concat(" because only pre-release versions satisfy the constraints");
        let mut ctx: Vec<(String, Json)> = Vec::new();
        ctx.push(member("package", Json::Str(p.name.clone())));
        ctx.push(member("version", Json::Str(p.version.clone())));
        proof {
            reveal_strlit("package");
            reveal_strlit("version");
            assert("package"@[0] != "version"@[0]);
            assert(lookup(ctx@.drop_first(), "version"@) == Some(ctx@[1].1));
        }
        let d = Diagnostic::warning(message).with_code("W_PRERELEASE_SELECTED").with_suggestion(
            String::from_str("Pass --pre to opt in to pre-release versions explicitly, or pin a stable version."),
        ).with_context(Json::Object(ctx));
        out.push(d);
        i = i + 1;
    }
    out
}

/// The artifact chosen for a package, as far as hash verification reports it.
pub struct ArtifactChoice {
    pub package: String,
    pub version: String,
    pub filename: String,
    pub url: String,
    pub platform_tag: Option<String>,
    pub from_source: bool,
}



/// `d` is the error that the artifact `a`, from the index at `index_url`,
/// has no SHA-256 digest to verify it with.
pub open spec fn is_missing_hash_error(d: Diagnostic, a: ArtifactChoice, index_url: Seq<char>) -> bool {
    &&& d.level == DiagnosticLevel::Error
    &&& opt_view(d.code) == Some("E_VERIFY_MISSING_HASH"@)
    &&& d.message@ == "selected artifact for "@ + a.package@ + " "@ + a.version@ + " ("@ + a.filename@
        + ") is missing sha256 verification metadata"@
    &&& opt_view(d.suggestion) == Some(
        "use an index that provides sha256 digests, then rerun install/lock/upgrade"@,
    )
    &&& d.file is None
    &&& d.line is None
    &&& match d.context {
        Some(c) => {
            &&& member_count(c) == Some(7nat)
            &&& get_str(c, "package"@) == Some(a.package@)
            &&& get_str(c, "version"@) == Some(a.version@)
            &&& get_str(c, "filename"@) == Some(a.filename@)
            &&& get_str(c, "artifact_url"@) == Some(a.url@)
            &&& get_str(c, "index_url"@) == Some(index_url)
            &&& match get(c, "platform_tag"@) {
                Some(v) => match a.platform_tag {
                    Some(t) => as_str(v) == Some(t@),
                    None => v is Null,
                },
                None => false,
            }
            &&& get(c, "from_source"@) == Some(Json::Bool(a.from_source))
        },
        None => false,
    }
}

/// The error reported for an artifact without SHA-256 verification metadata.
pub fn missing_hash_diagnostic(a: &ArtifactChoice, index_url: &str) -> (d: Diagnostic)
    ensures
        is_missing_hash_error(d, *a, index_url@),
{
    let message = String::from_str("selected artifact for ").concat(a.package.as_str()).concat(" ").concat(
        a.version.as_str(),
    ).concat(" (").concat(a.filename.as_str()).concat(") is missing sha256 verification metadata");
    let platform = match &a.platform_tag {
        Some(t) => Json::Str(t.clone()),
        None => Json::Null,
    };
    let mut ctx: Vec<(String, Json)> = Vec::new();
    ctx.push(member("package", Json::Str(a.package.clone())));
    ctx.push(member("version", Json::Str(a.version.clone())));
    ctx.push(member("filename", Json::Str(a.filename.clone())));
    ctx.push(member("artifact_url", Json::Str(a.url.clone())));
    ctx.push(member("index_url", Json::Str(String::from_str(index_url))));
    ctx.push(member("platform_tag", platform));
    ctx.push(member("from_source", Json::Bool(a.from_source)));
    proof {
        reveal_strlit("package");
        reveal_strlit("version");
        reveal_strlit("filename");
        reveal_strlit("artifact_url");
        reveal_strlit("index_url");
        reveal_strlit("platform_tag");
        reveal_strlit("from_source");
        let m = ctx@;
        let keys = seq![
            "package"@,
            "version"@,
            "filename"@,
            "artifact_url"@,
            "index_url"@,
            "platform_tag"@,
            "from_source"@,
        ];
        assert forall|i: int, j: int| 0 <= i < j < 7 implies #[trigger] keys[i] != #[trigger] keys[j] by {
            lemma_keys_differ(keys[i], keys[j]);
        }
        assert forall|i: int| 0 <= i < 7 implies #[trigger] m[i].0@ == keys[i] by {}
        lemma_lookup_at(m, "version"@, 1);
        lemma_lookup_at(m, "filename"@, 2);
        lemma_lookup_at(m, "artifact_url"@, 3);
        lemma_lookup_at(m, "index_url"@, 4);
        lemma_lookup_at(m, "platform_tag"@, 5);
        lemma_lookup_at(m, "from_source"@, 6);
    }
    Diagnostic {
        level: DiagnosticLevel::Error,
        code: Some(String::from_str("E_VERIFY_MISSING_HASH")),
        message,
        file: None,
        line: None,
        suggestion: Some(String::from_str("use an index that provides sha256 digests, then rerun install/lock/upgrade")),
        context: Some(Json::Object(ctx)),
    }
}


// ---------------------------------------------------------------------------
// Downloads
// ---------------------------------------------------------------------------

/// The artifact chosen for a resolved package, as the download step sees it.
pub struct SelectedArtifact {
    pub name: String,
    pub version: String,
    pub filename: String,
    /// Where the artifact can be fetched from; none for a package that has
    /// only a source distribution.
    pub url: Option<String>,
    pub hash: Option<String>,
    pub from_source: bool,
}

/// A download as its URL, destination and expected checksum.
pub open spec fn request_view(r: DownloadRequest) -> (Seq<char>, Seq<char>, Option<Seq<char>>) {
    (r.url@, r.destination@, opt_view(r.checksum))
}

/// The downloads of `arts`, in order: each artifact with a URL goes to
/// `cache_dir` under its file name, checked against its hash when it has one.
pub open spec fn download_plan(cache_dir: Seq<char>, arts: Seq<SelectedArtifact>) -> Seq<
    (Seq<char>, Seq<char>, Option<Seq<char>>),
>
    decreases arts.len(),
{
    if arts.len() == 0 {
        Seq::empty()
    } else {
        let before = download_plan(cache_dir, arts.drop_last());
        let a = arts.last();
        match a.url {
            Some(u) => before.push((u@, join(cache_dir, a.filename@), opt_view(a.hash))),
            None => before,
        }
    }
}

/// The packages of `arts` that have only a source distribution, as
/// `name==version`, in order.
pub open spec fn sdist_only(arts: Seq<SelectedArtifact>) -> Seq<Seq<char>>
    decreases arts.len(),
{
    if arts.len() == 0 {
        Seq::empty()
    } else {
        let before = sdist_only(arts.drop_last());
        let a = arts.last();
        if a.url is None && a.from_source {
            before.push(a.name@ + "=="@ + a.version@)
        } else {
            before
        }
    }
}

/// The message of the error for packages that need a source build.
pub open spec fn sdist_only_message(names: Seq<Seq<char>>) -> Seq<char> {
    "The following packages have no pre-built wheel for your platform and require source builds (not yet supported): "@
        + comma_joined(names)
}

/// Plans the downloads of an install into `cache_dir`. It fails, with the
/// `E_INSTALL_SDIST_ONLY` error, when some package has only a source
/// distribution, since source builds are not supported.
pub fn plan_downloads(cache_dir: &str, artifacts: &[SelectedArtifact]) -> (r: Result<Vec<DownloadRequest>, Diagnostic>)
    ensures
        r is Err <==> sdist_only(artifacts@).len() > 0,
        r matches Err(d) ==> is_coded_error(
            d,
            "E_INSTALL_SDIST_ONLY"@,
            sdist_only_message(sdist_only(artifacts@)),
            "Source builds are not yet supported; choose packages/versions with prebuilt wheels for your platform, or use a different index."@,
        ),
        r matches Ok(v) ==> v@.map_values(|q: DownloadRequest| request_view(q)) == download_plan(
            cache_dir@,
            artifacts@,
        ) && forall|i: int| 0 <= i < v@.len() ==> (#[trigger] v@[i]).signature is None,
{
    let mut requests: Vec<DownloadRequest> = Vec::new();
    let mut sdist: Vec<String> = Vec::new();
    let mut i: usize = 0;
    assert(artifacts@.take(0) =~= Seq::<SelectedArtifact>::empty());
    while i < artifacts.len()
        invariant
            0 <= i <= artifacts.len(),
            requests@.map_values(|q: DownloadRequest| request_view(q)) == download_plan(
                cache_dir@,
                artifacts@.take(i as int),
            ),
            forall|j: int| 0 <= j < requests@.len() ==> (#[trigger] requests@[j]).signature is None,
            string_views(sdist@) == sdist_only(artifacts@.take(i as int)),
        decreases artifacts.len() - i,
    {
        let a = &artifacts[i];
        assert(artifacts@.take(i + 1).drop_last() =~= artifacts@.take(i as int));
        assert(artifacts@.take(i + 1).last() == artifacts@[i as int]);
        match &a.url {
            Some(u) => {
                let ghost before = requests@.map_values(|q: DownloadRequest| request_view(q));
                let destination = join_path(cache_dir, a.filename.as_str());
                let checksum = match &a.hash {
                    Some(h) => Some(h.clone()),
                    None => None,
                };
                requests.push(DownloadRequest { url: u.clone(), destination, checksum, signature: None });
                assert(requests@.map_values(|q: DownloadRequest| request_view(q)) =~= before.push(
                    (u@, join(cache_dir@, a.filename@), opt_view(a.hash)),
                ));
            },
            None => {
                if a.from_source {
                    let ghost before = string_views(sdist@);
                    let pin = a.name.clone().concat("==").concat(a.version.as_str());
                    sdist.push(pin);
                    assert(string_views(sdist@) =~= before.push(a.name@ + "=="@ + a.version@));
                }
            },
        }
        i = i + 1;
    }
    assert(artifacts@.take(i as int) =~= artifacts@);
    if sdist.len() > 0 {
        let names = join_comma(sdist.as_slice());
        let message = String::from_str(
            "The following packages have no pre-built wheel for your platform and require source builds (not yet supported): ",
        ).concat(names.as_str());
        return Err(coded_error(
            "E_INSTALL_SDIST_ONLY",
            message,
            "Source builds are not yet supported; choose packages/versions with prebuilt wheels for your platform, or use a different index.",
        ));
    }
    Ok(requests)
}


// ---------------------------------------------------------------------------
// The install flow
// ---------------------------------------------------------------------------

/// Where an install stands.
#[derive(Debug, Clone, Copy, PartialEq, Eq, Structural)]
pub enum InstallStage {
    /// Gathering the requirements.
    Gathering,
    /// Resolving them and writing the lockfile.
    Resolving,
    /// Choosing the artifacts to download.
    Planning,
    /// Downloading them.
    Downloading,
    /// Finding the environment to install into.
    FindingTarget,
    /// Installing the wheels.
    Installing,
    /// Finished, successfully or not.
    Done,
}

/// The state of an install between two steps.
#[derive(Debug, Clone, Copy, PartialEq, Eq, Structural)]
pub struct InstallState {
    pub stage: InstallStage,
    /// How many packages the resolution locked.
    pub packages: usize,
}

/// What the outside work of an install reported.
pub enum InstallEvent {
    /// The requirements were gathered.
    Gathered { requirements: usize },
    /// The requirements resolved to this many packages and the lockfile was
    /// written.
    Resolved { packages: usize },
    /// The downloads were planned.
    Planned { downloads: usize },
    /// The downloads finished, this many of them failing.
    Downloaded { failures: usize },
    /// The environment found for the install: whether it is the system
    /// Python, and the externally-managed marker it carries, if any.
    TargetFound { system: bool, externally_managed: Option<String> },
    /// This many wheels were installed.
    Installed { count: usize },
}

/// What the caller does next.
pub enum InstallAction {
    /// Write a lockfile with no packages, then report `summary`.
    WriteEmptyLock { summary: String },
    Resolve,
    PlanDownloads,
    Download,
    FindTarget,
    /// Create a project-local virtual environment (reporting `info`) and
    /// install into it.
    CreateVenvAndInstall { info: String },
    /// Install into the environment found, reporting `warning` first if any.
    InstallInto { warning: Option<String> },
    /// The install succeeded.
    Finish { summary: String, installed: usize },
    /// The install failed: report the warning and diagnostic, if any, and
    /// fail with `message`.
    Fail { message: String, warning: Option<String>, diagnostic: Option<Diagnostic> },
    /// The event does not belong to this stage; nothing changes.
    Ignore,
}

/// The summary of an install that locked `packages` packages into `lock`.
pub open spec fn resolved_summary(packages: nat, lock: Seq<char>) -> Seq<char> {
    "resolved "@ + dec(packages) + " packages -> "@ + lock
}

/// The warning printed before installing into the system Python.
pub open spec fn system_install_warning() -> Seq<char> {
    "warning: PyBun is installing into system Python (--system was specified)."@
}

/// The message of the refusal to install into an externally-managed Python.
pub open spec fn externally_managed_message(marker: Seq<char>) -> Seq<char> {
    "refusing to install into externally-managed system Python (marker: "@ + marker + ")"@
}

/// The stage that follows `st` on `e` (`st` itself for an event that does
/// not belong to it).
pub open spec fn install_next_stage(st: InstallStage, e: InstallEvent, system_flag: bool) -> InstallStage {
    match (st, e) {
        (InstallStage::Gathering, InstallEvent::Gathered { requirements }) => if requirements == 0 {
            InstallStage::Done
        } else {
            InstallStage::Resolving
        },
        (InstallStage::Resolving, InstallEvent::Resolved { .. }) => InstallStage::Planning,
        (InstallStage::Planning, InstallEvent::Planned { downloads }) => if downloads == 0 {
            InstallStage::Done
        } else {
            InstallStage::Downloading
        },
        (InstallStage::Downloading, InstallEvent::Downloaded { failures }) => if failures > 0 {
            InstallStage::Done
        } else {
            InstallStage::FindingTarget
        },
        (InstallStage::FindingTarget, InstallEvent::TargetFound { system, externally_managed }) => if system
            && system_flag && externally_managed is Some {
            InstallStage::Done
        } else {
            InstallStage::Installing
        },
        (InstallStage::Installing, InstallEvent::Installed { .. }) => InstallStage::Done,
        _ => st,
    }
}

/// `a` is what an install at `st` does on `e`, with `--system` given or not
/// and the lockfile at `lock`:
/// - no requirements: write an empty lockfile, `no dependencies to install`;
/// - requirements: resolve them; resolved: plan the downloads;
/// - nothing to download: finish with the resolved summary and nothing
///   installed; otherwise download;
/// - a failed download: fail, with a warning counting the failures;
/// - downloads done: find the target environment;
/// - a system Python without `--system`: create a project-local venv; with
///   `--system`: refuse an externally-managed one (`E_INSTALL_EXTERNALLY_MANAGED`),
///   else install into it with a warning; any other environment: install;
/// - wheels installed: finish with the resolved summary and their count.
pub open spec fn is_install_action(
    a: InstallAction,
    st: InstallState,
    e: InstallEvent,
    system_flag: bool,
    lock: Seq<char>,
) -> bool {
    match (st.stage, e) {
        (InstallStage::Gathering, InstallEvent::Gathered { requirements }) => if requirements == 0 {
            a matches InstallAction::WriteEmptyLock { summary } && summary@ == "no dependencies to install -> "@ + lock
        } else {
            a is Resolve
        },
        (InstallStage::Resolving, InstallEvent::Resolved { .. }) => a is PlanDownloads,
        (InstallStage::Planning, InstallEvent::Planned { downloads }) => if downloads == 0 {
            a matches InstallAction::Finish { summary, installed } && summary@ == resolved_summary(
                st.packages as nat,
                lock,
            ) && installed == 0
        } else {
            a is Download
        },
        (InstallStage::Downloading, InstallEvent::Downloaded { failures }) => if failures > 0 {
            a matches InstallAction::Fail { message, warning, diagnostic } && message@
                == "failed to download some artifacts"@ && opt_view(warning) == Some(
                dec(failures as nat) + " downloads failed"@,
            ) && diagnostic is None
        } else {
            a is FindTarget
        },
        (InstallStage::FindingTarget, InstallEvent::TargetFound { system, externally_managed }) => if !system {
            a matches InstallAction::InstallInto { warning } && warning is None
        } else if !system_flag {
            a matches InstallAction::CreateVenvAndInstall { info } && info@
                == "No virtual environment found; creating project-local environment at .pybun/venv"@
        } else {
            match externally_managed {
                Some(marker) => a matches InstallAction::Fail { message, warning, diagnostic } && message@
                    == externally_managed_message(marker@) && warning is None && (diagnostic matches Some(d)
                    && is_coded_error(
                    d,
                    "E_INSTALL_EXTERNALLY_MANAGED"@,
                    externally_managed_message(marker@),
                    "This interpreter is marked externally-managed (PEP 668). Create a virtual environment (e.g. `python3 -m venv .venv`) and re-run, or install with a non-managed interpreter."@,
                )),
                None => a matches InstallAction::InstallInto { warning } && opt_view(warning) == Some(
                    system_install_warning(),
                ),
            }
        },
        (InstallStage::Installing, InstallEvent::Installed { count }) => a matches InstallAction::Finish {
            summary,
            installed,
        } && summary@ == resolved_summary(st.packages as nat, lock) && installed == count,
        _ => a is Ignore,
    }
}

/// A finished install stays finished: every later event is ignored.
pub proof fn lemma_install_done_is_final(st: InstallState, e: InstallEvent, system_flag: bool, lock: Seq<char>, a: InstallAction)
    requires
        st.stage == InstallStage::Done,
        is_install_action(a, st, e, system_flag, lock),
    ensures
        install_next_stage(st.stage, e, system_flag) == InstallStage::Done,
        a is Ignore,
{
}

/// An install only ever installs after every download succeeded.
pub proof fn lemma_install_needs_downloads(st: InstallState, e: InstallEvent, system_flag: bool)
    requires
        install_next_stage(st.stage, e, system_flag) == InstallStage::FindingTarget,
        st.stage != InstallStage::FindingTarget,
    ensures
        st.stage == InstallStage::Downloading,
        e matches InstallEvent::Downloaded { failures } && failures == 0,
{
}

/// An environment that is not the system Python is installed into as it
/// was found, with no warning, whether or not `--system` was given; a
/// project-local virtual environment is created only for the system Python
/// without `--system`.
pub proof fn lemma_install_target_choice(
    st: InstallState,
    e: InstallEvent,
    system_flag: bool,
    lock: Seq<char>,
    a: InstallAction,
)
    requires
        is_install_action(a, st, e, system_flag, lock),
    ensures
        st.stage == InstallStage::FindingTarget && (e matches InstallEvent::TargetFound { system, .. } && !system)
            ==> (a matches InstallAction::InstallInto { warning } && warning is None),
        a is CreateVenvAndInstall ==> st.stage == InstallStage::FindingTarget && !system_flag && (
        e matches InstallEvent::TargetFound { system, .. } && system),
{
}

fn resolved_summary_text(packages: usize, lock: &str) -> (r: String)
    ensures
        r@ == resolved_summary(packages as nat, lock@),
{
    let n = dec_chars(packages as u128);
    String::from_str("resolved ").concat(string_of(n.as_slice()).as_str()).concat(" packages -> ").concat(lock)
}

/// One step of `pybun install`: from where the install stands and what the
/// outside work reported, the next state and what to do.
pub fn install_step(st: InstallState, e: InstallEvent, system_flag: bool, lock: &str) -> (r: (
    InstallState,
    InstallAction,
))
    ensures
        r.0.stage == install_next_stage(st.stage, e, system_flag),
        r.0.packages == match (st.stage, e) {
            (InstallStage::Resolving, InstallEvent::Resolved { packages }) => packages,
            _ => st.packages,
        },
        is_install_action(r.1, st, e, system_flag, lock@),
{
    match (st.stage, e) {
        (InstallStage::Gathering, InstallEvent::Gathered { requirements }) => {
            if requirements == 0 {
                let summary = String::from_str("no dependencies to install -> ").concat(lock);
                (InstallState { stage: InstallStage::Done, packages: st.packages }, InstallAction::WriteEmptyLock {
                    summary,
                })
            } else {
                (InstallState { stage: InstallStage::Resolving, packages: st.packages }, InstallAction::Resolve)
            }
        },
        (InstallStage::Resolving, InstallEvent::Resolved { packages }) => {
            (InstallState { stage: InstallStage::Planning, packages }, InstallAction::PlanDownloads)
        },
        (InstallStage::Planning, InstallEvent::Planned { downloads }) => {
            if downloads == 0 {
                let summary = resolved_summary_text(st.packages, lock);
                (InstallState { stage: InstallStage::Done, packages: st.packages }, InstallAction::Finish {
                    summary,
                    installed: 0,
                })
            } else {
                (InstallState { stage: InstallStage::Downloading, packages: st.packages }, InstallAction::Download)
            }
        },
        (InstallStage::Downloading, InstallEvent::Downloaded { failures }) => {
            if failures > 0 {
                let n = dec_chars(failures as u128);
                let warning = string_of(n.as_slice()).concat(" downloads failed");
                (InstallState { stage: InstallStage::Done, packages: st.packages }, InstallAction::Fail {
                    message: String::from_str("failed to download some artifacts"),
                    warning: Some(warning),
                    diagnostic: None,
                })
            } else {
                (InstallState { stage: InstallStage::FindingTarget, packages: st.packages }, InstallAction::FindTarget)
            }
        },
        (InstallStage::FindingTarget, InstallEvent::TargetFound { system, externally_managed }) => {
            if !system {
                (InstallState { stage: InstallStage::Installing, packages: st.packages }, InstallAction::InstallInto {
                    warning: None,
                })
            } else if !system_flag {
                (
                    InstallState { stage: InstallStage::Installing, packages: st.packages },
                    InstallAction::CreateVenvAndInstall {
                        info: String::from_str(
                            "No virtual environment found; creating project-local environment at .pybun/venv",
                        ),
                    },
                )
            } else {
                match externally_managed {
                    Some(marker) => {
                        let message = String::from_str(
                            "refusing to install into externally-managed system Python (marker: ",
                        ).concat(marker.as_str()).concat(")");
                        let d = coded_error(
                            "E_INSTALL_EXTERNALLY_MANAGED",
                            message.clone(),
                            "This interpreter is marked externally-managed (PEP 668). Create a virtual environment (e.g. `python3 -m venv .venv`) and re-run, or install with a non-managed interpreter.",
                        );
                        (InstallState { stage: InstallStage::Done, packages: st.packages }, InstallAction::Fail {
                            message,
                            warning: None,
                            diagnostic: Some(d),
                        })
                    },
                    None => {
                        let warning = String::from_str(
                            "warning: PyBun is installing into system Python (--system was specified).",
                        );
                        (
                            InstallState { stage: InstallStage::Installing, packages: st.packages },
                            InstallAction::InstallInto { warning: Some(warning) },
                        )
                    },
                }
            }
        },
        (InstallStage::Installing, InstallEvent::Installed { count }) => {
            let summary = resolved_summary_text(st.packages, lock);
            (InstallState { stage: InstallStage::Done, packages: st.packages }, InstallAction::Finish {
                summary,
                installed: count,
            })
        },
        _ => (st, InstallAction::Ignore),
    }
}


// ---------------------------------------------------------------------------
// Upgrades
// ---------------------------------------------------------------------------

/// `a` and `b` are equal ignoring ASCII case (`str::eq_ignore_ascii_case`).
pub open spec fn eq_ignore_ascii_case(a: Seq<char>, b: Seq<char>) -> bool {
    a.len() == b.len() && forall|i: int|
        0 <= i < a.len() ==> crate::text::ascii_lower(#[trigger] a[i]) == crate::text::ascii_lower(b[i])
}

fn lower(c: char) -> (r: char)
    ensures
        r == crate::text::ascii_lower(c),
{
    if 'A' <= c && c <= 'Z' {
        let r = ((c as u32) + 32) as u8 as char;
        assert(r == ((c as u32) + 32) as char);
        r
    } else {
        c
    }
}

/// `str::eq_ignore_ascii_case`.
pub fn same_ignoring_case(a: &str, b: &str) -> (r: bool)
    ensures
        r == eq_ignore_ascii_case(a@, b@),
{
    let x = crate::text::chars_of(a);
    let y = crate::text::chars_of(b);
    if x.len() != y.len() {
        return false;
    }
    let mut i: usize = 0;
    while i < x.len()
        invariant
            0 <= i <= x.len(),
            x.len() == y.len(),
            x@ == a@,
            y@ == b@,
            forall|k: int| 0 <= k < i ==> crate::text::ascii_lower(#[trigger] x@[k]) == crate::text::ascii_lower(y@[k]),
        decreases x.len() - i,
    {
        if lower(x[i]) != lower(y[i]) {
            return false;
        }
        i = i + 1;
    }
    true
}

/// A project dependency: the package's name and the requirement as written.
pub struct Dependency {
    pub name: String,
    pub requirement: String,
}

/// What an upgrade asks the resolver for, for one dependency.
pub enum UpgradeRequirement {
    /// The requirement as the project declares it.
    Declared(String),
    /// The package held at the version the lockfile has.
    Pinned { name: String, version: String },
}

/// The dependency is one the upgrade targets: all of them when no package
/// was named, else those named (ignoring ASCII case).
pub open spec fn is_upgrade_target(name: Seq<char>, targets: Seq<Seq<char>>) -> bool {
    targets.len() == 0 || exists|i: int| 0 <= i < targets.len() && eq_ignore_ascii_case(#[trigger] targets[i], name)
}

/// The version the lockfile pins a package at (the first entry of that name).
pub open spec fn locked_version(pins: Seq<(Seq<char>, Seq<char>)>, name: Seq<char>) -> Option<Seq<char>>
    decreases pins.len(),
{
    if pins.len() == 0 {
        None
    } else if pins[0].0 == name {
        Some(pins[0].1)
    } else {
        locked_version(pins.drop_first(), name)
    }
}

/// `r` is what the upgrade asks for `d`: targeted dependencies as declared;
/// the others pinned to their locked version when the lockfile has one, else
/// as declared.
pub open spec fn is_upgrade_requirement(
    r: UpgradeRequirement,
    d: Dependency,
    targets: Seq<Seq<char>>,
    locked: Option<Seq<(Seq<char>, Seq<char>)>>,
) -> bool {
    let pin = match locked {
        Some(l) => if is_upgrade_target(d.name@, targets) {
            None
        } else {
            locked_version(l, d.name@)
        },
        None => None,
    };
    match pin {
        Some(v) => r matches UpgradeRequirement::Pinned { name, version } && name@ == d.name@ && version@ == v,
        None => r matches UpgradeRequirement::Declared(q) && q@ == d.requirement@,
    }
}

fn is_target(name: &str, targets: &[String]) -> (r: bool)
    ensures
        r == is_upgrade_target(name@, string_views(targets@)),
{
    if targets.len() == 0 {
        return true;
    }
    let mut i: usize = 0;
    while i < targets.len()
        invariant
            0 <= i <= targets.len(),
            forall|k: int| 0 <= k < i ==> !eq_ignore_ascii_case(#[trigger] string_views(targets@)[k], name@),
        decreases targets.len() - i,
    {
        if same_ignoring_case(targets[i].as_str(), name) {
            assert(eq_ignore_ascii_case(string_views(targets@)[i as int], name@));
            return true;
        }
        i = i + 1;
    }
    false
}

fn find_locked(pins: &[(String, String)], name: &str) -> (r: Option<String>)
    ensures
        opt_view(r) == locked_version(pair_views(pins@), name@),
{
    let n = crate::text::chars_of(name);
    let mut i: usize = 0;
    assert(pair_views(pins@).skip(0) =~= pair_views(pins@));
    while i < pins.len()
        invariant
            0 <= i <= pins.len(),
            n@ == name@,
            locked_version(pair_views(pins@), name@) == locked_version(pair_views(pins@).skip(i as int), name@),
        decreases pins.len() - i,
    {
        let ghost rest = pair_views(pins@).skip(i as int);
        assert(rest[0] == (pins@[i as int].0@, pins@[i as int].1@));
        assert(rest.drop_first() =~= pair_views(pins@).skip(i + 1));
        let k = crate::text::chars_of(pins[i].0.as_str());
        if crate::text::chars_eq(k.as_slice(), n.as_slice()) {
            return Some(pins[i].1.clone());
        }
        i = i + 1;
    }
    assert(pair_views(pins@).skip(i as int).len() == 0);
    None
}

/// The views of a vector of string pairs.
pub open spec fn pair_views(v: Seq<(String, String)>) -> Seq<(Seq<char>, Seq<char>)> {
    v.map_values(|p: (String, String)| (p.0@, p.1@))
}

/// The requirements `pybun upgrade` resolves: every dependency, the ones
/// not targeted held at their locked versions.
pub fn upgrade_requirements(deps: &[Dependency], targets: &[String], locked: Option<&[(String, String)]>) -> (r: Vec<
    UpgradeRequirement,
>)
    ensures
        r@.len() == deps@.len(),
        forall|i: int|
            0 <= i < deps@.len() ==> is_upgrade_requirement(
                #[trigger] r@[i],
                deps@[i],
                string_views(targets@),
                match locked {
                    Some(l) => Some(pair_views(l@)),
                    None => None,
                },
            ),
{
    let mut out: Vec<UpgradeRequirement> = Vec::new();
    let mut i: usize = 0;
    while i < deps.len()
        invariant
            0 <= i <= deps.len(),
            out@.len() == i,
            forall|j: int|
                0 <= j < i ==> is_upgrade_requirement(
                    #[trigger] out@[j],
                    deps@[j],
                    string_views(targets@),
                    match locked {
                        Some(l) => Some(pair_views(l@)),
                        None => None,
                    },
                ),
        decreases deps.len() - i,
    {
        let d = &deps[i];
        let pin = match locked {
            Some(l) => if is_target(d.name.as_str(), targets) {
                None
            } else {
                find_locked(l, d.name.as_str())
            },
            None => None,
        };
        let item = match pin {
            Some(v) => UpgradeRequirement::Pinned { name: d.name.clone(), version: v },
            None => UpgradeRequirement::Declared(d.requirement.clone()),
        };
        out.push(item);
        i = i + 1;
    }
    out
}

/// The error `pybun upgrade` reports when the lockfile at `path` is missing.
pub fn lockfile_missing_error(path: &str) -> (d: Diagnostic)
    ensures
        is_coded_error(
            d,
            "E_LOCKFILE_NOT_FOUND"@,
            "lockfile not found at "@ + path@ + ". Run 'pybun install' first."@,
            "Run `pybun install` to generate the lockfile, then re-run `pybun upgrade`."@,
        ),
{
    coded_error(
        "E_LOCKFILE_NOT_FOUND",
        String::from_str("lockfile not found at ").concat(path).concat(". Run 'pybun install' first."),
        "Run `pybun install` to generate the lockfile, then re-run `pybun upgrade`.",
    )
}

/// An upgrade changed a package when it is new or its version differs.
pub fn is_version_change(from: Option<&str>, to: &str) -> (r: bool)
    ensures
        r == match from {
            Some(f) => f@ != to@,
            None => true,
        },
{
    match from {
        Some(f) => {
            let a = crate::text::chars_of(f);
            let b = crate::text::chars_of(to);
            !crate::text::chars_eq(a.as_slice(), b.as_slice())
        },
        None => true,
    }
}


// ---------------------------------------------------------------------------
// Outdated packages
// ---------------------------------------------------------------------------

/// A locked package with a newer version available.
pub struct OutdatedEntry {
    pub package: String,
    pub current: String,
    /// The newest version the project's constraint allows.
    pub wanted: String,
    pub latest: String,
    /// `major`, `minor`, `patch`, `other` or `unknown` (see [`classify_update`]).
    pub kind: &'static str,
}

/// Whether a locked package is reported as outdated, and how: when the
/// latest or the wanted version differs from the locked one.
pub fn outdated_entry(
    package: &str,
    current: &str,
    wanted: &str,
    latest: &str,
    current_release: Option<Release>,
    latest_release: Option<Release>,
) -> (r: Option<OutdatedEntry>)
    ensures
        r is Some <==> (latest@ != current@ || wanted@ != current@),
        r matches Some(e) ==> {
            &&& e.package@ == package@
            &&& e.current@ == current@
            &&& e.wanted@ == wanted@
            &&& e.latest@ == latest@
            &&& e.kind@ == update_kind(current_release, latest_release)
        },
{
    let c = crate::text::chars_of(current);
    let w = crate::text::chars_of(wanted);
    let l = crate::text::chars_of(latest);
    let latest_differs = !crate::text::chars_eq(l.as_slice(), c.as_slice());
    let wanted_differs = !crate::text::chars_eq(w.as_slice(), c.as_slice());
    if latest_differs || wanted_differs {
        Some(OutdatedEntry {
            package: String::from_str(package),
            current: String::from_str(current),
            wanted: String::from_str(wanted),
            latest: String::from_str(latest),
            kind: classify_update(current_release, latest_release),
        })
    } else {
        None
    }
}

/// The error `pybun outdated` reports when there is no `pybun.lockb`.
pub fn outdated_lockfile_missing_error() -> (d: Diagnostic)
    ensures
        is_coded_error(
            d,
            "E_LOCKFILE_NOT_FOUND"@,
            "pybun.lockb not found. Run 'pybun install' first."@,
            "Run `pybun install` to generate pybun.lockb, then re-run `pybun outdated`."@,
        ),
{
    coded_error(
        "E_LOCKFILE_NOT_FOUND",
        String::from_str("pybun.lockb not found. Run 'pybun install' first."),
        "Run `pybun install` to generate pybun.lockb, then re-run `pybun outdated`.",
    )
}


// ---------------------------------------------------------------------------
// Workspace selectors
// ---------------------------------------------------------------------------

/// Which dependencies the `--member`/`--group` selectors pick.
pub enum DependencyScope {
    /// A workspace member's dependencies, or one of its groups.
    Member { member: String, group: Option<String> },
    /// A dependency group across the whole workspace.
    WorkspaceGroup { group: String },
    /// A dependency group of the project alone (no workspace).
    ProjectGroup { group: String },
}

/// The message for `--member` without a workspace.
pub open spec fn member_needs_workspace_message() -> Seq<char> {
    "--member requires a workspace; no [tool.pybun.workspace] configuration found"@
}

/// The message for a `--member` that names no member of the workspace.
pub open spec fn unknown_member_message(name: Seq<char>, members: Seq<Seq<char>>) -> Seq<char> {
    "workspace member '"@ + name + "' not found (available: "@ + comma_joined(members) + ")"@
}

/// `--member` takes priority (optionally narrowed by `--group`) and needs a
/// workspace that has that member; `--group` alone selects the group across
/// the workspace when there is one, else the project's own group; with
/// neither, nothing is selected and the caller falls back to its default.
pub open spec fn scope_for(
    member: Option<Seq<char>>,
    group: Option<Seq<char>>,
    workspace_members: Option<Seq<Seq<char>>>,
) -> Result<Option<(int, Seq<char>, Option<Seq<char>>)>, Seq<char>> {
    match member {
        Some(m) => match workspace_members {
            None => Err(member_needs_workspace_message()),
            Some(ms) => if ms.contains(m) {
                Ok(Some((0, m, group)))
            } else {
                Err(unknown_member_message(m, ms))
            },
        },
        None => match group {
            Some(g) => match workspace_members {
                Some(_) => Ok(Some((1, g, None))),
                None => Ok(Some((2, g, None))),
            },
            None => Ok(None),
        },
    }
}

/// The view of a scope, as [`scope_for`] gives it.
pub open spec fn scope_view(s: DependencyScope) -> (int, Seq<char>, Option<Seq<char>>) {
    match s {
        DependencyScope::Member { member, group } => (0, member@, opt_view(group)),
        DependencyScope::WorkspaceGroup { group } => (1, group@, None),
        DependencyScope::ProjectGroup { group } => (2, group@, None),
    }
}

fn has_member(members: &[String], name: &str) -> (r: bool)
    ensures
        r == string_views(members@).contains(name@),
{
    let n = crate::text::chars_of(name);
    let mut i: usize = 0;
    while i < members.len()
        invariant
            0 <= i <= members.len(),
            n@ == name@,
            forall|k: int| 0 <= k < i ==> members@[k]@ != name@,
        decreases members.len() - i,
    {
        let c = crate::text::chars_of(members[i].as_str());
        if crate::text::chars_eq(c.as_slice(), n.as_slice()) {
            assert(string_views(members@)[i as int] == name@);
            return true;
        }
        i = i + 1;
    }
    assert forall|k: int| 0 <= k < string_views(members@).len() implies string_views(members@)[k] != name@ by {
        assert(string_views(members@)[k] == members@[k]@);
    }
    false
}

/// Applies the `--member`/`--group` selectors, given the names of the
/// workspace's members when there is a workspace.
pub fn select_dependency_scope(
    member: Option<&str>,
    group: Option<&str>,
    workspace_members: Option<&[String]>,
) -> (r: Result<Option<DependencyScope>, String>)
    ensures
        match r {
            Ok(Some(s)) => scope_for(
                crate::commands::run::opt_str_view(member),
                crate::commands::run::opt_str_view(group),
                match workspace_members {
                    Some(ms) => Some(string_views(ms@)),
                    None => None,
                },
            ) == Ok::<Option<(int, Seq<char>, Option<Seq<char>>)>, Seq<char>>(Some(scope_view(s))),
            Ok(None) => scope_for(
                crate::commands::run::opt_str_view(member),
                crate::commands::run::opt_str_view(group),
                match workspace_members {
                    Some(ms) => Some(string_views(ms@)),
                    None => None,
                },
            ) == Ok::<Option<(int, Seq<char>, Option<Seq<char>>)>, Seq<char>>(None),
            Err(e) => scope_for(
                crate::commands::run::opt_str_view(member),
                crate::commands::run::opt_str_view(group),
                match workspace_members {
                    Some(ms) => Some(string_views(ms@)),
                    None => None,
                },
            ) == Err::<Option<(int, Seq<char>, Option<Seq<char>>)>, Seq<char>>(e@),
        },
{
    match member {
        Some(m) => match workspace_members {
            None => Err(String::from_str(
                "--member requires a workspace; no [tool.pybun.workspace] configuration found",
            )),
            Some(ms) => {
                if has_member(ms, m) {
                    let g = match group {
                        Some(g) => Some(String::from_str(g)),
                        None => None,
                    };
                    Ok(Some(DependencyScope::Member { member: String::from_str(m), group: g }))
                } else {
                    let names = join_comma(ms);
                    Err(String::from_str("workspace member '").concat(m).concat("' not found (available: ").concat(
                        names.as_str(),
                    ).concat(")"))
                }
            },
        },
        None => match group {
            Some(g) => match workspace_members {
                Some(_) => Ok(Some(DependencyScope::WorkspaceGroup { group: String::from_str(g) })),
                None => Ok(Some(DependencyScope::ProjectGroup { group: String::from_str(g) })),
            },
            None => Ok(None),
        },
    }
}


// ---------------------------------------------------------------------------
// Lock targets
// ---------------------------------------------------------------------------

/// Why `pybun lock` refuses: the message, and the diagnostic it reports
/// with it, if any.
pub struct LockRefusal {
    pub message: String,
    pub diagnostic: Option<Diagnostic>,
}

/// The lockfile `pybun lock` writes: next to the script for `--script`
/// (which must exist), else `pybun.lockb` in `cwd` for a project; without a
/// script or a project it refuses with `E_LOCK_TARGET_REQUIRED`.
pub fn lock_target(script: Option<&str>, script_exists: bool, project_found: bool, cwd: &str) -> (r: Result<
    String,
    LockRefusal,
>)
    ensures
        match script {
            Some(s) => if script_exists {
                r matches Ok(p) && p@ == s@ + ".lock"@
            } else {
                r matches Err(e) && e.message@ == "script not found: "@ + s@ && e.diagnostic is None
            },
            None => if project_found {
                r matches Ok(p) && p@ == join(cwd@, "pybun.lockb"@)
            } else {
                r matches Err(e) && e.message@
                    == "no pyproject.toml found in the current directory or any parent directory"@ && (
                e.diagnostic matches Some(d) && is_coded_error(
                    d,
                    "E_LOCK_TARGET_REQUIRED"@,
                    "no pyproject.toml found in the current directory or any parent directory"@,
                    "Run 'pybun lock --script <path/to/script.py>' to lock a PEP 723 script, or create a pyproject.toml with [project.dependencies] to lock a project"@,
                ))
            },
        },
{
    match script {
        Some(s) => {
            if script_exists {
                Ok(crate::commands::run::script_lock_path(s))
            } else {
                Err(LockRefusal { message: String::from_str("script not found: ").concat(s), diagnostic: None })
            }
        },
        None => {
            if project_found {
                Ok(join_path(cwd, "pybun.lockb"))
            } else {
                let message = String::from_str("no pyproject.toml found in the current directory or any parent directory");
                let d = coded_error(
                    "E_LOCK_TARGET_REQUIRED",
                    message.clone(),
                    "Run 'pybun lock --script <path/to/script.py>' to lock a PEP 723 script, or create a pyproject.toml with [project.dependencies] to lock a project",
                );
                Err(LockRefusal { message, diagnostic: Some(d) })
            }
        },
    }
}

/// The Python version a lockfile records: the target version, or `unknown`.
pub fn recorded_python_version(target: Option<&str>) -> (r: String)
    ensures
        r@ == match target {
            Some(t) => t@,
            None => "unknown"@,
        },
{
    match target {
        Some(t) => String::from_str(t),
        None => String::from_str("unknown"),
    }
}


// ---------------------------------------------------------------------------
// Lockfile drift
// ---------------------------------------------------------------------------

/// A package of an existing lockfile, with whether its hash is a
/// placeholder rather than a verified SHA-256 digest.
pub struct LockedPackage {
    pub name: String,
    pub version: String,
    pub wheel: String,
    pub hash: String,
    pub placeholder_hash: bool,
}

/// The packages of a lockfile whose hashes were never verified.
pub open spec fn drifted(pkgs: Seq<LockedPackage>) -> Seq<LockedPackage> {
    pkgs.filter(|p: LockedPackage| p.placeholder_hash)
}

/// `j` describes the drifted package `p`.
pub open spec fn is_drift_entry(j: Json, p: LockedPackage) -> bool {
    &&& member_count(j) == Some(4nat)
    &&& get_str(j, "package"@) == Some(p.name@)
    &&& get_str(j, "version"@) == Some(p.version@)
    &&& get_str(j, "filename"@) == Some(p.wheel@)
    &&& get_str(j, "hash"@) == Some(p.hash@)
}

fn drift_entry(p: &LockedPackage) -> (j: Json)
    ensures
        is_drift_entry(j, *p),
{
    let mut m: Vec<(String, Json)> = Vec::new();
    m.push(member("package", Json::Str(p.name.clone())));
    m.push(member("version", Json::Str(p.version.clone())));
    m.push(member("filename", Json::Str(p.wheel.clone())));
    m.push(member("hash", Json::Str(p.hash.clone())));
    proof {
        reveal_strlit("package");
        reveal_strlit("version");
        reveal_strlit("filename");
        reveal_strlit("hash");
        let s = m@;
        let keys = seq!["package"@, "version"@, "filename"@, "hash"@];
        assert forall|x: int, y: int| 0 <= x < y < 4 implies #[trigger] keys[x] != #[trigger] keys[y] by {
            lemma_keys_differ(keys[x], keys[y]);
        }
        assert forall|x: int| 0 <= x < 4 implies #[trigger] s[x].0@ == keys[x] by {}
        lemma_lookup_at(s, "package"@, 0);
        lemma_lookup_at(s, "version"@, 1);
        lemma_lookup_at(s, "filename"@, 2);
        lemma_lookup_at(s, "hash"@, 3);
    }
    Json::Object(m)
}

/// The warning that an existing lockfile holds packages whose hashes were
/// never verified, with those packages as context; none when every hash was
/// verified.
pub fn lock_drift_warning(pkgs: &[LockedPackage]) -> (r: Option<Diagnostic>)
    ensures
        r is Some <==> drifted(pkgs@).len() > 0,
        r matches Some(d) ==> {
            &&& d.level == DiagnosticLevel::Warning
            &&& opt_view(d.code) == Some("W_LOCK_PLACEHOLDER_HASH"@)
            &&& d.message@ == "existing lockfile contains "@ + dec(drifted(pkgs@).len()) + " package(s) without verified hashes"@
            &&& opt_view(d.suggestion) == Some(
                "rerun 'pybun install' or 'pybun lock' with an index that provides sha256 digests"@,
            )
            &&& d.file is None
            &&& d.line is None
            &&& (d.context matches Some(c) && member_count(c) == Some(1nat) && match get_array(c, "packages"@) {
                Some(items) => items.len() == drifted(pkgs@).len() && forall|i: int|
                    0 <= i < items.len() ==> is_drift_entry(#[trigger] items[i], drifted(pkgs@)[i]),
                None => false,
            })
        },
{
    let ghost f = |p: LockedPackage| p.placeholder_hash;
    let mut entries: Vec<Json> = Vec::new();
    let mut i: usize = 0;
    proof {
        reveal(Seq::filter);
        assert(pkgs@.take(0) =~= Seq::<LockedPackage>::empty());
    }
    while i < pkgs.len()
        invariant
            0 <= i <= pkgs.len(),
            f == (|p: LockedPackage| p.placeholder_hash),
            entries@.len() == pkgs@.take(i as int).filter(f).len(),
            forall|k: int| 0 <= k < entries@.len() ==> is_drift_entry(#[trigger] entries@[k], pkgs@.take(i as int).filter(f)[k]),
        decreases pkgs.len() - i,
    {
        let ghost prev = pkgs@.take(i as int).filter(f);
        assert(pkgs@.take(i + 1).drop_last() =~= pkgs@.take(i as int));
        proof {
            reveal(Seq::filter);
        }
        if pkgs[i].placeholder_hash {
            entries.push(drift_entry(&pkgs[i]));
            assert(pkgs@.take(i + 1).filter(f) == prev.push(pkgs@[i as int]));
        } else {
            assert(pkgs@.take(i + 1).filter(f) == prev);
        }
        i = i + 1;
    }
    assert(pkgs@.take(i as int) =~= pkgs@);
    if entries.len() == 0 {
        return None;
    }
    let n = dec_chars(entries.len() as u128);
    let message = String::from_str("existing lockfile contains ").concat(string_of(n.as_slice()).as_str()).concat(
        " package(s) without verified hashes",
    );
    let mut ctx: Vec<(String, Json)> = Vec::new();
    ctx.push(member("packages", Json::Array(entries)));
    proof {
        reveal_strlit("packages");
        lemma_lookup_at(ctx@, "packages"@, 0);
    }
    Some(Diagnostic {
        level: DiagnosticLevel::Warning,
        code: Some(String::from_str("W_LOCK_PLACEHOLDER_HASH")),
        message,
        file: None,
        line: None,
        suggestion: Some(String::from_str(
            "rerun 'pybun install' or 'pybun lock' with an index that provides sha256 digests",
        )),
        context: Some(Json::Object(ctx)),
    })
}

} // verus!
