//! Severity rules of the OSV vulnerability scan, and the report built from an
//! OSV `querybatch` response.

use vstd::prelude::*;
use crate::json::{Json, as_array, as_str, get, lookup, get_array, get_str, json_as_str, json_get, json_get_array, json_get_str};
use crate::text::{
    all_ascii, ascii_lower, ascii_upper, chars_eq, chars_eq_str, chars_of, opt_view, chars_starts_with, find, find_chars, split_char, split_on, starts_with,
    string_of, substring, to_lowercase, to_uppercase, lowercase, uppercase, views,
};

verus! {

/// A package as reported by `pip list --format=json`.
#[derive(Debug, Clone)]
pub struct InstalledPackage {
    pub name: String,
    pub version: String,
}

/// A single vulnerability affecting an installed package, at or above the
/// requested severity threshold.
#[derive(Debug, Clone)]
pub struct Vulnerability {
    pub package: String,
    pub installed_version: String,
    pub vulnerability_id: String,
    pub severity: String,
    pub description: String,
    pub fix_version: Option<String>,
}

/// The text of a [`Vulnerability`].
pub ghost struct VulnerabilityView {
    pub package: Seq<char>,
    pub installed_version: Seq<char>,
    pub vulnerability_id: Seq<char>,
    pub severity: Seq<char>,
    pub description: Seq<char>,
    pub fix_version: Option<Seq<char>>,
}

impl View for Vulnerability {
    type V = VulnerabilityView;

    open spec fn view(&self) -> VulnerabilityView {
        VulnerabilityView {
            package: self.package@,
            installed_version: self.installed_version@,
            vulnerability_id: self.vulnerability_id@,
            severity: self.severity@,
            description: self.description@,
            fix_version: opt_view(self.fix_version),
        }
    }
}

/// Result of scanning a set of installed packages against OSV.
#[derive(Debug, Clone)]
pub struct AuditReport {
    /// Number of packages submitted to OSV.
    pub scanned: usize,
    /// Packages OSV did not return a result for (partial/mismatched response).
    pub unscanned: usize,
    /// Vulnerabilities at or above the requested severity threshold.
    pub vulnerabilities: Vec<Vulnerability>,
}

// ---------------------------------------------------------------------------
// Severity levels
// ---------------------------------------------------------------------------

/// The rank of an already lower-cased severity name.
pub open spec fn level_of_lowercase(l: Seq<char>) -> u8 {
    if l == "none"@ {
        0
    } else if l == "low"@ {
        1
    } else if l == "medium"@ {
        2
    } else if l == "high"@ {
        3
    } else if l == "critical"@ {
        4
    } else {
        1
    }
}

/// The rank that [`severity_level`] gives to `s`: its lower-cased form
/// ranked none < low < medium < high < critical, anything else ranked as low.
pub open spec fn level_of(s: Seq<char>) -> u8 {
    level_of_lowercase(lowercase(s))
}

/// Rank a severity string for threshold comparisons. Unknown strings are
/// treated as "low" (fail-open on ranking, not on reporting).
pub fn severity_level(s: &str) -> (r: u8)
    ensures
        r == level_of(s@),
        r <= 4,
{
    let lower = to_lowercase(s);
    let l = chars_of(lower.as_str());
    if chars_eq_str(l.as_slice(), "none") {
        0
    } else if chars_eq_str(l.as_slice(), "low") {
        1
    } else if chars_eq_str(l.as_slice(), "medium") {
        2
    } else if chars_eq_str(l.as_slice(), "high") {
        3
    } else if chars_eq_str(l.as_slice(), "critical") {
        4
    } else {
        1
    }
}

/// The normalized name of an already upper-cased severity.
pub open spec fn normalized_of_uppercase(u: Seq<char>) -> Seq<char> {
    if u == "CRITICAL"@ {
        "critical"@
    } else if u == "HIGH"@ {
        "high"@
    } else if u == "MEDIUM"@ || u == "MODERATE"@ {
        "medium"@
    } else {
        "low"@
    }
}

/// What [`normalize_severity`] returns for `s`.
pub open spec fn normalized(s: Seq<char>) -> Seq<char> {
    normalized_of_uppercase(uppercase(s))
}

/// Map a database severity ("CRITICAL", "HIGH", "MODERATE", ...) onto the
/// four report levels; anything unrecognized is "low".
pub fn normalize_severity(s: &str) -> (r: String)
    ensures
        r@ == normalized(s@),
{
    let upper = to_uppercase(s);
    let u = chars_of(upper.as_str());
    if chars_eq_str(u.as_slice(), "CRITICAL") {
        String::from_str("critical")
    } else if chars_eq_str(u.as_slice(), "HIGH") {
        String::from_str("high")
    } else if chars_eq_str(u.as_slice(), "MEDIUM") || chars_eq_str(u.as_slice(), "MODERATE") {
        String::from_str("medium")
    } else {
        String::from_str("low")
    }
}

// ---------------------------------------------------------------------------
// CVSS vectors
// ---------------------------------------------------------------------------

/// The value of a `KEY:VALUE` segment whose key is exactly `key`.
pub open spec fn segment_value(seg: Seq<char>, key: Seq<char>) -> Option<Seq<char>> {
    match find(seg, seq![':']) {
        Some(i) => if seg.subrange(0, i) == key {
            Some(seg.subrange(i + 1, seg.len() as int))
        } else {
            None
        },
        None => None,
    }
}

/// The value of the first segment whose key is exactly `key`.
pub open spec fn cvss_field(segs: Seq<Seq<char>>, key: Seq<char>) -> Option<Seq<char>>
    decreases segs.len(),
{
    if segs.len() == 0 {
        None
    } else {
        match segment_value(segs[0], key) {
            Some(v) => Some(v),
            None => cvss_field(segs.drop_first(), key),
        }
    }
}

/// The level given to a CVSS vector with confidentiality `c`, integrity `i`,
/// availability `a`, scope `s`, privileges `pr` and user interaction `ui`:
/// any of C/I/A high is "high", raised to "critical" when confidentiality is
/// high with changed scope and no privileges or interaction required; all of
/// C/I/A none is "medium"; anything else is "low".
pub open spec fn cvss_rating(
    c: Seq<char>,
    i: Seq<char>,
    a: Seq<char>,
    s: Option<Seq<char>>,
    pr: Option<Seq<char>>,
    ui: Option<Seq<char>>,
) -> Seq<char> {
    let any_high = c == "H"@ || i == "H"@ || a == "H"@;
    let all_none = c == "N"@ && i == "N"@ && a == "N"@;
    if any_high && c == "H"@ && s == Some("C"@) && pr == Some("N"@) && ui == Some("N"@) {
        "critical"@
    } else if any_high {
        "high"@
    } else if all_none {
        "medium"@
    } else {
        "low"@
    }
}

/// What [`severity_from_cvss_vector`] returns for `v`.
pub open spec fn cvss_level(v: Seq<char>) -> Option<Seq<char>> {
    if !starts_with(v, "CVSS:"@) {
        None
    } else {
        let segs = split_on(v, '/');
        match (cvss_field(segs, "C"@), cvss_field(segs, "I"@), cvss_field(segs, "A"@)) {
            (Some(c), Some(i), Some(a)) => Some(
                cvss_rating(
                    c,
                    i,
                    a,
                    cvss_field(segs, "S"@),
                    cvss_field(segs, "PR"@),
                    cvss_field(segs, "UI"@),
                ),
            ),
            _ => None,
        }
    }
}

/// The value of the first `key:value` segment of `segs` whose key is `key`.
fn cvss_get(segs: &Vec<Vec<char>>, key: &str) -> (r: Option<Vec<char>>)
    ensures
        match r {
            Some(v) => cvss_field(views(segs@), key@) == Some(v@),
            None => cvss_field(views(segs@), key@) is None,
        },
{
    let k = chars_of(key);
    let colon = vec![':'];
    let mut i: usize = 0;
    assert(views(segs@).skip(0) =~= views(segs@));
    while i < segs.len()
        invariant
            0 <= i <= segs.len(),
            k@ == key@,
            colon@ == seq![':'],
            cvss_field(views(segs@), key@) == cvss_field(views(segs@).skip(i as int), key@),
        decreases segs.len() - i,
    {
        let seg = &segs[i];
        assert(views(segs@).skip(i as int)[0] == seg@);
        assert(views(segs@).skip(i as int).drop_first() =~= views(segs@).skip(i + 1));
        match find_chars(seg.as_slice(), colon.as_slice()) {
            Some(p) => {
                let head = substring(seg, 0, p);
                let hv = chars_of(head.as_str());
                if chars_eq(hv.as_slice(), k.as_slice()) {
                    let mut value: Vec<char> = Vec::new();
                    let mut j = p + 1;
                    while j < seg.len()
                        invariant
                            p + 1 <= j <= seg.len(),
                            value@ == seg@.subrange(p + 1, j as int),
                        decreases seg.len() - j,
                    {
                        value.push(seg[j]);
                        j = j + 1;
                        assert(value@ =~= seg@.subrange(p + 1, j as int));
                    }
                    return Some(value);
                }
            },
            None => {},
        }
        i = i + 1;
    }
    None
}

/// Extract severity from a CVSS v3 vector string.
///
/// CVSS:3.1/AV:N/AC:L/PR:N/UI:N/S:U/C:H/I:N/A:N
/// Heuristic: if any of C/I/A is H → HIGH; all N → MEDIUM; else LOW.
/// Changed scope together with PR:N and UI:N escalates to CRITICAL when C:H.
pub fn severity_from_cvss_vector(vector: &str) -> (r: Option<String>)
    ensures
        match r {
            Some(l) => cvss_level(vector@) == Some(l@),
            None => cvss_level(vector@) is None,
        },
{
    let v = chars_of(vector);
    let prefix = chars_of("CVSS:");
    if !chars_starts_with(v.as_slice(), prefix.as_slice()) {
        return None;
    }
    let segs = split_char(v.as_slice(), '/');
    let c = match cvss_get(&segs, "C") {
        Some(x) => x,
        None => return None,
    };
    let i = match cvss_get(&segs, "I") {
        Some(x) => x,
        None => return None,
    };
    let a = match cvss_get(&segs, "A") {
        Some(x) => x,
        None => return None,
    };
    let scope = cvss_get(&segs, "S");
    let pr = cvss_get(&segs, "PR");
    let ui = cvss_get(&segs, "UI");
    let c_high = chars_eq_str(c.as_slice(), "H");
    let any_high = c_high || chars_eq_str(i.as_slice(), "H") || chars_eq_str(a.as_slice(), "H");
    let all_none = chars_eq_str(c.as_slice(), "N") && chars_eq_str(i.as_slice(), "N")
        && chars_eq_str(a.as_slice(), "N");
    let scope_changed = match &scope {
        Some(x) => chars_eq_str(x.as_slice(), "C"),
        None => false,
    };
    let pr_none = match &pr {
        Some(x) => chars_eq_str(x.as_slice(), "N"),
        None => false,
    };
    let ui_none = match &ui {
        Some(x) => chars_eq_str(x.as_slice(), "N"),
        None => false,
    };
    proof {
        reveal_strlit("C");
        reveal_strlit("N");
    }
    let level = if any_high && c_high && scope_changed && pr_none && ui_none {
        "critical"
    } else if any_high {
        "high"
    } else if all_none {
        "medium"
    } else {
        "low"
    };
    Some(String::from_str(level))
}


// ---------------------------------------------------------------------------
// Reading OSV advisories
// ---------------------------------------------------------------------------

/// `value.get(key).and_then(|v| v.as_str()).unwrap_or("")`.
pub open spec fn str_or_empty(j: Json, key: Seq<char>) -> Seq<char> {
    match get_str(j, key) {
        Some(s) => s,
        None => Seq::empty(),
    }
}

/// The level of the first CVSS entry of `severities` whose score is a CVSS
/// vector.
pub open spec fn first_cvss_level(severities: Seq<Json>) -> Option<Seq<char>>
    decreases severities.len(),
{
    if severities.len() == 0 {
        None
    } else {
        match cvss_level(str_or_empty(severities[0], "score"@)) {
            Some(l) => Some(l),
            None => first_cvss_level(severities.drop_first()),
        }
    }
}

/// The severity read from an advisory: its `database_specific.severity`,
/// normalized, when that is a string; else the level of the first CVSS
/// vector in its `severity` array; else "low".
pub open spec fn advisory_severity(vuln: Json) -> Seq<char> {
    let db = match get(vuln, "database_specific"@) {
        Some(d) => get_str(d, "severity"@),
        None => None,
    };
    match db {
        Some(s) => normalized(s),
        None => match get_array(vuln, "severity"@) {
            Some(arr) => match first_cvss_level(arr) {
                Some(l) => l,
                None => "low"@,
            },
            None => "low"@,
        },
    }
}

/// The severity of an OSV advisory (see [`advisory_severity`]).
pub fn extract_severity(vuln: &Json) -> (r: String)
    ensures
        r@ == advisory_severity(*vuln),
{
    // Primary: database_specific.severity — present in GHSA-sourced advisories
    match json_get(vuln, "database_specific") {
        Some(d) => match json_get_str(d, "severity") {
            Some(db_sev) => {
                return normalize_severity(db_sev);
            },
            None => {},
        },
        None => {},
    }
    // Fallback: OSV severity[] array with CVSS vectors — common in PYSEC advisories
    match json_get_array(vuln, "severity") {
        Some(severities) => {
            let mut i: usize = 0;
            assert(severities@.skip(0) =~= severities@);
            while i < severities.len()
                invariant
                    0 <= i <= severities.len(),
                    get_array(*vuln, "severity"@) == Some(severities@),
                    (match get(*vuln, "database_specific"@) {
                        Some(d) => get_str(d, "severity"@),
                        None => None,
                    }) is None,
                    first_cvss_level(severities@) == first_cvss_level(severities@.skip(i as int)),
                decreases severities.len() - i,
            {
                let sev = &severities[i];
                assert(severities@.skip(i as int)[0] == *sev);
                assert(severities@.skip(i as int).drop_first() =~= severities@.skip(i + 1));
                let score: &str = match json_get_str(sev, "score") {
                    Some(x) => x,
                    None => {
                        proof {
                            reveal_strlit("");
                        }
                        assert(""@ =~= Seq::<char>::empty());
                        ""
                    },
                };
                assert(score@ == str_or_empty(*sev, "score"@));
                match severity_from_cvss_vector(score) {
                    Some(level) => {
                        return level;
                    },
                    None => {},
                }
                i = i + 1;
            }
        },
        None => {},
    }
    String::from_str("low")
}

/// The first `fixed` event string among `events`.
pub open spec fn fixed_in_events(events: Seq<Json>) -> Option<Seq<char>>
    decreases events.len(),
{
    if events.len() == 0 {
        None
    } else {
        match get_str(events[0], "fixed"@) {
            Some(f) => Some(f),
            None => fixed_in_events(events.drop_first()),
        }
    }
}

/// The first `fixed` event among the `events` of `ranges`, in order.
pub open spec fn fixed_in_ranges(ranges: Seq<Json>) -> Option<Seq<char>>
    decreases ranges.len(),
{
    if ranges.len() == 0 {
        None
    } else {
        let here = match get_array(ranges[0], "events"@) {
            Some(ev) => fixed_in_events(ev),
            None => None,
        };
        match here {
            Some(f) => Some(f),
            None => fixed_in_ranges(ranges.drop_first()),
        }
    }
}

/// The first `fixed` event among the `ranges` of `affected`, in order.
pub open spec fn fixed_in_affected(affected: Seq<Json>) -> Option<Seq<char>>
    decreases affected.len(),
{
    if affected.len() == 0 {
        None
    } else {
        let here = match get_array(affected[0], "ranges"@) {
            Some(r) => fixed_in_ranges(r),
            None => None,
        };
        match here {
            Some(f) => Some(f),
            None => fixed_in_affected(affected.drop_first()),
        }
    }
}

/// The fix version read from an advisory: the first
/// `affected[].ranges[].events[].fixed` string, else the first element of
/// `database_specific.fix_versions` when it is a string.
pub open spec fn advisory_fix_version(vuln: Json) -> Option<Seq<char>> {
    let from_ranges = match get_array(vuln, "affected"@) {
        Some(a) => fixed_in_affected(a),
        None => None,
    };
    match from_ranges {
        Some(f) => Some(f),
        None => match get(vuln, "database_specific"@) {
            Some(d) => match get_array(d, "fix_versions"@) {
                Some(arr) => if arr.len() > 0 {
                    as_str(arr[0])
                } else {
                    None
                },
                None => None,
            },
            None => None,
        },
    }
}

fn fixed_event(events: &Vec<Json>) -> (r: Option<&str>)
    ensures
        match r {
            Some(f) => fixed_in_events(events@) == Some(f@),
            None => fixed_in_events(events@) is None,
        },
{
    let mut i: usize = 0;
    assert(events@.skip(0) =~= events@);
    while i < events.len()
        invariant
            0 <= i <= events.len(),
            fixed_in_events(events@) == fixed_in_events(events@.skip(i as int)),
        decreases events.len() - i,
    {
        assert(events@.skip(i as int)[0] == events@[i as int]);
        assert(events@.skip(i as int).drop_first() =~= events@.skip(i + 1));
        match json_get_str(&events[i], "fixed") {
            Some(f) => {
                return Some(f);
            },
            None => {},
        }
        i = i + 1;
    }
    None
}

fn fixed_range(ranges: &Vec<Json>) -> (r: Option<&str>)
    ensures
        match r {
            Some(f) => fixed_in_ranges(ranges@) == Some(f@),
            None => fixed_in_ranges(ranges@) is None,
        },
{
    let mut i: usize = 0;
    assert(ranges@.skip(0) =~= ranges@);
    while i < ranges.len()
        invariant
            0 <= i <= ranges.len(),
            fixed_in_ranges(ranges@) == fixed_in_ranges(ranges@.skip(i as int)),
        decreases ranges.len() - i,
    {
        assert(ranges@.skip(i as int)[0] == ranges@[i as int]);
        assert(ranges@.skip(i as int).drop_first() =~= ranges@.skip(i + 1));
        match json_get_array(&ranges[i], "events") {
            Some(events) => match fixed_event(events) {
                Some(f) => {
                    return Some(f);
                },
                None => {},
            },
            None => {},
        }
        i = i + 1;
    }
    None
}

/// The version that fixes an OSV advisory, if it names one (see
/// [`advisory_fix_version`]).
pub fn extract_fix_version(vuln: &Json) -> (r: Option<String>)
    ensures
        opt_view(r) == advisory_fix_version(*vuln),
{
    // Look in affected[].ranges[].events[].fixed
    match json_get_array(vuln, "affected") {
        Some(affected) => {
            let mut i: usize = 0;
            assert(affected@.skip(0) =~= affected@);
            while i < affected.len()
                invariant
                    0 <= i <= affected.len(),
                    get_array(*vuln, "affected"@) == Some(affected@),
                    fixed_in_affected(affected@) == fixed_in_affected(affected@.skip(i as int)),
                decreases affected.len() - i,
            {
                assert(affected@.skip(i as int)[0] == affected@[i as int]);
                assert(affected@.skip(i as int).drop_first() =~= affected@.skip(i + 1));
                match json_get_array(&affected[i], "ranges") {
                    Some(ranges) => match fixed_range(ranges) {
                        Some(f) => {
                            return Some(String::from_str(f));
                        },
                        None => {},
                    },
                    None => {},
                }
                i = i + 1;
            }
        },
        None => {},
    }
    // Fallback: database_specific.fix_versions
    match json_get(vuln, "database_specific") {
        Some(d) => match json_get_array(d, "fix_versions") {
            Some(arr) => {
                if arr.len() > 0 {
                    match json_as_str(&arr[0]) {
                        Some(s) => Some(String::from_str(s)),
                        None => None,
                    }
                } else {
                    None
                }
            },
            None => None,
        },
        None => None,
    }
}


// ---------------------------------------------------------------------------
// Reports
// ---------------------------------------------------------------------------

/// The views of a sequence of vulnerabilities.
pub open spec fn vuln_views(vs: Seq<Vulnerability>) -> Seq<VulnerabilityView> {
    vs.map_values(|v: Vulnerability| v@)
}

/// How many of `vs` carry exactly the severity `sev`.
pub open spec fn count_severity(vs: Seq<VulnerabilityView>, sev: Seq<char>) -> nat
    decreases vs.len(),
{
    if vs.len() == 0 {
        0
    } else {
        count_severity(vs.drop_last(), sev) + if vs.last().severity == sev {
            1nat
        } else {
            0nat
        }
    }
}

/// The highest rank among the severities of `vs`, `None` when `vs` is empty.
pub open spec fn highest_level(vs: Seq<VulnerabilityView>) -> Option<u8>
    decreases vs.len(),
{
    if vs.len() == 0 {
        None
    } else {
        let l = level_of(vs.last().severity);
        match highest_level(vs.drop_last()) {
            Some(m) => Some(if m < l {
                l
            } else {
                m
            }),
            None => Some(l),
        }
    }
}

impl AuditReport {
    pub fn count_at_severity(&self, severity: &str) -> (r: usize)
        ensures
            r == count_severity(vuln_views(self.vulnerabilities@), severity@),
    {
        let sev = chars_of(severity);
        let mut count: usize = 0;
        let mut i: usize = 0;
        let ghost vs = vuln_views(self.vulnerabilities@);
        assert(vs.take(0) =~= Seq::<VulnerabilityView>::empty());
        while i < self.vulnerabilities.len()
            invariant
                0 <= i <= self.vulnerabilities.len(),
                vs == vuln_views(self.vulnerabilities@),
                sev@ == severity@,
                count == count_severity(vs.take(i as int), severity@),
                count <= i,
            decreases self.vulnerabilities.len() - i,
        {
            let v = chars_of(self.vulnerabilities[i].severity.as_str());
            assert(vs.take(i + 1).drop_last() =~= vs.take(i as int));
            assert(vs.take(i + 1).last() == self.vulnerabilities@[i as int]@);
            if chars_eq(v.as_slice(), sev.as_slice()) {
                count = count + 1;
            }
            i = i + 1;
        }
        assert(vs.take(i as int) =~= vs);
        count
    }

    /// Highest severity level present in the report, if any vulnerabilities
    /// were found.
    pub fn highest_severity_level(&self) -> (r: Option<u8>)
        ensures
            r == highest_level(vuln_views(self.vulnerabilities@)),
    {
        let mut best: Option<u8> = None;
        let mut i: usize = 0;
        let ghost vs = vuln_views(self.vulnerabilities@);
        assert(vs.take(0) =~= Seq::<VulnerabilityView>::empty());
        while i < self.vulnerabilities.len()
            invariant
                0 <= i <= self.vulnerabilities.len(),
                vs == vuln_views(self.vulnerabilities@),
                best == highest_level(vs.take(i as int)),
            decreases self.vulnerabilities.len() - i,
        {
            let l = severity_level(self.vulnerabilities[i].severity.as_str());
            assert(vs.take(i + 1).drop_last() =~= vs.take(i as int));
            assert(vs.take(i + 1).last() == self.vulnerabilities@[i as int]@);
            best = match best {
                Some(m) => Some(if m < l {
                    l
                } else {
                    m
                }),
                None => Some(l),
            };
            i = i + 1;
        }
        assert(vs.take(i as int) =~= vs);
        best
    }
}

/// The `vulns` array of one OSV result, empty when absent.
pub open spec fn vulns_of(result: Json) -> Seq<Json> {
    match get_array(result, "vulns"@) {
        Some(v) => v,
        None => Seq::empty(),
    }
}

/// The `results` array of an OSV response, empty when absent.
pub open spec fn results_of(osv: Json) -> Seq<Json> {
    match get_array(osv, "results"@) {
        Some(v) => v,
        None => Seq::empty(),
    }
}

/// The report entry for advisory `v` against package `pkg`.
pub open spec fn entry_for(pkg: InstalledPackage, v: Json) -> VulnerabilityView {
    VulnerabilityView {
        package: pkg.name@,
        installed_version: pkg.version@,
        vulnerability_id: str_or_empty(v, "id"@),
        severity: advisory_severity(v),
        description: str_or_empty(v, "summary"@),
        fix_version: advisory_fix_version(v),
    }
}

/// The entries reported for package `pkg` from its advisories `vulns`: one
/// per advisory whose severity ranks at least `threshold`, in order.
pub open spec fn advisory_entries(pkg: InstalledPackage, vulns: Seq<Json>, threshold: u8) -> Seq<
    VulnerabilityView,
>
    decreases vulns.len(),
{
    if vulns.len() == 0 {
        Seq::empty()
    } else {
        let prev = advisory_entries(pkg, vulns.drop_last(), threshold);
        if level_of(advisory_severity(vulns.last())) < threshold {
            prev
        } else {
            prev.push(entry_for(pkg, vulns.last()))
        }
    }
}

/// The entries reported for the first `n` packages, each paired with the
/// OSV result at the same position.
pub open spec fn report_entries(
    pkgs: Seq<InstalledPackage>,
    results: Seq<Json>,
    threshold: u8,
    n: nat,
) -> Seq<VulnerabilityView>
    decreases n,
{
    if n == 0 {
        Seq::empty()
    } else {
        report_entries(pkgs, results, threshold, (n - 1) as nat) + advisory_entries(
            pkgs[n - 1],
            vulns_of(results[n - 1]),
            threshold,
        )
    }
}

pub open spec fn min_nat(a: nat, b: nat) -> nat {
    if a < b {
        a
    } else {
        b
    }
}

/// Builds the audit report for `packages` from the OSV `querybatch`
/// response `osv`: results are paired with packages by position, and only
/// advisories whose severity ranks at least `severity_threshold` are kept.
pub fn report_from_osv_response(
    packages: &Vec<InstalledPackage>,
    osv: &Json,
    severity_threshold: &str,
) -> (r: AuditReport)
    ensures
        packages.len() == 0 ==> r.scanned == 0 && r.unscanned == 0 && r.vulnerabilities@.len()
            == 0,
        packages.len() > 0 ==> {
            &&& r.scanned == packages.len()
            &&& r.unscanned == packages.len() - min_nat(
                packages.len() as nat,
                results_of(*osv).len(),
            )
            &&& vuln_views(r.vulnerabilities@) == report_entries(
                packages@,
                results_of(*osv),
                level_of(severity_threshold@),
                min_nat(packages.len() as nat, results_of(*osv).len()),
            )
        },
{
    let threshold_level = severity_level(severity_threshold);
    if packages.len() == 0 {
        return AuditReport { scanned: 0, unscanned: 0, vulnerabilities: Vec::new() };
    }
    let empty: Vec<Json> = Vec::new();
    let results: &Vec<Json> = match json_get_array(osv, "results") {
        Some(r) => r,
        None => &empty,
    };
    assert(results@ == results_of(*osv));
    let n = if packages.len() < results.len() {
        packages.len()
    } else {
        results.len()
    };
    let unscanned = packages.len() - n;
    let mut vulnerabilities: Vec<Vulnerability> = Vec::new();
    let mut k: usize = 0;
    while k < n
        invariant
            0 <= k <= n,
            n <= packages.len(),
            n <= results.len(),
            results@ == results_of(*osv),
            threshold_level == level_of(severity_threshold@),
            vuln_views(vulnerabilities@) == report_entries(
                packages@,
                results@,
                threshold_level,
                k as nat,
            ),
        decreases n - k,
    {
        let pkg = &packages[k];
        let no_vulns: Vec<Json> = Vec::new();
        let vulns: &Vec<Json> = match json_get_array(&results[k], "vulns") {
            Some(v) => v,
            None => &no_vulns,
        };
        assert(vulns@ == vulns_of(results@[k as int]));
        let ghost base = vuln_views(vulnerabilities@);
        let mut i: usize = 0;
        assert(vulns@.take(0) =~= Seq::<Json>::empty());
        assert(base + advisory_entries(*pkg, vulns@.take(0), threshold_level) =~= base);
        while i < vulns.len()
            invariant
                0 <= i <= vulns.len(),
                threshold_level == level_of(severity_threshold@),
                vuln_views(vulnerabilities@) == base + advisory_entries(
                    *pkg,
                    vulns@.take(i as int),
                    threshold_level,
                ),
            decreases vulns.len() - i,
        {
            let vuln = &vulns[i];
            assert(vulns@.take(i + 1).drop_last() =~= vulns@.take(i as int));
            assert(vulns@.take(i + 1).last() == *vuln);
            let severity = extract_severity(vuln);
            if severity_level(severity.as_str()) >= threshold_level {
                let id = match json_get_str(vuln, "id") {
                    Some(x) => String::from_str(x),
                    None => String::new(),
                };
                let description = match json_get_str(vuln, "summary") {
                    Some(x) => String::from_str(x),
                    None => String::new(),
                };
                let entry = Vulnerability {
                    package: pkg.name.clone(),
                    installed_version: pkg.version.clone(),
                    vulnerability_id: id,
                    severity,
                    description,
                    fix_version: extract_fix_version(vuln),
                };
                assert(entry@ == entry_for(*pkg, *vuln));
                let ghost old_v = vulnerabilities@;
                vulnerabilities.push(entry);
                assert(vuln_views(vulnerabilities@) =~= vuln_views(old_v).push(entry_for(*pkg, *vuln)));
                assert(vuln_views(vulnerabilities@) =~= base + advisory_entries(
                    *pkg,
                    vulns@.take(i + 1),
                    threshold_level,
                ));
            } else {
                assert(vuln_views(vulnerabilities@) =~= base + advisory_entries(
                    *pkg,
                    vulns@.take(i + 1),
                    threshold_level,
                ));
            }
            i = i + 1;
        }
        assert(vulns@.take(i as int) =~= vulns@);
        k = k + 1;
    }
    AuditReport { scanned: packages.len(), unscanned, vulnerabilities }
}


// ---------------------------------------------------------------------------
// Laws
// ---------------------------------------------------------------------------

/// Every vulnerability kept for a package ranks at or above the threshold.
pub proof fn lemma_advisory_entries_meet_threshold(
    pkg: InstalledPackage,
    vulns: Seq<Json>,
    threshold: u8,
)
    ensures
        forall|j: int|
            0 <= j < advisory_entries(pkg, vulns, threshold).len() ==> level_of(
                #[trigger] advisory_entries(pkg, vulns, threshold)[j].severity,
            ) >= threshold,
    decreases vulns.len(),
{
    if vulns.len() > 0 {
        lemma_advisory_entries_meet_threshold(pkg, vulns.drop_last(), threshold);
    }
}

/// A report never holds a vulnerability ranked below the requested
/// severity threshold, and every entry belongs to one of the scanned
/// packages.
pub proof fn lemma_report_meets_threshold(
    pkgs: Seq<InstalledPackage>,
    results: Seq<Json>,
    threshold: u8,
    n: nat,
)
    requires
        n <= pkgs.len(),
    ensures
        forall|j: int|
            0 <= j < report_entries(pkgs, results, threshold, n).len() ==> level_of(
                #[trigger] report_entries(pkgs, results, threshold, n)[j].severity,
            ) >= threshold && exists|k: int|
                0 <= k < n && pkgs[k].name@ == report_entries(pkgs, results, threshold, n)[j].package,
    decreases n,
{
    if n > 0 {
        let m = (n - 1) as nat;
        lemma_report_meets_threshold(pkgs, results, threshold, m);
        lemma_advisory_entries_meet_threshold(pkgs[m as int], vulns_of(results[m as int]), threshold);
        lemma_advisory_entries_package(pkgs[m as int], vulns_of(results[m as int]), threshold);
        let prev = report_entries(pkgs, results, threshold, m);
        let here = advisory_entries(pkgs[m as int], vulns_of(results[m as int]), threshold);
        assert forall|j: int| 0 <= j < (prev + here).len() implies level_of(
            #[trigger] (prev + here)[j].severity,
        ) >= threshold && exists|k: int| 0 <= k < n && pkgs[k].name@ == (prev + here)[j].package by {
            if j < prev.len() {
                assert((prev + here)[j] == prev[j]);
                assert(level_of(prev[j].severity) >= threshold);
                let k = choose|k: int| 0 <= k < m && pkgs[k].name@ == prev[j].package;
                assert(0 <= k < n && pkgs[k].name@ == (prev + here)[j].package);
            } else {
                assert((prev + here)[j] == here[j - prev.len()]);
                assert(pkgs[m as int].name@ == (prev + here)[j].package);
            }
        }
    }
}

/// Every advisory of a package that ranks at or above the threshold is
/// reported for it.
pub proof fn lemma_advisory_entries_complete(pkg: InstalledPackage, vulns: Seq<Json>, threshold: u8)
    ensures
        forall|j: int|
            0 <= j < vulns.len() && level_of(advisory_severity(#[trigger] vulns[j])) >= threshold
                ==> advisory_entries(pkg, vulns, threshold).contains(entry_for(pkg, vulns[j])),
    decreases vulns.len(),
{
    if vulns.len() > 0 {
        let d = vulns.drop_last();
        lemma_advisory_entries_complete(pkg, d, threshold);
        let prev = advisory_entries(pkg, d, threshold);
        assert forall|j: int|
            0 <= j < vulns.len() && level_of(advisory_severity(#[trigger] vulns[j])) >= threshold
                implies advisory_entries(pkg, vulns, threshold).contains(entry_for(pkg, vulns[j])) by {
            if j < vulns.len() - 1 {
                assert(vulns[j] == d[j]);
                assert(prev.contains(entry_for(pkg, d[j])));
                let k = choose|k: int| 0 <= k < prev.len() && prev[k] == entry_for(pkg, d[j]);
                if level_of(advisory_severity(vulns.last())) >= threshold {
                    assert(prev.push(entry_for(pkg, vulns.last()))[k] == prev[k]);
                }
            } else {
                assert(vulns[j] == vulns.last());
                let full = prev.push(entry_for(pkg, vulns.last()));
                assert(full[prev.len() as int] == entry_for(pkg, vulns.last()));
            }
        }
    }
}

/// A report is complete: for every scanned package that has an OSV result,
/// each of its advisories ranked at or above the threshold is in the
/// report, for that package.
pub proof fn lemma_report_complete(pkgs: Seq<InstalledPackage>, results: Seq<Json>, threshold: u8, n: nat)
    ensures
        forall|i: int, j: int|
            0 <= i < n && 0 <= j < vulns_of(results[i]).len() && level_of(
                advisory_severity(#[trigger] vulns_of(results[i])[j]),
            ) >= threshold ==> report_entries(pkgs, results, threshold, n).contains(
                entry_for(pkgs[i], vulns_of(results[i])[j]),
            ),
    decreases n,
{
    if n > 0 {
        let m = (n - 1) as nat;
        lemma_report_complete(pkgs, results, threshold, m);
        lemma_advisory_entries_complete(pkgs[m as int], vulns_of(results[m as int]), threshold);
        let prev = report_entries(pkgs, results, threshold, m);
        let here = advisory_entries(pkgs[m as int], vulns_of(results[m as int]), threshold);
        assert forall|i: int, j: int|
            0 <= i < n && 0 <= j < vulns_of(results[i]).len() && level_of(
                advisory_severity(#[trigger] vulns_of(results[i])[j]),
            ) >= threshold implies (prev + here).contains(entry_for(pkgs[i], vulns_of(results[i])[j])) by {
            let e = entry_for(pkgs[i], vulns_of(results[i])[j]);
            if i < m {
                assert(prev.contains(e));
                let k = choose|k: int| 0 <= k < prev.len() && prev[k] == e;
                assert((prev + here)[k] == e);
            } else {
                assert(i == m);
                assert(here.contains(e));
                let k = choose|k: int| 0 <= k < here.len() && here[k] == e;
                assert((prev + here)[prev.len() + k] == e);
            }
        }
    }
}

/// Every entry reported for a package names that package.
pub proof fn lemma_advisory_entries_package(pkg: InstalledPackage, vulns: Seq<Json>, threshold: u8)
    ensures
        forall|j: int|
            0 <= j < advisory_entries(pkg, vulns, threshold).len() ==> (#[trigger] advisory_entries(
                pkg,
                vulns,
                threshold,
            )[j]).package == pkg.name@,
    decreases vulns.len(),
{
    if vulns.len() > 0 {
        lemma_advisory_entries_package(pkg, vulns.drop_last(), threshold);
    }
}

/// The highest level of a report is absent exactly when the report is
/// empty, and is at least the level of every vulnerability in it.
pub proof fn lemma_highest_level_bounds(vs: Seq<VulnerabilityView>)
    ensures
        highest_level(vs) is None <==> vs.len() == 0,
        forall|j: int|
            0 <= j < vs.len() ==> highest_level(vs)->0 >= level_of(#[trigger] vs[j].severity),
        vs.len() > 0 ==> exists|j: int|
            0 <= j < vs.len() && highest_level(vs)->0 == level_of(vs[j].severity),
    decreases vs.len(),
{
    if vs.len() > 0 {
        let p = vs.drop_last();
        lemma_highest_level_bounds(p);
        assert forall|j: int| 0 <= j < vs.len() implies highest_level(vs)->0 >= level_of(
            #[trigger] vs[j].severity,
        ) by {
            if j < p.len() {
                assert(vs[j] == p[j]);
            }
        }
        if p.len() > 0 {
            let j0 = choose|j: int| 0 <= j < p.len() && highest_level(p)->0 == level_of(p[j].severity);
            assert(vs[j0] == p[j0]);
            assert(vs[vs.len() - 1] == vs.last());
        } else {
            assert(vs[vs.len() - 1] == vs.last());
        }
    }
}

/// Counting one severity never exceeds the number of vulnerabilities.
pub proof fn lemma_count_severity_bounded(vs: Seq<VulnerabilityView>, sev: Seq<char>)
    ensures
        count_severity(vs, sev) <= vs.len(),
    decreases vs.len(),
{
    if vs.len() > 0 {
        lemma_count_severity_bounded(vs.drop_last(), sev);
    }
}

// ---------------------------------------------------------------------------
// pip and OSV documents
// ---------------------------------------------------------------------------

/// The packages a `pip list --format=json` document lists: one per element
/// of the top-level array, its `name` and `version` (empty when missing);
/// none when the document is not an array.
pub open spec fn listed_packages(doc: Json) -> Seq<(Seq<char>, Seq<char>)> {
    match as_array(doc) {
        Some(items) => items.map_values(|p: Json| (str_or_empty(p, "name"@), str_or_empty(p, "version"@))),
        None => Seq::empty(),
    }
}

fn str_member(j: &Json, key: &str) -> (r: String)
    ensures
        r@ == str_or_empty(*j, key@),
{
    match json_get_str(j, key) {
        Some(s) => String::from_str(s),
        None => String::new(),
    }
}

/// Read the installed packages from the output of `pip list --format=json`.
pub fn installed_packages_from(doc: &Json) -> (r: Vec<InstalledPackage>)
    ensures
        r@.map_values(|p: InstalledPackage| (p.name@, p.version@)) == listed_packages(*doc),
{
    let mut out: Vec<InstalledPackage> = Vec::new();
    match doc {
        Json::Array(items) => {
            let mut i: usize = 0;
            while i < items.len()
                invariant
                    0 <= i <= items.len(),
                    *doc == Json::Array(*items),
                    out@.len() == i,
                    forall|k: int|
                        0 <= k < i ==> (#[trigger] out@[k]).name@ == str_or_empty(items@[k], "name"@)
                            && out@[k].version@ == str_or_empty(items@[k], "version"@),
                decreases items.len() - i,
            {
                let name = str_member(&items[i], "name");
                let version = str_member(&items[i], "version");
                out.push(InstalledPackage { name, version });
                i = i + 1;
            }
            assert(out@.map_values(|p: InstalledPackage| (p.name@, p.version@)) =~= listed_packages(*doc));
        },
        _ => {
            assert(out@.map_values(|p: InstalledPackage| (p.name@, p.version@)) =~= listed_packages(*doc));
        },
    }
    out
}

/// `q` is the OSV query for package `p`:
/// `{"version": .., "package": {"name": .., "ecosystem": "PyPI"}}`.
pub open spec fn is_query_for(q: Json, p: InstalledPackage) -> bool {
    &&& get_str(q, "version"@) == Some(p.version@)
    &&& get(q, "package"@) matches Some(pkg) && get_str(pkg, "name"@) == Some(p.name@) && get_str(
        pkg,
        "ecosystem"@,
    ) == Some("PyPI"@)
}

fn member(key: &str, value: Json) -> (r: (String, Json))
    ensures
        r.0@ == key@,
        r.1 == value,
{
    (String::from_str(key), value)
}

fn query_for(p: &InstalledPackage) -> (q: Json)
    ensures
        is_query_for(q, *p),
{
    let mut pkg: Vec<(String, Json)> = Vec::new();
    pkg.push(member("name", Json::Str(p.name.clone())));
    pkg.push(member("ecosystem", Json::Str(String::from_str("PyPI"))));
    let mut q: Vec<(String, Json)> = Vec::new();
    q.push(member("version", Json::Str(p.version.clone())));
    q.push(member("package", Json::Object(pkg)));
    proof {
        reveal_strlit("version");
        reveal_strlit("package");
        reveal_strlit("name");
        reveal_strlit("ecosystem");
        assert("version"@[0] != "package"@[0]);
        assert("name"@.len() != "ecosystem"@.len());
        assert(lookup(q@.drop_first(), "package"@) == Some(q@[1].1));
        assert(lookup(pkg@.drop_first(), "ecosystem"@) == Some(pkg@[1].1));
    }
    Json::Object(q)
}

/// The body of an OSV `querybatch` request for `packages`:
/// `{"queries": [...]}` with one query per package, in order.
pub fn osv_query_body(packages: &[InstalledPackage]) -> (r: Json)
    ensures
        get_array(r, "queries"@) matches Some(qs) && qs.len() == packages@.len() && forall|i: int|
            0 <= i < qs.len() ==> is_query_for(#[trigger] qs[i], packages@[i]),
{
    let mut qs: Vec<Json> = Vec::new();
    let mut i: usize = 0;
    while i < packages.len()
        invariant
            0 <= i <= packages.len(),
            qs@.len() == i,
            forall|k: int| 0 <= k < i ==> is_query_for(#[trigger] qs@[k], packages@[k]),
        decreases packages.len() - i,
    {
        qs.push(query_for(&packages[i]));
        i = i + 1;
    }
    let mut body: Vec<(String, Json)> = Vec::new();
    body.push(member("queries", Json::Array(qs)));
    Json::Object(body)
}

// ---------------------------------------------------------------------------
// Case
// ---------------------------------------------------------------------------

proof fn lemma_ascii_case_maps(s: Seq<char>)
    requires
        all_ascii(s),
    ensures
        all_ascii(s.map_values(|c: char| ascii_lower(c))),
        all_ascii(s.map_values(|c: char| ascii_upper(c))),
        s.map_values(|c: char| ascii_lower(c)).map_values(|c: char| ascii_lower(c)) == s.map_values(
            |c: char| ascii_lower(c),
        ),
        s.map_values(|c: char| ascii_upper(c)).map_values(|c: char| ascii_lower(c)) == s.map_values(
            |c: char| ascii_lower(c),
        ),
        s.map_values(|c: char| ascii_upper(c)).map_values(|c: char| ascii_upper(c)) == s.map_values(
            |c: char| ascii_upper(c),
        ),
        s.map_values(|c: char| ascii_lower(c)).map_values(|c: char| ascii_upper(c)) == s.map_values(
            |c: char| ascii_upper(c),
        ),
{
    assert forall|i: int| 0 <= i < s.len() implies {
        let c = #[trigger] s[i];
        &&& (ascii_lower(c) as u32) < 128
        &&& (ascii_upper(c) as u32) < 128
        &&& ascii_lower(ascii_lower(c)) == ascii_lower(c)
        &&& ascii_lower(ascii_upper(c)) == ascii_lower(c)
        &&& ascii_upper(ascii_upper(c)) == ascii_upper(c)
        &&& ascii_upper(ascii_lower(c)) == ascii_upper(c)
    } by {
        let c = s[i];
        if 'A' <= c && c <= 'Z' {
            assert(((c as u32) + 32) as char as u32 == (c as u32) + 32);
        }
        if 'a' <= c && c <= 'z' {
            assert(((c as u32) - 32) as char as u32 == (c as u32) - 32);
        }
    }
    assert(s.map_values(|c: char| ascii_lower(c)).map_values(|c: char| ascii_lower(c)) =~= s.map_values(
        |c: char| ascii_lower(c),
    ));
    assert(s.map_values(|c: char| ascii_upper(c)).map_values(|c: char| ascii_lower(c)) =~= s.map_values(
        |c: char| ascii_lower(c),
    ));
    assert(s.map_values(|c: char| ascii_upper(c)).map_values(|c: char| ascii_upper(c)) =~= s.map_values(
        |c: char| ascii_upper(c),
    ));
    assert(s.map_values(|c: char| ascii_lower(c)).map_values(|c: char| ascii_upper(c)) =~= s.map_values(
        |c: char| ascii_upper(c),
    ));
}

/// Severity ranking and normalisation ignore ASCII case: a severity ranks,
/// and normalises, the same as its lower-case and its upper-case form.
pub proof fn lemma_severity_ignores_ascii_case(s: Seq<char>)
    requires
        all_ascii(s),
    ensures
        level_of(s) == level_of(s.map_values(|c: char| ascii_lower(c))),
        level_of(s) == level_of(s.map_values(|c: char| ascii_upper(c))),
        normalized(s) == normalized(s.map_values(|c: char| ascii_lower(c))),
        normalized(s) == normalized(s.map_values(|c: char| ascii_upper(c))),
{
    lemma_ascii_case_maps(s);
}


/// The OSV endpoint the scan queries.
pub open spec fn osv_url(env_override: Option<Seq<char>>) -> Seq<char> {
    match env_override {
        Some(u) => u,
        None => "https://api.osv.dev/v1/querybatch"@,
    }
}

/// Default OSV endpoint, overridable via `PYBUN_OSV_URL`; `env_override`
/// is that variable's value when it is set.
pub fn default_osv_url(env_override: Option<&str>) -> (r: String)
    ensures
        r@ == osv_url(
            match env_override {
                Some(u) => Some(u@),
                None => None,
            },
        ),
{
    match env_override {
        Some(u) => String::from_str(u),
        None => String::from_str("https://api.osv.dev/v1/querybatch"),
    }
}

} // verus!
