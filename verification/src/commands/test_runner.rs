//! `pybun test`: compatibility hints and diagnostics, shard parsing, test
//! selection and sharding, and the normalisation of captured output before it
//! is compared with a snapshot, and the plan of a test run.

use vstd::prelude::*;
use crate::cache::size::{parse_u64, parse_u64_chars};
use crate::cli::{TestArgs, TestBackend};
use crate::commands::diagnostics::{Diagnostic, DiagnosticLevel};
use crate::text::{
    append_chars, contains, contains_chars, char_is_ws, chars_eq_str, chars_of, dec, dec_chars, find, find_chars, is_digit, is_ws,
    lemma_split_on_nonempty, occurs_at, opt_view, rfind, rfind_chars, rfind_to, slice_chars, split_char, split_on,
    string_of, views,
};

verus! {

// ---------------------------------------------------------------------------
// Compatibility hints and diagnostics
// ---------------------------------------------------------------------------

/// The hint shown for a pytest compatibility warning code, if it has one.
pub open spec fn pytest_compat_hint(code: Seq<char>) -> Option<Seq<char>> {
    if code == "W001"@ {
        Some("Consider using --backend pytest for session/package scoped fixtures"@)
    } else if code == "W002"@ {
        Some("This decorator requires the pytest backend to function correctly"@)
    } else if code == "I001"@ {
        Some("Parametrized tests will be expanded during discovery"@)
    } else if code == "W003"@ {
        Some("This fixture pattern may require pytest plugins"@)
    } else if code == "W004"@ {
        Some("Async fixtures require pytest-asyncio or similar"@)
    } else {
        None
    }
}

/// The text of an optional string slice.
pub open spec fn opt_str_view(o: Option<&str>) -> Option<Seq<char>> {
    match o {
        Some(s) => Some(s@),
        None => None,
    }
}

/// Get a hint message for a pytest compatibility warning code.
pub fn get_pytest_compat_hint(code: &str) -> (r: Option<&'static str>)
    ensures
        opt_str_view(r) == pytest_compat_hint(code@),
{
    let c = chars_of(code);
    if chars_eq_str(c.as_slice(), "W001") {
        Some("Consider using --backend pytest for session/package scoped fixtures")
    } else if chars_eq_str(c.as_slice(), "W002") {
        Some("This decorator requires the pytest backend to function correctly")
    } else if chars_eq_str(c.as_slice(), "I001") {
        Some("Parametrized tests will be expanded during discovery")
    } else if chars_eq_str(c.as_slice(), "W003") {
        Some("This fixture pattern may require pytest plugins")
    } else if chars_eq_str(c.as_slice(), "W004") {
        Some("Async fixtures require pytest-asyncio or similar")
    } else {
        None
    }
}

/// How serious a discovery-time compatibility warning is.
#[derive(Debug, Clone, Copy, PartialEq, Eq, Structural)]
pub enum WarningSeverity {
    Error,
    Warning,
    Info,
}

/// A pytest feature found during discovery that the native executor may not
/// fully emulate.
#[derive(Debug, Clone)]
pub struct CompatWarning {
    pub code: String,
    pub message: String,
    pub path: String,
    pub line: usize,
    pub severity: WarningSeverity,
}

/// The diagnostic level of a warning severity.
pub open spec fn level_of_severity(s: WarningSeverity) -> DiagnosticLevel {
    match s {
        WarningSeverity::Error => DiagnosticLevel::Error,
        WarningSeverity::Warning => DiagnosticLevel::Warning,
        WarningSeverity::Info => DiagnosticLevel::Info,
    }
}

/// What the native-backend diagnostic appends to the warning's message.
pub open spec fn native_backend_note() -> Seq<char> {
    " (the native --backend=pybun executor may not fully emulate this pytest feature)"@
}

/// What the native-backend diagnostic suggests.
pub open spec fn native_backend_suggestion() -> Seq<char> {
    "Run with --backend=pytest if this project relies on pytest plugins, advanced fixtures, or other features the native executor doesn't fully emulate"@
}

/// Convert a discovery-time compat warning into a structured diagnostic that
/// is specific to having chosen `--backend=pybun`: the warning's code behind
/// a `W_TEST_BACKEND_COMPAT_` prefix, its message with a note on the native
/// executor, its place, and a suggestion to run with `--backend=pytest`.
pub fn native_backend_compat_diagnostic(warning: &CompatWarning) -> (d: Diagnostic)
    ensures
        d.level == level_of_severity(warning.severity),
        opt_view(d.code) == Some("W_TEST_BACKEND_COMPAT_"@ + warning.code@),
        d.message@ == warning.message@ + native_backend_note(),
        opt_view(d.file) == Some(warning.path@),
        d.line == Some(warning.line as u32),
        opt_view(d.suggestion) == Some(native_backend_suggestion()),
        d.context is None,
{
    let level = match warning.severity {
        WarningSeverity::Error => DiagnosticLevel::Error,
        WarningSeverity::Warning => DiagnosticLevel::Warning,
        WarningSeverity::Info => DiagnosticLevel::Info,
    };
    let code = String::from_str("W_TEST_BACKEND_COMPAT_").concat(warning.code.as_str());
    let message = warning.message.clone().concat(
        " (the native --backend=pybun executor may not fully emulate this pytest feature)",
    );
    Diagnostic {
        level,
        code: Some(code),
        message,
        file: Some(warning.path.clone()),
        line: Some(warning.line as u32),
        suggestion: Some(
            String::from_str(
                "Run with --backend=pytest if this project relies on pytest plugins, advanced fixtures, or other features the native executor doesn't fully emulate",
            ),
        ),
        context: None,
    }
}

/// The diagnostic that `--pytest-compat` reports for a compatibility
/// warning: the warning as it is, with the code's hint as the suggestion.
pub fn pytest_compat_diagnostic(warning: &CompatWarning) -> (d: Diagnostic)
    ensures
        d.level == level_of_severity(warning.severity),
        opt_view(d.code) == Some(warning.code@),
        d.message@ == warning.message@,
        opt_view(d.file) == Some(warning.path@),
        d.line == Some(warning.line as u32),
        opt_view(d.suggestion) == pytest_compat_hint(warning.code@),
        d.context is None,
{
    let level = match warning.severity {
        WarningSeverity::Error => DiagnosticLevel::Error,
        WarningSeverity::Warning => DiagnosticLevel::Warning,
        WarningSeverity::Info => DiagnosticLevel::Info,
    };
    let suggestion = match get_pytest_compat_hint(warning.code.as_str()) {
        Some(h) => Some(String::from_str(h)),
        None => None,
    };
    Diagnostic {
        level,
        code: Some(warning.code.clone()),
        message: warning.message.clone(),
        file: Some(warning.path.clone()),
        line: Some(warning.line as u32),
        suggestion,
        context: None,
    }
}

/// `d` is the native-backend diagnostic of `w`.
pub open spec fn is_native_diagnostic(d: Diagnostic, w: CompatWarning) -> bool {
    &&& d.level == level_of_severity(w.severity)
    &&& opt_view(d.code) == Some("W_TEST_BACKEND_COMPAT_"@ + w.code@)
    &&& d.message@ == w.message@ + native_backend_note()
    &&& opt_view(d.file) == Some(w.path@)
    &&& d.line == Some(w.line as u32)
    &&& opt_view(d.suggestion) == Some(native_backend_suggestion())
    &&& d.context is None
}

/// `d` is the `--pytest-compat` diagnostic of `w`.
pub open spec fn is_pytest_diagnostic(d: Diagnostic, w: CompatWarning) -> bool {
    &&& d.level == level_of_severity(w.severity)
    &&& opt_view(d.code) == Some(w.code@)
    &&& d.message@ == w.message@
    &&& opt_view(d.file) == Some(w.path@)
    &&& d.line == Some(w.line as u32)
    &&& opt_view(d.suggestion) == pytest_compat_hint(w.code@)
    &&& d.context is None
}

/// `r` holds the diagnostics a run reports for `warnings` (see
/// [`compat_diagnostics`]).
pub open spec fn are_compat_diagnostics(r: Seq<Diagnostic>, warnings: Seq<CompatWarning>, native: bool, pytest_compat: bool) -> bool {
    let n = if native { warnings.len() } else { 0 };
    let m = if pytest_compat { warnings.len() } else { 0 };
    &&& r.len() == n + m
    &&& forall|i: int| 0 <= i < n ==> is_native_diagnostic(#[trigger] r[i], warnings[i])
    &&& forall|i: int| 0 <= i < m ==> is_pytest_diagnostic(#[trigger] r[n + i], warnings[i])
}

/// The diagnostics a test run reports for the compatibility warnings of
/// discovery: with the native backend, one native-backend diagnostic per
/// warning; then, with `--pytest-compat`, one plain diagnostic per warning.
pub fn compat_diagnostics(warnings: &[CompatWarning], native_backend: bool, pytest_compat: bool) -> (r: Vec<Diagnostic>)
    ensures
        are_compat_diagnostics(r@, warnings@, native_backend, pytest_compat),
{
    let mut out: Vec<Diagnostic> = Vec::new();
    if native_backend {
        let mut i: usize = 0;
        while i < warnings.len()
            invariant
                0 <= i <= warnings.len(),
                out@.len() == i,
                forall|j: int| 0 <= j < i ==> is_native_diagnostic(#[trigger] out@[j], warnings@[j]),
            decreases warnings.len() - i,
        {
            out.push(native_backend_compat_diagnostic(&warnings[i]));
            i = i + 1;
        }
    }
    let n = out.len();
    if pytest_compat {
        let mut i: usize = 0;
        while i < warnings.len()
            invariant
                0 <= i <= warnings.len(),
                out@.len() == n + i,
                n == (if native_backend { warnings@.len() } else { 0 }),
                forall|j: int| 0 <= j < n ==> is_native_diagnostic(#[trigger] out@[j], warnings@[j]),
                forall|j: int| 0 <= j < i ==> is_pytest_diagnostic(#[trigger] out@[n + j], warnings@[j]),
            decreases warnings.len() - i,
        {
            out.push(pytest_compat_diagnostic(&warnings[i]));
            i = i + 1;
        }
    }
    out
}

/// `d` warns that the snapshot of test `name` in `path`, which passed only
/// after `retries` retries, was taken from its last attempt.
pub open spec fn is_flaky_snapshot_warning(d: Diagnostic, path: Seq<char>, name: Seq<char>, retries: u32, line: usize) -> bool {
    &&& d.level == DiagnosticLevel::Warning
    &&& opt_view(d.code) == Some("W_SNAPSHOT_FLAKY_RETRY"@)
    &&& d.message@ == path + "::"@ + name + " passed only after "@ + dec(retries as nat) + " retr"@ + (if retries
        == 1 {
        "y"@
    } else {
        "ies"@
    })
        + " \u{2014} its snapshot reflects the final attempt's output, which may not be reproducible"@
    &&& opt_view(d.file) == Some(path)
    &&& d.line == (if line <= u32::MAX {
        Some(line as u32)
    } else {
        None
    })
    &&& opt_view(d.suggestion) == Some(
        "Investigate test flakiness before relying on this snapshot as a stable baseline"@,
    )
    &&& d.context is None
}

/// The warning for a snapshot recorded from a test that needed retries.
pub fn flaky_snapshot_diagnostic(path: &str, name: &str, retries: u32, line: usize) -> (d: Diagnostic)
    ensures
        is_flaky_snapshot_warning(d, path@, name@, retries, line),
{
    let n = dec_chars(retries as u128);
    let ending = if retries == 1 {
        "y"
    } else {
        "ies"
    };
    let message = String::from_str(path).concat("::").concat(name).concat(" passed only after ").concat(
        string_of(n.as_slice()).as_str(),
    ).concat(" retr").concat(ending).concat(
        " \u{2014} its snapshot reflects the final attempt's output, which may not be reproducible",
    );
    let line_no = if line <= 4294967295usize {
        Some(line as u32)
    } else {
        None
    };
    Diagnostic {
        level: DiagnosticLevel::Warning,
        code: Some(String::from_str("W_SNAPSHOT_FLAKY_RETRY")),
        message,
        file: Some(String::from_str(path)),
        line: line_no,
        suggestion: Some(
            String::from_str("Investigate test flakiness before relying on this snapshot as a stable baseline"),
        ),
        context: None,
    }
}

// ---------------------------------------------------------------------------
// Shards
// ---------------------------------------------------------------------------

/// `u32::from_str`: an optional `+` and decimal digits whose value fits.
pub open spec fn parse_u32(s: Seq<char>) -> Option<u32> {
    match parse_u64(s) {
        Some(v) => if v <= u32::MAX {
            Some(v as u32)
        } else {
            None
        },
        None => None,
    }
}

/// The shard `N/M` that a `--shard` value names, or why it is refused.
pub open spec fn shard_spec(s: Seq<char>) -> Result<(u32, u32), Seq<char>> {
    let parts = split_on(s, '/');
    if parts.len() != 2 {
        Err("invalid shard format '"@ + s + "': expected N/M (e.g., 1/4)"@)
    } else {
        match parse_u32(parts[0]) {
            None => Err("invalid shard number '"@ + parts[0] + "': must be a positive integer"@),
            Some(n) => match parse_u32(parts[1]) {
                None => Err("invalid shard total '"@ + parts[1] + "': must be a positive integer"@),
                Some(m) => if n == 0 || m == 0 {
                    Err("shard values must be greater than 0"@)
                } else if n > m {
                    Err("shard "@ + dec(n as nat) + " cannot be greater than total "@ + dec(m as nat))
                } else {
                    Ok((n, m))
                },
            },
        }
    }
}

fn parse_u32_chars(s: &[char]) -> (r: Option<u32>)
    ensures
        r == parse_u32(s@),
{
    match parse_u64_chars(s) {
        Some(v) => if v <= 4294967295u64 {
            Some(v as u32)
        } else {
            None
        },
        None => None,
    }
}

/// Parse shard specification (N/M format).
pub fn parse_shard(shard: &str) -> (r: Result<(u32, u32), String>)
    ensures
        match r {
            Ok(p) => shard_spec(shard@) == Ok::<(u32, u32), Seq<char>>(p),
            Err(msg) => shard_spec(shard@) == Err::<(u32, u32), Seq<char>>(msg@),
        },
{
    let s = chars_of(shard);
    let parts = split_char(s.as_slice(), '/');
    assert(views(parts@).len() == parts@.len());
    if parts.len() != 2 {
        let m = String::from_str("invalid shard format '").concat(shard);
        return Err(m.concat("': expected N/M (e.g., 1/4)"));
    }
    assert(views(parts@)[0] == parts@[0]@);
    assert(views(parts@)[1] == parts@[1]@);
    let n = match parse_u32_chars(parts[0].as_slice()) {
        Some(n) => n,
        None => {
            let p = string_of(parts[0].as_slice());
            let m = String::from_str("invalid shard number '").concat(p.as_str());
            return Err(m.concat("': must be a positive integer"));
        },
    };
    let m = match parse_u32_chars(parts[1].as_slice()) {
        Some(m) => m,
        None => {
            let p = string_of(parts[1].as_slice());
            let e = String::from_str("invalid shard total '").concat(p.as_str());
            return Err(e.concat("': must be a positive integer"));
        },
    };
    if n == 0 || m == 0 {
        return Err(String::from_str("shard values must be greater than 0"));
    }
    if n > m {
        let nd = dec_chars(n as u128);
        let md = dec_chars(m as u128);
        let e = String::from_str("shard ").concat(string_of(nd.as_slice()).as_str());
        let e = e.concat(" cannot be greater than total ");
        return Err(e.concat(string_of(md.as_slice()).as_str()));
    }
    Ok((n, m))
}

proof fn lemma_split_extend(x: Seq<char>, b: Seq<char>, sep: char)
    requires
        forall|i: int| 0 <= i < b.len() ==> b[i] != sep,
    ensures
        split_on(x + b, sep) == split_on(x, sep).update(
            split_on(x, sep).len() - 1,
            split_on(x, sep).last() + b,
        ),
    decreases b.len(),
{
    lemma_split_on_nonempty(x, sep);
    if b.len() == 0 {
        assert(x + b =~= x);
        assert(split_on(x, sep).last() + b =~= split_on(x, sep).last());
        assert(split_on(x, sep).update(split_on(x, sep).len() - 1, split_on(x, sep).last()) =~= split_on(
            x,
            sep,
        ));
    } else {
        lemma_split_extend(x, b.drop_last(), sep);
        assert((x + b).drop_last() =~= x + b.drop_last());
        assert((x + b).last() == b.last());
        let p = split_on(x, sep);
        assert((p.last() + b.drop_last()).push(b.last()) =~= p.last() + b);
        assert(split_on(x + b, sep) =~= p.update(p.len() - 1, p.last() + b));
    }
}

/// A `--shard` value written as `N/M`, with `1 <= N <= M`, names shard `N`
/// of `M`.
pub proof fn lemma_shard_text_round_trip(n: u32, m: u32)
    requires
        1 <= n <= m,
    ensures
        shard_spec(dec(n as nat) + seq!['/'] + dec(m as nat)) == Ok::<(u32, u32), Seq<char>>((n, m)),
{
    let a = dec(n as nat);
    let b = dec(m as nat);
    crate::cache::size::lemma_dec_digits(n as nat);
    crate::cache::size::lemma_dec_digits(m as nat);
    assert forall|i: int| 0 <= i < a.len() implies a[i] != '/' by {
        assert(is_digit(a[i]));
    }
    assert forall|i: int| 0 <= i < b.len() implies b[i] != '/' by {
        assert(is_digit(b[i]));
    }
    lemma_split_extend(Seq::empty(), a, '/');
    assert(Seq::<char>::empty() + a =~= a);
    assert(split_on(a, '/') =~= seq![a]);
    assert((a + seq!['/']).drop_last() =~= a);
    assert(split_on(a + seq!['/'], '/') =~= seq![a, Seq::<char>::empty()]);
    lemma_split_extend(a + seq!['/'], b, '/');
    assert(split_on(a + seq!['/'] + b, '/') =~= seq![a, b]);
    assert(a[0] != '+');
    assert(b[0] != '+');
}

/// A shard that is accepted is one of the shards there are: `1 <= N <= M`.
pub proof fn lemma_accepted_shard_in_range(s: Seq<char>)
    ensures
        shard_spec(s) matches Ok((n, m)) ==> 1 <= n <= m,
{
}

// ---------------------------------------------------------------------------
// Selection and sharding
// ---------------------------------------------------------------------------

/// A test found by discovery.
#[derive(Debug, Clone)]
pub struct TestItem {
    /// The full name, e.g. `test_file.py::TestClass::test_method`.
    pub name: String,
    /// The function name alone.
    pub short_name: String,
    pub path: String,
    pub line: usize,
    pub class_name: Option<String>,
    pub skipped: bool,
}

/// A test matches a `-k` pattern when its name, short name or class name
/// contains it.
pub open spec fn test_matches(t: TestItem, pattern: Seq<char>) -> bool {
    contains(t.name@, pattern) || contains(t.short_name@, pattern) || match t.class_name {
        Some(c) => contains(c@, pattern),
        None => false,
    }
}

/// The tests of `tests` that match `pattern`, in their order.
pub open spec fn matching_tests(tests: Seq<TestItem>, pattern: Seq<char>) -> Seq<TestItem> {
    tests.filter(|t: TestItem| test_matches(t, pattern))
}

fn matches_pattern(t: &TestItem, pat: &[char]) -> (b: bool)
    ensures
        b == test_matches(*t, pat@),
{
    if contains_chars(t.name.as_str(), pat) {
        return true;
    }
    if contains_chars(t.short_name.as_str(), pat) {
        return true;
    }
    match &t.class_name {
        Some(c) => contains_chars(c.as_str(), pat),
        None => false,
    }
}

/// Filter tests by name pattern.
pub fn filter_tests(tests: Vec<TestItem>, pattern: &str) -> (r: Vec<TestItem>)
    ensures
        r@ == matching_tests(tests@, pattern@),
{
    let pat = chars_of(pattern);
    let ghost all = tests@;
    let mut out: Vec<TestItem> = Vec::new();
    proof {
        reveal(Seq::filter);
    }
    for t in it: tests.into_iter()
        invariant
            it.seq() == all,
            out@ == matching_tests(all.take(it.index() as int), pattern@),
            pat@ == pattern@,
    {
        let ghost k = it.index();
        assert(all.take(k + 1).drop_last() =~= all.take(k as int));
        proof {
            reveal(Seq::filter);
        }
        if matches_pattern(&t, pat.as_slice()) {
            out.push(t);
        }
    }
    assert(all.take(all.len() as int) =~= all);
    out
}

/// The shard (counted from 1) of the test at position `i` among `m` shards:
/// the position is taken as a `u32`, as the count is kept in one.
pub open spec fn shard_of(i: int, m: int) -> int {
    (i % 0x1_0000_0000) % m + 1
}

/// The tests of `tests` that fall in shard `n` of `m`, in their order.
pub open spec fn shard_slice(tests: Seq<TestItem>, n: int, m: int) -> Seq<TestItem>
    decreases tests.len(),
{
    if tests.len() == 0 {
        tests
    } else {
        let before = shard_slice(tests.drop_last(), n, m);
        if shard_of(tests.len() - 1, m) == n {
            before.push(tests.last())
        } else {
            before
        }
    }
}

/// Apply sharding to tests: keep the tests whose position falls in shard
/// `shard_n` of `shard_m`.
pub fn shard_tests(tests: Vec<TestItem>, shard_n: u32, shard_m: u32) -> (r: Vec<TestItem>)
    requires
        shard_m > 0,
    ensures
        r@ == shard_slice(tests@, shard_n as int, shard_m as int),
{
    let ghost all = tests@;
    let mut out: Vec<TestItem> = Vec::new();
    let mut k: usize = 0;
    let n = tests.len();
    assert(all.take(0) =~= Seq::<TestItem>::empty());
    for t in it: tests.into_iter()
        invariant
            it.seq() == all,
            all.len() == n,
            k == it.index(),
            shard_m > 0,
            out@ == shard_slice(all.take(k as int), shard_n as int, shard_m as int),
    {
        assert(all.take(k + 1).drop_last() =~= all.take(k as int));
        assert(k < n);
        let pos = #[verifier::truncate] (k as u32);
        assert(k as u32 == (k as u64) % 0x1_0000_0000u64) by (bit_vector);
        if pos % shard_m + 1 == shard_n {
            out.push(t);
        }
        k = k + 1;
    }
    assert(all.take(k as int) =~= all);
    out
}

/// The number of tests in shards `1..=k` of `m`.
pub open spec fn shard_total(tests: Seq<TestItem>, m: int, k: int) -> int
    decreases k,
{
    if k <= 0 {
        0
    } else {
        shard_total(tests, m, k - 1) + shard_slice(tests, k, m).len()
    }
}

proof fn lemma_shard_total_step(tests: Seq<TestItem>, m: int, k: int)
    requires
        tests.len() > 0,
        m > 0,
    ensures
        shard_total(tests, m, k) == shard_total(tests.drop_last(), m, k) + (if 1 <= shard_of(
            tests.len() - 1,
            m,
        ) <= k {
            1int
        } else {
            0int
        }),
    decreases k,
{
    if k > 0 {
        lemma_shard_total_step(tests, m, k - 1);
    }
}

/// The positions, in increasing order, of the tests among the first `len`
/// that fall in shard `n` of `m`.
pub open spec fn shard_positions(len: int, n: int, m: int) -> Seq<int>
    decreases len,
{
    if len <= 0 {
        Seq::empty()
    } else {
        let before = shard_positions(len - 1, n, m);
        if shard_of(len - 1, m) == n {
            before.push(len - 1)
        } else {
            before
        }
    }
}

proof fn lemma_shard_positions_bounded(len: int, n: int, m: int)
    ensures
        forall|j: int| 0 <= j < shard_positions(len, n, m).len() ==> 0 <= #[trigger] shard_positions(len, n, m)[j] < len,
    decreases len,
{
    if len > 0 {
        lemma_shard_positions_bounded(len - 1, n, m);
        let b = shard_positions(len - 1, n, m);
        if shard_of(len - 1, m) == n {
            assert forall|j: int| 0 <= j < b.push(len - 1).len() implies 0 <= #[trigger] b.push(len - 1)[j] < len by {
                if j < b.len() {
                    assert(b.push(len - 1)[j] == b[j]);
                }
            }
        }
    }
}

/// For lists whose positions fit in a `u32`, a position's shard is its
/// remainder modulo `m`, plus one.
pub proof fn lemma_shard_of_position(i: int, m: int)
    requires
        0 <= i < 0x1_0000_0000,
        m > 0,
    ensures
        shard_of(i, m) == i % m + 1,
{
}

/// Shard `n` of `m` holds exactly the tests at the positions of that shard,
/// in their order: for lists whose positions fit in a `u32`, the tests at
/// the positions `i` with `i % m == n - 1`.
pub proof fn lemma_shard_slice_positions(tests: Seq<TestItem>, n: int, m: int)
    ensures
        shard_slice(tests, n, m) == shard_positions(tests.len() as int, n, m).map_values(|p: int| tests[p]),
    decreases tests.len(),
{
    if tests.len() > 0 {
        let d = tests.drop_last();
        lemma_shard_slice_positions(d, n, m);
        lemma_shard_positions_bounded(d.len() as int, n, m);
        let ps = shard_positions(d.len() as int, n, m);
        assert(ps.map_values(|p: int| d[p]) =~= ps.map_values(|p: int| tests[p]));
        if shard_of(tests.len() - 1, m) == n {
            assert(ps.push(tests.len() - 1).map_values(|p: int| tests[p]) =~= ps.map_values(|p: int| tests[p]).push(
                tests.last(),
            ));
        }
    } else {
        assert(shard_positions(0, n, m).map_values(|p: int| tests[p]) =~= Seq::<TestItem>::empty());
    }
}

/// Sharding splits the tests without loss or repetition: every position
/// falls in exactly one of the shards `1..=m`, and the sizes of those shards
/// add up to the number of tests.
pub proof fn lemma_shards_partition(tests: Seq<TestItem>, m: int)
    requires
        m > 0,
    ensures
        forall|i: int| 0 <= i < tests.len() ==> 1 <= #[trigger] shard_of(i, m) <= m,
        shard_total(tests, m, m) == tests.len(),
    decreases tests.len(),
{
    if tests.len() > 0 {
        lemma_shards_partition(tests.drop_last(), m);
        lemma_shard_total_step(tests, m, m);
    } else {
        lemma_empty_total(tests, m, m);
    }
}

proof fn lemma_empty_total(tests: Seq<TestItem>, m: int, k: int)
    requires
        tests.len() == 0,
    ensures
        shard_total(tests, m, k) == 0,
    decreases k,
{
    if k > 0 {
        lemma_empty_total(tests, m, k - 1);
    }
}

// ---------------------------------------------------------------------------
// Snapshot normalisation
// ---------------------------------------------------------------------------

/// The text `" in "` that precedes pytest's session duration.
pub open spec fn in_marker() -> Seq<char> {
    seq![' ', 'i', 'n', ' ']
}

/// What a masked duration reads.
pub open spec fn masked_duration() -> Seq<char> {
    seq!['X', '.', 'X', 'X', 's']
}

/// A character of a duration: an ASCII digit or a dot.
pub open spec fn is_duration_char(c: char) -> bool {
    is_digit(c) || c == '.'
}

/// The length of the run of duration characters that starts `s`.
pub open spec fn duration_len(s: Seq<char>) -> int
    decreases s.len(),
{
    if s.len() > 0 && is_duration_char(s[0]) {
        1 + duration_len(s.drop_first())
    } else {
        0
    }
}

/// `s` holds an ASCII digit.
pub open spec fn has_digit(s: Seq<char>) -> bool {
    exists|i: int| 0 <= i < s.len() && is_digit(#[trigger] s[i])
}

/// A character of a summary line's border: `=` or whitespace.
pub open spec fn is_border(c: char) -> bool {
    c == '=' || is_ws(c)
}

/// Every character of `s` is a border character.
pub open spec fn all_border(s: Seq<char>) -> bool {
    forall|i: int| 0 <= i < s.len() ==> is_border(#[trigger] s[i])
}

/// `line` with the duration of a pytest summary masked: after the last
/// `" in "`, a run of digits and dots holding a digit, then `s`, then only
/// border characters to the end of the line; the run and the `s` become
/// `X.XXs`. Any other line is returned as it is.
pub open spec fn normalize_line(line: Seq<char>) -> Seq<char> {
    match rfind(line, in_marker()) {
        None => line,
        Some(marker) => {
            let prefix_end = marker + 4;
            let rest = line.skip(prefix_end);
            let d = duration_len(rest);
            if !has_digit(rest.take(d)) || !(d < rest.len() && rest[d] == 's') {
                line
            } else if !all_border(rest.skip(d + 1)) {
                line
            } else {
                line.take(prefix_end) + masked_duration() + rest.skip(d + 1)
            }
        },
    }
}

/// `line` without one trailing carriage return.
pub open spec fn strip_cr(line: Seq<char>) -> Seq<char> {
    if line.len() > 0 && line.last() == '\r' {
        line.drop_last()
    } else {
        line
    }
}

/// `str::lines`: the pieces between newlines, each without the carriage
/// return of a `\r\n` ending; a final newline ends the last line rather than
/// starting an empty one.
pub open spec fn text_lines(s: Seq<char>) -> Seq<Seq<char>> {
    let p = split_on(s, '\n');
    let body = p.take(p.len() - 1).map_values(|l: Seq<char>| strip_cr(l));
    if p.last().len() == 0 {
        body
    } else {
        body.push(p.last())
    }
}

/// The lines joined with newlines.
pub open spec fn join_lines(ls: Seq<Seq<char>>) -> Seq<char>
    decreases ls.len(),
{
    if ls.len() == 0 {
        Seq::empty()
    } else if ls.len() == 1 {
        ls[0]
    } else {
        join_lines(ls.drop_last()) + seq!['\n'] + ls.last()
    }
}

/// Captured output with each line's pytest duration masked, rejoined with
/// newlines.
pub open spec fn normalize_snapshot(s: Seq<char>) -> Seq<char> {
    join_lines(text_lines(s).map_values(|l: Seq<char>| normalize_line(l)))
}

fn char_is_duration(c: char) -> (b: bool)
    ensures
        b == is_duration_char(c),
{
    ('0' <= c && c <= '9') || c == '.'
}

fn char_is_border(c: char) -> (b: bool)
    ensures
        b == is_border(c),
{
    c == '=' || char_is_ws(c)
}

fn normalize_line_chars(line: &[char]) -> (r: Vec<char>)
    ensures
        r@ == normalize_line(line@),
{
    let marker = vec![' ', 'i', 'n', ' '];
    assert(marker@ =~= in_marker());
    let m = match rfind_chars(line, marker.as_slice()) {
        None => {
            return slice_chars(line, 0, line.len());
        },
        Some(m) => m,
    };
    let n = line.len();
    assert(occurs_at(line@, in_marker(), m as int));
    let prefix_end = m + 4;
    let ghost rest = line@.skip(prefix_end as int);
    // The run of duration characters.
    let mut j = prefix_end;
    let mut digit = false;
    assert(rest.skip(0) =~= rest);
    while j < n && char_is_duration(line[j])
        invariant
            prefix_end <= j <= n,
            n == line.len(),
            rest == line@.skip(prefix_end as int),
            duration_len(rest) == (j - prefix_end) + duration_len(rest.skip(j - prefix_end)),
            digit == has_digit(rest.take(j - prefix_end)),
        decreases n - j,
    {
        let ghost k = j - prefix_end;
        assert(rest.skip(k).drop_first() =~= rest.skip(k + 1));
        assert(rest.skip(k)[0] == line@[j as int]);
        if '0' <= line[j] && line[j] <= '9' {
            assert(rest.take(k + 1)[k] == line@[j as int]);
            digit = true;
        } else {
            assert forall|i: int| 0 <= i < k + 1 && is_digit(#[trigger] rest.take(k + 1)[i]) implies is_digit(
                rest.take(k)[i],
            ) by {
                assert(rest.take(k + 1)[i] == rest[i]);
            }
        }
        assert(has_digit(rest.take(k)) ==> has_digit(rest.take(k + 1))) by {
            if has_digit(rest.take(k)) {
                let i = choose|i: int| 0 <= i < k && is_digit(#[trigger] rest.take(k)[i]);
                assert(rest.take(k + 1)[i] == rest.take(k)[i]);
            }
        }
        j = j + 1;
    }
    let ghost d = j - prefix_end;
    assert(duration_len(rest.skip(d)) == 0) by {
        if j < n {
            assert(rest.skip(d)[0] == line@[j as int]);
        }
    }
    assert(duration_len(rest) == d);
    if !digit || !(j < n && line[j] == 's') {
        return slice_chars(line, 0, n);
    }
    assert(rest[d] == line@[j as int]);
    let mut k = j + 1;
    while k < n && char_is_border(line[k])
        invariant
            j + 1 <= k <= n,
            n == line.len(),
            forall|i: int| j + 1 <= i < k ==> is_border(#[trigger] line@[i]),
        decreases n - k,
    {
        k = k + 1;
    }
    if k < n {
        assert(!all_border(rest.skip(d + 1))) by {
            assert(rest.skip(d + 1)[k - j - 1] == line@[k as int]);
        }
        return slice_chars(line, 0, n);
    }
    assert(all_border(rest.skip(d + 1))) by {
        assert forall|i: int| 0 <= i < rest.skip(d + 1).len() implies is_border(
            #[trigger] rest.skip(d + 1)[i],
        ) by {
            assert(rest.skip(d + 1)[i] == line@[j + 1 + i]);
        }
    }
    let mut out = slice_chars(line, 0, prefix_end);
    out.push('X');
    out.push('.');
    out.push('X');
    out.push('X');
    out.push('s');
    let tail = slice_chars(line, j + 1, n);
    append_chars(&mut out, tail.as_slice());
    assert(rest.skip(d + 1) =~= line@.subrange(j + 1, n as int));
    assert(out@ =~= line@.take(prefix_end as int) + masked_duration() + rest.skip(d + 1));
    out
}

/// Replaces a `in <digits>[.<digits>]s` duration marker that trails a pytest
/// session summary line (e.g. "==== 1 passed in 0.01s ====") with a stable
/// placeholder; only the last `" in "` of the line is considered, and only
/// when the duration is followed solely by `=` and whitespace.
pub fn normalize_timing_in_line(line: &str) -> (r: String)
    ensures
        r@ == normalize_line(line@),
{
    let c = chars_of(line);
    let v = normalize_line_chars(c.as_slice());
    string_of(v.as_slice())
}

/// Strip pytest's non-deterministic timing text (e.g. "1 passed in 0.01s")
/// from captured stdout before it is recorded as, or compared against, a
/// snapshot.
pub fn normalize_snapshot_stdout(stdout: &str) -> (r: String)
    ensures
        r@ == normalize_snapshot(stdout@),
{
    let s = chars_of(stdout);
    let pieces = split_char(s.as_slice(), '\n');
    let ghost p = split_on(stdout@, '\n');
    proof {
        lemma_split_on_nonempty(stdout@, '\n');
    }
    assert(views(pieces@) == p);
    let count = pieces.len();
    let ghost ls = text_lines(stdout@).map_values(|l: Seq<char>| normalize_line(l));
    let mut out: Vec<char> = Vec::new();
    let mut i: usize = 0;
    assert(ls.take(0) =~= Seq::<Seq<char>>::empty());
    while i + 1 < count
        invariant
            count == pieces.len() == p.len() >= 1,
            p == split_on(stdout@, '\n'),
            views(pieces@) == p,
            ls == text_lines(stdout@).map_values(|l: Seq<char>| normalize_line(l)),
            ls.len() >= count - 1,
            0 <= i <= count - 1,
            out@ == join_lines(ls.take(i as int)),
        decreases count - i,
    {
        let piece = &pieces[i];
        assert(piece@ == p[i as int]);
        let line = if piece.len() > 0 && piece[piece.len() - 1] == '\r' {
            slice_chars(piece.as_slice(), 0, piece.len() - 1)
        } else {
            slice_chars(piece.as_slice(), 0, piece.len())
        };
        assert(line@ =~= strip_cr(p[i as int]));
        let norm = normalize_line_chars(line.as_slice());
        proof {
            let body = p.take(p.len() - 1).map_values(|l: Seq<char>| strip_cr(l));
            assert(body.len() == count - 1);
            assert(body[i as int] == strip_cr(p[i as int]));
            if p.last().len() == 0 {
                assert(text_lines(stdout@) == body);
            } else {
                assert(text_lines(stdout@) == body.push(p.last()));
                assert(body.push(p.last())[i as int] == body[i as int]);
            }
        }
        assert(norm@ == ls[i as int]);
        if i > 0 {
            out.push('\n');
        }
        append_chars(&mut out, norm.as_slice());
        assert(ls.take(i + 1).drop_last() =~= ls.take(i as int));
        i = i + 1;
    }
    let last = &pieces[count - 1];
    assert(last@ == p.last());
    if last.len() > 0 {
        let norm = normalize_line_chars(last.as_slice());
        if count > 1 {
            out.push('\n');
        }
        append_chars(&mut out, norm.as_slice());
        assert(ls.drop_last() =~= ls.take(count - 1));
        assert(ls.len() == count);
        assert(out@ =~= join_lines(ls));
    } else {
        assert(ls =~= ls.take(count - 1));
    }
    string_of(out.as_slice())
}

proof fn lemma_rfind_to_last(s: Seq<char>, pat: Seq<char>, i: int, k: int)
    requires
        0 <= k <= i,
        occurs_at(s, pat, k),
        forall|j: int| k < j <= i ==> !occurs_at(s, pat, j),
    ensures
        rfind_to(s, pat, i) == Some(k),
    decreases i - k,
{
    if i > k {
        lemma_rfind_to_last(s, pat, i - 1, k);
    }
}

/// The marker at `k` is the last one when no `i` follows it.
proof fn lemma_last_marker(line: Seq<char>, k: int)
    requires
        occurs_at(line, in_marker(), k),
        forall|j: int| k + 4 <= j < line.len() ==> line[j] != 'i',
    ensures
        rfind(line, in_marker()) == Some(k),
{
    assert forall|j: int| k < j <= line.len() - 4 implies !occurs_at(line, in_marker(), j) by {
        if occurs_at(line, in_marker(), j) {
            assert(line.subrange(j, j + 4)[1] == line[j + 1]);
            assert(line.subrange(k, k + 4)[2] == line[k + 2]);
            assert(line.subrange(k, k + 4)[3] == line[k + 3]);
        }
    }
    lemma_rfind_to_last(line, in_marker(), line.len() - 4, k);
}

proof fn lemma_duration_len_of(d: Seq<char>, r: Seq<char>)
    requires
        forall|i: int| 0 <= i < d.len() ==> is_duration_char(#[trigger] d[i]),
        r.len() > 0 ==> !is_duration_char(r[0]),
    ensures
        duration_len(d + r) == d.len(),
    decreases d.len(),
{
    if d.len() > 0 {
        assert((d + r).drop_first() =~= d.drop_first() + r);
        assert forall|i: int| 0 <= i < d.drop_first().len() implies is_duration_char(
            #[trigger] d.drop_first()[i],
        ) by {
            assert(d.drop_first()[i] == d[i + 1]);
        }
        lemma_duration_len_of(d.drop_first(), r);
    } else {
        assert(d + r =~= r);
    }
}

/// The duration at the end of a pytest summary line is masked, whatever it
/// was: a line `p + " in " + d + "s" + t`, where `d` is digits and dots
/// holding a digit and `t` is only `=` and whitespace, becomes
/// `p + " in X.XXs" + t`.
pub proof fn lemma_summary_duration_masked(p: Seq<char>, d: Seq<char>, t: Seq<char>)
    requires
        forall|i: int| 0 <= i < d.len() ==> is_duration_char(#[trigger] d[i]),
        has_digit(d),
        all_border(t),
    ensures
        normalize_line(p + in_marker() + d + seq!['s'] + t) == p + in_marker() + masked_duration() + t,
{
    let line = p + in_marker() + d + seq!['s'] + t;
    let k = p.len() as int;
    assert(line.subrange(k, k + 4) =~= in_marker());
    assert forall|j: int| k + 4 <= j < line.len() implies line[j] != 'i' by {
        if j < k + 4 + d.len() {
            assert(line[j] == d[j - k - 4]);
        } else if j > k + 4 + d.len() {
            assert(line[j] == t[j - k - 5 - d.len()]);
        }
    }
    lemma_last_marker(line, k);
    let rest = line.skip(k + 4);
    assert(rest =~= d + (seq!['s'] + t));
    lemma_duration_len_of(d, seq!['s'] + t);
    assert(rest.take(d.len() as int) =~= d);
    assert(rest[d.len() as int] == 's');
    assert(rest.skip(d.len() as int + 1) =~= t);
    assert(line.take(k + 4) =~= p + in_marker());
}

/// Two runs of a test session that differ only in the reported duration
/// give the same normalised summary line.
pub proof fn lemma_durations_normalize_alike(p: Seq<char>, d1: Seq<char>, d2: Seq<char>, t: Seq<char>)
    requires
        forall|i: int| 0 <= i < d1.len() ==> is_duration_char(#[trigger] d1[i]),
        forall|i: int| 0 <= i < d2.len() ==> is_duration_char(#[trigger] d2[i]),
        has_digit(d1),
        has_digit(d2),
        all_border(t),
    ensures
        normalize_line(p + in_marker() + d1 + seq!['s'] + t) == normalize_line(
            p + in_marker() + d2 + seq!['s'] + t,
        ),
{
    lemma_summary_duration_masked(p, d1, t);
    lemma_summary_duration_masked(p, d2, t);
}

/// Normalising a line twice changes nothing more than normalising it once.
pub proof fn lemma_normalize_line_idempotent(line: Seq<char>)
    ensures
        normalize_line(normalize_line(line)) == normalize_line(line),
{
    let y = normalize_line(line);
    if y != line {
        let marker = rfind(line, in_marker())->0;
        crate::text::lemma_rfind_to_found(line, in_marker(), line.len() - 4);
        let prefix_end = marker + 4;
        let rest = line.skip(prefix_end);
        let d = duration_len(rest);
        let t = rest.skip(d + 1);
        assert(y == line.take(prefix_end) + masked_duration() + t);
        assert(y.subrange(marker, marker + 4) =~= line.subrange(marker, marker + 4));
        assert forall|j: int| prefix_end <= j < y.len() implies y[j] != 'i' by {
            if j >= prefix_end + 5 {
                assert(y[j] == t[j - prefix_end - 5]);
            }
        }
        lemma_last_marker(y, marker);
        let rest_y = y.skip(prefix_end);
        assert(rest_y =~= masked_duration() + t);
        assert(duration_len(rest_y) == 0);
        assert(!has_digit(rest_y.take(0)));
    }
}

/// The tests a run selects: those matching the `-k` pattern, if one is
/// given, then those of the requested shard, if one is given.
pub open spec fn selected_tests(tests: Seq<TestItem>, pattern: Option<Seq<char>>, shard: Option<(u32, u32)>) -> Seq<TestItem> {
    let matching = match pattern {
        Some(p) => matching_tests(tests, p),
        None => tests,
    };
    match shard {
        Some((n, m)) => shard_slice(matching, n as int, m as int),
        None => matching,
    }
}

/// Select the tests to run: filter by pattern, then keep one shard.
pub fn select_tests(tests: Vec<TestItem>, pattern: Option<&str>, shard: Option<(u32, u32)>) -> (r: Vec<TestItem>)
    requires
        shard matches Some((n, m)) ==> m > 0,
    ensures
        r@ == selected_tests(
            tests@,
            match pattern {
                Some(p) => Some(p@),
                None => None,
            },
            shard,
        ),
{
    let matching = match pattern {
        Some(p) => filter_tests(tests, p),
        None => tests,
    };
    match shard {
        Some((n, m)) => shard_tests(matching, n, m),
        None => matching,
    }
}

/// The number of tests in `tests` that are not skipped.
pub open spec fn runnable_count(tests: Seq<TestItem>) -> nat
    decreases tests.len(),
{
    if tests.len() == 0 {
        0
    } else {
        runnable_count(tests.drop_last()) + if tests.last().skipped {
            0nat
        } else {
            1nat
        }
    }
}

/// Count the tests that will actually run.
pub fn count_runnable(tests: &[TestItem]) -> (r: usize)
    ensures
        r == runnable_count(tests@),
{
    let mut k: usize = 0;
    let mut i: usize = 0;
    assert(tests@.take(0) =~= Seq::<TestItem>::empty());
    while i < tests.len()
        invariant
            0 <= i <= tests.len(),
            k == runnable_count(tests@.take(i as int)),
            k <= i,
        decreases tests.len() - i,
    {
        assert(tests@.take(i + 1).drop_last() =~= tests@.take(i as int));
        if !tests[i].skipped {
            k = k + 1;
        }
        i = i + 1;
    }
    assert(tests@.take(i as int) =~= tests@);
    k
}


// ---------------------------------------------------------------------------
// Planning a run
// ---------------------------------------------------------------------------

/// How a test run proceeds once its tests are chosen.
#[derive(Debug, Clone, Copy, PartialEq, Eq, Structural)]
pub enum TestRunMode {
    /// List the tests (`--discover`).
    Discover,
    /// Describe the run without running anything.
    DryRun,
    /// Run the tests with the native executor.
    Native,
    /// Run pytest or unittest in the project's Python.
    External,
}

/// What a test run will do.
pub struct TestPlan {
    pub backend: TestBackend,
    pub shard: Option<(u32, u32)>,
    /// The tests selected by the filter and the shard.
    pub tests: Vec<TestItem>,
    /// How many of them are not skipped.
    pub runnable: usize,
    pub mode: TestRunMode,
    /// The diagnostics reported for the compatibility warnings.
    pub diagnostics: Vec<Diagnostic>,
}

/// The backend a run uses: the requested one, else the detected one.
pub open spec fn chosen_backend(requested: Option<TestBackend>, detected: TestBackend) -> TestBackend {
    match requested {
        Some(b) => b,
        None => detected,
    }
}

/// The mode of a run: listing first, then a dry run, then the executor of
/// the backend.
pub open spec fn run_mode(discover: bool, dry_run: bool, backend: TestBackend) -> TestRunMode {
    if discover {
        TestRunMode::Discover
    } else if dry_run {
        TestRunMode::DryRun
    } else if backend == TestBackend::Pybun {
        TestRunMode::Native
    } else {
        TestRunMode::External
    }
}

/// Plans `pybun test` from its arguments, the backend detected for the
/// project, the function and method tests discovery found, the
/// compatibility warnings of discovery, and whether a dry run was asked for
/// (`PYBUN_TEST_DRY_RUN`). It fails only on a `--shard` value that does not
/// parse, with the message of [`parse_shard`].
pub fn plan_test_run(
    args: &TestArgs,
    detected: TestBackend,
    discovered: Vec<TestItem>,
    warnings: &[CompatWarning],
    dry_run: bool,
) -> (r: Result<TestPlan, String>)
    ensures
        r is Err <==> (args.shard matches Some(s) && shard_spec(s@) is Err),
        r matches Err(e) ==> (args.shard matches Some(s) && shard_spec(s@) == Err::<(u32, u32), Seq<char>>(e@)),
        r matches Ok(p) ==> {
            let backend = chosen_backend(args.backend, detected);
            &&& p.backend == backend
            &&& p.shard == match args.shard {
                Some(s) => Some(shard_spec(s@)->Ok_0),
                None => None,
            }
            &&& p.tests@ == selected_tests(discovered@, opt_view(args.filter), p.shard)
            &&& p.runnable == runnable_count(p.tests@)
            &&& p.mode == run_mode(args.discover, dry_run, backend)
            &&& are_compat_diagnostics(
                p.diagnostics@,
                warnings@,
                backend == TestBackend::Pybun,
                args.pytest_compat,
            )
        },
{
    let shard = match &args.shard {
        Some(s) => match parse_shard(s.as_str()) {
            Ok(p) => Some(p),
            Err(e) => {
                return Err(e);
            },
        },
        None => None,
    };
    proof {
        if let Some((n, m)) = shard {
            assert(m > 0);
        }
    }
    let backend = match args.backend {
        Some(b) => b,
        None => detected,
    };
    let native = match backend {
        TestBackend::Pybun => true,
        _ => false,
    };
    let filter = match &args.filter {
        Some(f) => Some(f.as_str()),
        None => None,
    };
    let tests = select_tests(discovered, filter, shard);
    let runnable = count_runnable(tests.as_slice());
    let mode = if args.discover {
        TestRunMode::Discover
    } else if dry_run {
        TestRunMode::DryRun
    } else if native {
        TestRunMode::Native
    } else {
        TestRunMode::External
    };
    let diagnostics = compat_diagnostics(warnings, native, args.pytest_compat);
    assert(native == (backend == TestBackend::Pybun));
    assert(backend == chosen_backend(args.backend, detected));
    assert(shard == match args.shard {
        Some(s) => Some(shard_spec(s@)->Ok_0),
        None => None,
    });
    assert(tests@ == selected_tests(discovered@, opt_view(args.filter), shard));
    assert(mode == run_mode(args.discover, dry_run, backend));
    assert(are_compat_diagnostics(diagnostics@, warnings@, native, args.pytest_compat));
    Ok(TestPlan { backend, shard, tests, runnable, mode, diagnostics })
}

/// The arguments after `python` that run pytest or unittest: the module,
/// the fail-fast and verbose flags, pytest's `-k` filter and `-n` workers,
/// the paths (for unittest, `discover` when there are none, and discovery
/// in the one directory given), then the pass-through arguments.
pub open spec fn runner_args(
    backend: TestBackend,
    fail_fast: bool,
    verbose: bool,
    filter: Option<Seq<char>>,
    parallel: Option<usize>,
    paths: Seq<Seq<char>>,
    single_dir: bool,
    passthrough: Seq<Seq<char>>,
) -> Seq<Seq<char>> {
    if backend == TestBackend::Unittest {
        let targets = if paths.len() == 0 {
            seq!["discover"@]
        } else if paths.len() == 1 && single_dir {
            seq!["discover"@, "-s"@, paths[0]]
        } else {
            paths
        };
        seq!["-m"@, "unittest"@] + (if fail_fast { seq!["-f"@] } else { Seq::empty() }) + (if verbose {
            seq!["-v"@]
        } else {
            Seq::empty()
        }) + targets + passthrough
    } else {
        seq!["-m"@, "pytest"@] + (if fail_fast { seq!["-x"@] } else { Seq::empty() }) + (if verbose {
            seq!["-v"@]
        } else {
            Seq::empty()
        }) + (match filter {
            Some(f) => seq!["-k"@, f],
            None => Seq::empty(),
        }) + (match parallel {
            Some(n) => seq!["-n"@, dec(n as nat)],
            None => Seq::empty(),
        }) + paths + passthrough
    }
}

/// The views of a vector of strings.
pub open spec fn string_views(v: Seq<String>) -> Seq<Seq<char>> {
    v.map_values(|s: String| s@)
}

fn push_text(out: &mut Vec<String>, t: &str)
    ensures
        string_views(final(out)@) == string_views(old(out)@).push(t@),
{
    out.push(String::from_str(t));
    assert(string_views(out@) =~= string_views(old(out)@).push(t@));
}

fn push_all(out: &mut Vec<String>, v: &[String])
    ensures
        string_views(final(out)@) == string_views(old(out)@) + string_views(v@),
{
    let mut i: usize = 0;
    while i < v.len()
        invariant
            0 <= i <= v.len(),
            string_views(out@) == string_views(old(out)@) + string_views(v@).take(i as int),
        decreases v.len() - i,
    {
        let ghost before = string_views(out@);
        out.push(v[i].clone());
        assert(string_views(out@) =~= before.push(v@[i as int]@));
        assert(string_views(v@).take(i + 1) =~= string_views(v@).take(i as int).push(v@[i as int]@));
        i = i + 1;
    }
    assert(string_views(v@).take(i as int) =~= string_views(v@));
}

/// The arguments that run the tests of `paths` with pytest or unittest
/// (`single_dir`: the one path given is a directory).
pub fn external_runner_args(args: &TestArgs, backend: TestBackend, paths: &[String], single_dir: bool) -> (r: Vec<String>)
    requires
        backend != TestBackend::Pybun,
    ensures
        string_views(r@) == runner_args(
            backend,
            args.fail_fast,
            args.verbose,
            opt_view(args.filter),
            args.parallel,
            string_views(paths@),
            single_dir,
            string_views(args.passthrough@),
        ),
{
    let mut out: Vec<String> = Vec::new();
    let unittest = match backend {
        TestBackend::Unittest => true,
        _ => false,
    };
    push_text(&mut out, "-m");
    let ghost s0 = string_views(out@);
    if unittest {
        push_text(&mut out, "unittest");
    } else {
        push_text(&mut out, "pytest");
    }
    let ghost s1 = string_views(out@);
    if args.fail_fast {
        if unittest {
            push_text(&mut out, "-f");
        } else {
            push_text(&mut out, "-x");
        }
    }
    let ghost s2 = string_views(out@);
    if args.verbose {
        push_text(&mut out, "-v");
    }
    let ghost s3 = string_views(out@);
    if unittest {
        if paths.len() == 0 {
            push_text(&mut out, "discover");
        } else if paths.len() == 1 && single_dir {
            push_text(&mut out, "discover");
            push_text(&mut out, "-s");
            let ghost before = string_views(out@);
            out.push(paths[0].clone());
            assert(string_views(out@) =~= before.push(paths@[0]@));
            assert(string_views(out@) =~= s3 + seq!["discover"@, "-s"@, paths@[0]@]);
        } else {
            push_all(&mut out, paths);
        }
        let ghost s4 = string_views(out@);
        push_all(&mut out, args.passthrough.as_slice());
        proof {
            assert(string_views(paths@).len() == paths@.len());
            if paths@.len() == 1 && single_dir {
                assert(string_views(paths@)[0] == paths@[0]@);
            }
            assert(string_views(out@) =~= runner_args(
                backend,
                args.fail_fast,
                args.verbose,
                opt_view(args.filter),
                args.parallel,
                string_views(paths@),
                single_dir,
                string_views(args.passthrough@),
            ));
        }
    } else {
        match &args.filter {
            Some(f) => {
                push_text(&mut out, "-k");
                push_text(&mut out, f.as_str());
            },
            None => {},
        }
        let ghost s4 = string_views(out@);
        match args.parallel {
            Some(n) => {
                push_text(&mut out, "-n");
                let d = dec_chars(n as u128);
                let ds = string_of(d.as_slice());
                push_text(&mut out, ds.as_str());
            },
            None => {},
        }
        push_all(&mut out, paths);
        push_all(&mut out, args.passthrough.as_slice());
        proof {
            assert(string_views(out@) =~= runner_args(
                backend,
                args.fail_fast,
                args.verbose,
                opt_view(args.filter),
                args.parallel,
                string_views(paths@),
                single_dir,
                string_views(args.passthrough@),
            ));
        }
    }
    out
}


// ---------------------------------------------------------------------------
// Outcomes of the native executor
// ---------------------------------------------------------------------------

/// How one test ended under the native executor.
#[derive(Debug, Clone, Copy, PartialEq, Eq, Structural)]
pub enum TestOutcome {
    Passed,
    Failed,
    Skipped,
    XFail,
    XPass,
    Error,
    Timeout,
}

/// One test as the native executor ran it.
#[derive(Debug, Clone)]
pub struct TestRunResult {
    pub name: String,
    pub path: String,
    pub line: usize,
    pub outcome: TestOutcome,
    pub stderr: String,
    /// How many times the test was retried before its final outcome.
    pub retries: u32,
}

/// The results that failed or timed out.
pub open spec fn is_failing(r: TestRunResult) -> bool {
    r.outcome == TestOutcome::Failed || r.outcome == TestOutcome::Timeout
}

/// The results whose output is compared with a snapshot: the passing ones.
pub open spec fn is_snapshot_candidate(r: TestRunResult) -> bool {
    r.outcome == TestOutcome::Passed || r.outcome == TestOutcome::XPass
}

/// `d` is the error reported for the failing result `r`: `TIMEOUT` or
/// `FAILED` and the test's name, at its file and line, with the captured
/// stderr (when there is any) as context.
pub open spec fn is_outcome_diagnostic(d: Diagnostic, r: TestRunResult) -> bool {
    let timeout = r.outcome == TestOutcome::Timeout;
    &&& d.level == DiagnosticLevel::Error
    &&& opt_view(d.code) == Some(if timeout { "E_TEST_TIMEOUT"@ } else { "E_TEST_FAILED"@ })
    &&& d.message@ == (if timeout { "TIMEOUT "@ } else { "FAILED "@ }) + r.name@
    &&& opt_view(d.file) == Some(r.path@)
    &&& d.line == Some(r.line as u32)
    &&& opt_view(d.suggestion) == Some(
        if timeout {
            "This test exceeded its timeout; increase --timeout if the test is legitimately slow, or fix the hang and re-run `pybun test`."@
        } else {
            "Inspect the file/line and stderr context, fix the failing test or implementation, and re-run `pybun test`."@
        },
    )
    &&& d.context == if r.stderr@.len() == 0 {
        None::<crate::json::Json>
    } else {
        Some(crate::json::Json::Str(r.stderr))
    }
}

fn outcome_diagnostic(r: &TestRunResult) -> (d: Diagnostic)
    requires
        is_failing(*r),
    ensures
        is_outcome_diagnostic(d, *r),
{
    let timeout = match r.outcome {
        TestOutcome::Timeout => true,
        _ => false,
    };
    let (code, prefix, hint) = if timeout {
        (
            "E_TEST_TIMEOUT",
            "TIMEOUT ",
            "This test exceeded its timeout; increase --timeout if the test is legitimately slow, or fix the hang and re-run `pybun test`.",
        )
    } else {
        (
            "E_TEST_FAILED",
            "FAILED ",
            "Inspect the file/line and stderr context, fix the failing test or implementation, and re-run `pybun test`.",
        )
    };
    let context = if r.stderr.as_str().unicode_len() == 0 {
        None
    } else {
        Some(crate::json::Json::Str(r.stderr.clone()))
    };
    Diagnostic {
        level: DiagnosticLevel::Error,
        code: Some(String::from_str(code)),
        message: String::from_str(prefix).concat(r.name.as_str()),
        file: Some(r.path.clone()),
        line: Some(#[verifier::truncate] (r.line as u32)),
        suggestion: Some(String::from_str(hint)),
        context,
    }
}

/// The errors a native run reports: one for each result that failed or timed
/// out, in order.
pub fn outcome_diagnostics(results: &[TestRunResult]) -> (r: Vec<Diagnostic>)
    ensures
        r@.len() == results@.filter(|x: TestRunResult| is_failing(x)).len(),
        forall|i: int|
            0 <= i < r@.len() ==> is_outcome_diagnostic(
                #[trigger] r@[i],
                results@.filter(|x: TestRunResult| is_failing(x))[i],
            ),
{
    let ghost f = |x: TestRunResult| is_failing(x);
    let mut out: Vec<Diagnostic> = Vec::new();
    let mut i: usize = 0;
    proof {
        reveal(Seq::filter);
        assert(results@.take(0) =~= Seq::<TestRunResult>::empty());
    }
    while i < results.len()
        invariant
            0 <= i <= results.len(),
            f == (|x: TestRunResult| is_failing(x)),
            out@.len() == results@.take(i as int).filter(f).len(),
            forall|j: int|
                0 <= j < out@.len() ==> is_outcome_diagnostic(
                    #[trigger] out@[j],
                    results@.take(i as int).filter(f)[j],
                ),
        decreases results.len() - i,
    {
        let ghost prev = results@.take(i as int).filter(f);
        assert(results@.take(i + 1).drop_last() =~= results@.take(i as int));
        proof {
            reveal(Seq::filter);
        }
        let failing = match results[i].outcome {
            TestOutcome::Failed | TestOutcome::Timeout => true,
            _ => false,
        };
        if failing {
            out.push(outcome_diagnostic(&results[i]));
            assert(results@.take(i + 1).filter(f) == prev.push(results@[i as int]));
        } else {
            assert(results@.take(i + 1).filter(f) == prev);
        }
        i = i + 1;
    }
    assert(results@.take(i as int) =~= results@);
    out
}


// ---------------------------------------------------------------------------
// Scoping a run to a workspace member
// ---------------------------------------------------------------------------

/// The paths a run scoped to the member at `root` searches: the member
/// itself when no path was given, else each path taken relative to the
/// member (an absolute path stays as it is).
pub open spec fn member_paths(root: Seq<char>, paths: Seq<Seq<char>>) -> Seq<Seq<char>> {
    if paths.len() == 0 {
        seq![root]
    } else {
        paths.map_values(|p: Seq<char>| crate::pathname::join(root, p))
    }
}

/// Scopes the paths of a run to the workspace member at `member_root`.
pub fn member_test_paths(member_root: &str, paths: &[String]) -> (r: Vec<String>)
    ensures
        string_views(r@) == member_paths(member_root@, string_views(paths@)),
{
    let mut out: Vec<String> = Vec::new();
    if paths.len() == 0 {
        out.push(String::from_str(member_root));
        assert(string_views(out@) =~= seq![member_root@]);
        return out;
    }
    let mut i: usize = 0;
    while i < paths.len()
        invariant
            0 <= i <= paths.len(),
            string_views(out@) == member_paths(member_root@, string_views(paths@)).take(i as int),
            paths.len() > 0,
        decreases paths.len() - i,
    {
        let ghost before = string_views(out@);
        out.push(crate::pathname::join_path(member_root, paths[i].as_str()));
        assert(string_views(out@) =~= before.push(crate::pathname::join(member_root@, paths@[i as int]@)));
        assert(member_paths(member_root@, string_views(paths@)).take(i + 1) =~= before.push(
            crate::pathname::join(member_root@, paths@[i as int]@),
        ));
        i = i + 1;
    }
    assert(member_paths(member_root@, string_views(paths@)).take(i as int) =~= member_paths(
        member_root@,
        string_views(paths@),
    ));
    out
}

} // verus!
