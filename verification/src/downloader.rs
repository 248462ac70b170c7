//! Download policy: which failures are retried and how long to wait, when a
//! transfer is given up, how errors read, and the checksum check of what was
//! downloaded. The transfers themselves, and the waits, are made by the
//! caller, which feeds each outcome back to [`next_retry_step`].

use vstd::prelude::*;
use crate::digest::{hex_encode, hex_text, sha256_digest, sha256_of};
use crate::text::{chars_of, chars_starts_with, dec, dec_chars, starts_with, string_of};

verus! {

/// Most attempts made at one transfer.
pub const MAX_ATTEMPTS: u32 = 3;

/// Upper bound on a server-supplied `Retry-After` value, so a malicious or
/// misconfigured index cannot stall a download indefinitely.
pub const MAX_RETRY_AFTER_SECS: u64 = 5;

/// A detached Ed25519 signature and the public key to check it with.
#[derive(Debug, Clone)]
pub struct SignatureSpec {
    pub signature: String,
    pub public_key: String,
}

/// One file to download: where from, where to, and what to check.
#[derive(Debug, Clone)]
pub struct DownloadRequest {
    pub url: String,
    pub destination: String,
    pub checksum: Option<String>,
    pub signature: Option<SignatureSpec>,
}

impl From<(String, String, Option<String>)> for DownloadRequest {
    fn from(value: (String, String, Option<String>)) -> (r: Self) {
        let (url, destination, checksum) = value;
        DownloadRequest { url, destination, checksum, signature: None }
    }
}

impl vstd::std_specs::convert::FromSpecImpl<(String, String, Option<String>)> for DownloadRequest {
    open spec fn obeys_from_spec() -> bool {
        true
    }

    open spec fn from_spec(value: (String, String, Option<String>)) -> Self {
        DownloadRequest { url: value.0, destination: value.1, checksum: value.2, signature: None }
    }
}

/// Why a download failed.
#[derive(Debug)]
pub enum DownloadError {
    Network(String),
    Io(String),
    /// An HTTP response with a non-success status code (e.g. 404, 401, 500);
    /// `retry_after` is the parsed `Retry-After` header, in seconds, if the
    /// server sent one.
    HttpStatus { status: u16, url: String, message: String, retry_after: Option<u64> },
    MissingChecksum { path: String, checksum: String },
    ChecksumMismatch { expected: String, actual: String, path: String },
    SignatureVerificationFailed { path: String, message: String },
    MaxRetriesExceeded { url: String, attempts: u32, source: Box<DownloadError> },
}

/// Transport-level failures and server-side or rate-limit statuses (408,
/// 429, 5xx) are transient; client errors and verification failures are not.
pub open spec fn retryable(e: DownloadError) -> bool {
    match e {
        DownloadError::Network(_) => true,
        DownloadError::Io(_) => true,
        DownloadError::HttpStatus { status, .. } => status == 408 || status == 429 || (500 <= status
            && status <= 599),
        _ => false,
    }
}

/// The text of a download error.
pub open spec fn error_message(e: DownloadError) -> Seq<char>
    decreases e,
{
    match e {
        DownloadError::Network(m) => "network error: "@ + m@,
        DownloadError::Io(m) => "io error: "@ + m@,
        DownloadError::HttpStatus { status, url, message, .. } => "http error "@ + dec(status as nat)
            + " for "@ + url@ + ": "@ + message@,
        DownloadError::MissingChecksum { path, checksum } => "missing checksum for "@ + path@ + ": "@
            + checksum@,
        DownloadError::ChecksumMismatch { expected, actual, path } => "checksum mismatch for "@ + path@
            + ": expected "@ + expected@ + ", got "@ + actual@,
        DownloadError::SignatureVerificationFailed { path, message } =>
            "signature verification failed for "@ + path@ + ": "@ + message@,
        DownloadError::MaxRetriesExceeded { url, attempts, source } => "max retries exceeded for "@
            + url@ + " after "@ + dec(attempts as nat) + " attempts: "@ + error_message(*source),
    }
}

fn dec_string(n: u128) -> (r: String)
    ensures
        r@ == dec(n as nat),
{
    let d = dec_chars(n);
    string_of(d.as_slice())
}

impl DownloadError {
    /// Whether this failure is worth retrying with backoff.
    pub fn is_retryable(&self) -> (b: bool)
        ensures
            b == retryable(*self),
    {
        match self {
            DownloadError::Network(_) => true,
            DownloadError::Io(_) => true,
            DownloadError::HttpStatus { status, .. } => *status == 408 || *status == 429 || (500
                <= *status && *status <= 599),
            _ => false,
        }
    }

    /// The error's text, as it is displayed.
    pub fn message(&self) -> (r: String)
        ensures
            r@ == error_message(*self),
        decreases self,
    {
        match self {
            DownloadError::Network(m) => String::from_str("network error: ").concat(m.as_str()),
            DownloadError::Io(m) => String::from_str("io error: ").concat(m.as_str()),
            DownloadError::HttpStatus { status, url, message, .. } => {
                let s = dec_string(*status as u128);
                String::from_str("http error ").concat(s.as_str()).concat(" for ").concat(
                    url.as_str(),
                ).concat(": ").concat(message.as_str())
            },
            DownloadError::MissingChecksum { path, checksum } => String::from_str(
                "missing checksum for ",
            ).concat(path.as_str()).concat(": ").concat(checksum.as_str()),
            DownloadError::ChecksumMismatch { expected, actual, path } => String::from_str(
                "checksum mismatch for ",
            ).concat(path.as_str()).concat(": expected ").concat(expected.as_str()).concat(
                ", got ",
            ).concat(actual.as_str()),
            DownloadError::SignatureVerificationFailed { path, message } => String::from_str(
                "signature verification failed for ",
            ).concat(path.as_str()).concat(": ").concat(message.as_str()),
            DownloadError::MaxRetriesExceeded { url, attempts, source } => {
                let a = dec_string(*attempts as u128);
                let inner = source.message();
                String::from_str("max retries exceeded for ").concat(url.as_str()).concat(
                    " after ",
                ).concat(a.as_str()).concat(" attempts: ").concat(inner.as_str())
            },
        }
    }
}

// ---------------------------------------------------------------------------
// Retries
// ---------------------------------------------------------------------------

/// What to do after a failed attempt.
pub ghost enum RetryDecision {
    /// Wait `backoff_secs` seconds, then make attempt `attempts + 1`.
    Wait { attempts: u32, backoff_secs: u64 },
    /// Fail with the attempt's own error.
    Fail,
    /// Give up after `attempts` attempts.
    GiveUp { attempts: u32 },
}

/// The wait before the next attempt, after `attempts` failed ones: the
/// server's `Retry-After`, capped, when it sent one; otherwise 1s, 2s, 4s.
pub open spec fn backoff_secs(e: DownloadError, attempts: u32) -> u64 {
    match e {
        DownloadError::HttpStatus { retry_after: Some(secs), .. } => if secs < MAX_RETRY_AFTER_SECS {
            secs
        } else {
            MAX_RETRY_AFTER_SECS
        },
        _ => vstd::arithmetic::power2::pow2((attempts - 1) as nat) as u64,
    }
}

/// The decision after attempt `failed + 1` failed with `e`: a non-retryable
/// error fails at once; the third failure gives up; otherwise wait and retry.
pub open spec fn retry_decision(failed: u32, e: DownloadError) -> RetryDecision {
    if !retryable(e) {
        RetryDecision::Fail
    } else if failed + 1 >= MAX_ATTEMPTS {
        RetryDecision::GiveUp { attempts: (failed + 1) as u32 }
    } else {
        RetryDecision::Wait {
            attempts: (failed + 1) as u32,
            backoff_secs: backoff_secs(e, (failed + 1) as u32),
        }
    }
}

/// The next step of a transfer after a failed attempt.
#[derive(Debug)]
pub enum RetryStep {
    /// Sleep `backoff_secs`, then try again; `attempts` attempts have failed.
    Wait { attempts: u32, backoff_secs: u64 },
    /// Stop with this error.
    Fail(DownloadError),
}

/// Decide what follows a failed attempt at downloading `url`, when `failed`
/// attempts had failed before it.
pub fn next_retry_step(failed: u32, url: &str, e: DownloadError) -> (r: RetryStep)
    requires
        failed < MAX_ATTEMPTS,
    ensures
        match retry_decision(failed, e) {
            RetryDecision::Wait { attempts, backoff_secs } => r == (RetryStep::Wait {
                attempts,
                backoff_secs,
            }),
            RetryDecision::Fail => r == RetryStep::Fail(e),
            RetryDecision::GiveUp { attempts } => r matches RetryStep::Fail(
                DownloadError::MaxRetriesExceeded { url: u, attempts: a, source },
            ) && u@ == url@ && a == attempts && *source == e,
        },
{
    if !e.is_retryable() {
        return RetryStep::Fail(e);
    }
    let attempts = failed + 1;
    if attempts >= MAX_ATTEMPTS {
        return RetryStep::Fail(
            DownloadError::MaxRetriesExceeded {
                url: String::from_str(url),
                attempts,
                source: Box::new(e),
            },
        );
    }
    let backoff = match &e {
        DownloadError::HttpStatus { retry_after: Some(secs), .. } => if *secs < MAX_RETRY_AFTER_SECS {
            *secs
        } else {
            MAX_RETRY_AFTER_SECS
        },
        _ => {
            let shift = attempts - 1;
            assert(shift < 2);
            assert(1u64 << 0u32 == 1u64) by (bit_vector);
            assert(1u64 << 1u32 == 2u64) by (bit_vector);
            proof {
                vstd::arithmetic::power2::lemma2_to64();
            }
            1u64 << shift
        },
    };
    RetryStep::Wait { attempts, backoff_secs: backoff }
}

/// However a transfer fails, no wait is longer than the `Retry-After` cap.
pub proof fn lemma_backoff_is_capped(failed: u32, e: DownloadError)
    requires
        failed < MAX_ATTEMPTS,
    ensures
        retry_decision(failed, e) matches RetryDecision::Wait { backoff_secs, .. } ==> backoff_secs
            <= MAX_RETRY_AFTER_SECS,
{
    vstd::arithmetic::power2::lemma2_to64();
}

/// A transfer whose attempts keep failing with transient errors is made
/// exactly three times: it waits after the first and the second failure
/// (1s and 2s, unless the server asked for a capped `Retry-After`), and gives
/// up after the third.
pub proof fn lemma_transient_failures_give_up_after_three(
    e1: DownloadError,
    e2: DownloadError,
    e3: DownloadError,
)
    requires
        retryable(e1),
        retryable(e2),
        retryable(e3),
    ensures
        retry_decision(0, e1) == (RetryDecision::Wait { attempts: 1, backoff_secs: backoff_secs(e1, 1) }),
        retry_decision(1, e2) == (RetryDecision::Wait { attempts: 2, backoff_secs: backoff_secs(e2, 2) }),
        retry_decision(2, e3) == (RetryDecision::GiveUp { attempts: 3 }),
        !(e1 is HttpStatus && e1->retry_after is Some) ==> backoff_secs(e1, 1) == 1,
        !(e2 is HttpStatus && e2->retry_after is Some) ==> backoff_secs(e2, 2) == 2,
{
    vstd::arithmetic::power2::lemma2_to64();
}

/// A failure that is not transient ends the transfer after that attempt,
/// whichever attempt it was.
pub proof fn lemma_permanent_failure_fails_fast(failed: u32, e: DownloadError)
    requires
        failed < MAX_ATTEMPTS,
        !retryable(e),
    ensures
        retry_decision(failed, e) == RetryDecision::Fail,
{
}

// ---------------------------------------------------------------------------
// Checksums
// ---------------------------------------------------------------------------

/// The hexadecimal digest an expected checksum names: without its `sha256:`
/// prefix, if it has one.
pub open spec fn expected_digest(expected: Seq<char>) -> Seq<char> {
    if starts_with(expected, "sha256:"@) {
        expected.skip(7)
    } else {
        expected
    }
}

/// The outcome of checking a downloaded file at `path` whose digest reads
/// `actual` (lower-case hexadecimal) against `expected`. A placeholder
/// checksum is refused; otherwise the digests must be equal.
pub open spec fn checksum_ok(expected: Seq<char>, placeholder: bool, actual: Seq<char>) -> bool {
    !placeholder && actual == expected_digest(expected)
}

/// Compare the digest of a downloaded file with the expected checksum.
/// `placeholder` says whether `expected` is a placeholder rather than a
/// digest (the security policy decides).
pub fn checksum_outcome(path: &str, expected: &str, placeholder: bool, actual: &str) -> (r: Result<(), DownloadError>)
    ensures
        r is Ok <==> checksum_ok(expected@, placeholder, actual@),
        placeholder ==> (r matches Err(DownloadError::MissingChecksum { path: p, checksum: c }) && p@
            == path@ && c@ == expected@),
        !placeholder && !checksum_ok(expected@, placeholder, actual@) ==> (r matches Err(
            DownloadError::ChecksumMismatch { expected: x, actual: a, path: p },
        ) && x@ == expected_digest(expected@) && a@ == actual@ && p@ == path@),
{
    if placeholder {
        return Err(
            DownloadError::MissingChecksum {
                path: String::from_str(path),
                checksum: String::from_str(expected),
            },
        );
    }
    let e = chars_of(expected);
    let prefix = chars_of("sha256:");
    proof {
        reveal_strlit("sha256:");
    }
    let clean = if chars_starts_with(e.as_slice(), prefix.as_slice()) {
        crate::text::substring(&e, 7, e.len())
    } else {
        String::from_str(expected)
    };
    assert(clean@ == expected_digest(expected@));
    let a = chars_of(actual);
    let c = chars_of(clean.as_str());
    if !crate::text::chars_eq(a.as_slice(), c.as_slice()) {
        return Err(
            DownloadError::ChecksumMismatch {
                expected: clean,
                actual: String::from_str(actual),
                path: String::from_str(path),
            },
        );
    }
    Ok(())
}

/// The lower-case hexadecimal SHA-256 digest of a file's contents.
pub open spec fn digest_hex(contents: Seq<u8>) -> Seq<char> {
    hex_text(sha256_of(contents))
}

/// Verify the contents of the file downloaded to `path` against the
/// expected checksum. On an error the caller removes the file.
pub fn verify_checksum(path: &str, expected: &str, placeholder: bool, contents: &[u8]) -> (r: Result<(), DownloadError>)
    ensures
        r is Ok <==> checksum_ok(expected@, placeholder, digest_hex(contents@)),
        placeholder ==> (r matches Err(DownloadError::MissingChecksum { path: p, checksum: c }) && p@
            == path@ && c@ == expected@),
        !placeholder && !checksum_ok(expected@, placeholder, digest_hex(contents@)) ==> (r matches Err(
            DownloadError::ChecksumMismatch { expected: x, actual: a, path: p },
        ) && x@ == expected_digest(expected@) && a@ == digest_hex(contents@) && p@ == path@),
{
    if placeholder {
        return checksum_outcome(path, expected, placeholder, "");
    }
    let digest = sha256_digest(contents);
    let actual = hex_encode(digest.as_slice());
    checksum_outcome(path, expected, placeholder, actual.as_str())
}

/// The `sha256:` prefix of an expected checksum is optional: a digest
/// written with it is checked exactly as the bare digest is.
pub proof fn lemma_checksum_prefix_is_optional(digest: Seq<char>, placeholder: bool, actual: Seq<char>)
    requires
        !starts_with(digest, "sha256:"@),
    ensures
        expected_digest("sha256:"@ + digest) == digest,
        checksum_ok("sha256:"@ + digest, placeholder, actual) == checksum_ok(digest, placeholder, actual),
{
    reveal_strlit("sha256:");
    let full = "sha256:"@ + digest;
    assert(full.subrange(0, 7) =~= "sha256:"@);
    assert(full.skip(7) =~= digest);
}

} // verus!
