//! Unix path text: joining and appending, as `PathBuf` does them.

use vstd::prelude::*;
use crate::text::{chars_of, string_of};

verus! {

/// `Path::join` on Unix: an absolute `part` replaces `base`; otherwise `part`
/// is appended, with a `/` in between when `base` is non-empty and does not
/// already end in one.
pub open spec fn join(base: Seq<char>, part: Seq<char>) -> Seq<char> {
    if part.len() > 0 && part[0] == '/' {
        part
    } else if base.len() > 0 && base.last() != '/' {
        base + seq!['/'] + part
    } else {
        base + part
    }
}

/// Joins `part` onto the path `base` (see [`join`]).
pub fn join_path(base: &str, part: &str) -> (r: String)
    ensures
        r@ == join(base@, part@),
{
    let b = chars_of(base);
    let p = chars_of(part);
    if p.len() > 0 && p[0] == '/' {
        return string_of(p.as_slice());
    }
    let mut out = b;
    if out.len() > 0 && out[out.len() - 1] != '/' {
        out.push('/');
    }
    let ghost mid = out@;
    let mut i: usize = 0;
    while i < p.len()
        invariant
            0 <= i <= p.len(),
            p@ == part@,
            out@ == mid + p@.subrange(0, i as int),
        decreases p.len() - i,
    {
        out.push(p[i]);
        i = i + 1;
        assert(out@ =~= mid + p@.subrange(0, i as int));
    }
    assert(p@.subrange(0, p.len() as int) =~= p@);
    assert(out@ =~= join(base@, part@));
    string_of(out.as_slice())
}

/// Appends `suffix` to the text of `path` (`OsString::push`).
pub fn append_to_path(path: &str, suffix: &str) -> (r: String)
    ensures
        r@ == path@ + suffix@,
{
    let s = String::from_str(path);
    s.concat(suffix)
}

} // verus!
