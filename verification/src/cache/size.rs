//! Human-readable sizes: parsing limits such as "10G" and printing byte
//! counts such as "1.50 KB".

use vstd::prelude::*;
use vstd::arithmetic::power2::{pow2, lemma2_to64, lemma_pow2_adds, lemma_pow2_unfold, lemma_pow2_pos, lemma_pow2_strictly_increases};
use vstd::arithmetic::div_mod::{lemma_div_denominator, lemma_hoist_over_denominator, lemma_div_multiples_vanish};
use crate::text::{
    all_ascii, ascii_upper, is_ws, append_chars, dec, dec_chars, chars_eq_str, chars_of, find, find_chars, is_digit, string_of, to_uppercase, trim,
    trim_chars, uppercase,
};

verus! {

// ---------------------------------------------------------------------------
// Decimal digits
// ---------------------------------------------------------------------------

/// The value of an ASCII digit.
pub open spec fn digit_val(c: char) -> nat {
    ((c as u32) - 48) as nat
}

/// Every character of `s` is an ASCII digit.
pub open spec fn all_digits(s: Seq<char>) -> bool {
    forall|i: int| 0 <= i < s.len() ==> is_digit(s[i])
}

/// The number written by the decimal digits `s` (0 for no digits).
pub open spec fn digits_value(s: Seq<char>) -> nat
    decreases s.len(),
{
    if s.len() == 0 {
        0
    } else {
        digits_value(s.drop_last()) * 10 + digit_val(s.last())
    }
}

pub open spec fn pow10(n: nat) -> nat
    decreases n,
{
    if n == 0 {
        1
    } else {
        10 * pow10((n - 1) as nat)
    }
}

/// `u64::from_str`: an optional `+` followed by at least one decimal digit,
/// with a value that fits in a `u64`.
pub open spec fn parse_u64(s: Seq<char>) -> Option<u64> {
    let d = if s.len() > 0 && s[0] == '+' {
        s.drop_first()
    } else {
        s
    };
    if d.len() > 0 && all_digits(d) && digits_value(d) <= u64::MAX {
        Some(digits_value(d) as u64)
    } else {
        None
    }
}

/// `u64::from_str`.
pub fn parse_u64_chars(s: &[char]) -> (r: Option<u64>)
    ensures
        r == parse_u64(s@),
{
    let start: usize = if s.len() > 0 && s[0] == '+' {
        1
    } else {
        0
    };
    let ghost d = s@.skip(start as int);
    assert(d =~= if s@.len() > 0 && s@[0] == '+' {
        s@.drop_first()
    } else {
        s@
    });
    if start >= s.len() {
        return None;
    }
    let mut v: u128 = 0;
    let mut i = start;
    assert(d.take(0) =~= Seq::<char>::empty());
    while i < s.len()
        invariant
            start <= i <= s.len(),
            start < s.len(),
            d == s@.skip(start as int),
            parse_u64(s@) == (if d.len() > 0 && all_digits(d) && digits_value(d) <= u64::MAX {
                Some(digits_value(d) as u64)
            } else {
                None
            }),
            all_digits(d.take(i - start)),
            v == digits_value(d.take(i - start)),
            v <= u64::MAX,
        decreases s.len() - i,
    {
        let c = s[i];
        assert(d.take(i - start + 1).drop_last() =~= d.take(i - start));
        assert(d.take(i - start + 1).last() == c);
        if !('0' <= c && c <= '9') {
            assert(!all_digits(d)) by {
                assert(d[i - start] == c);
            }
            return None;
        }
        v = v * 10 + ((c as u32) - 48) as u128;
        if v > 18446744073709551615u128 {
            proof {
                lemma_digits_value_prefix_le(d, i - start + 1);
            }
            return None;
        }
        i = i + 1;
        assert(all_digits(d.take(i - start))) by {
            assert forall|k: int| 0 <= k < i - start implies is_digit(#[trigger] d.take(i - start)[k]) by {
                if k < i - start - 1 {
                    assert(d.take(i - start)[k] == d.take(i - start - 1)[k]);
                }
            }
        }
    }
    assert(d.take(i - start) =~= d);
    Some(v as u64)
}

/// A longer run of digits never has a smaller value than its prefix.
pub proof fn lemma_digits_value_prefix_le(d: Seq<char>, k: int)
    requires
        0 <= k <= d.len(),
    ensures
        digits_value(d.take(k)) <= digits_value(d),
    decreases d.len() - k,
{
    if k < d.len() {
        lemma_digits_value_prefix_le(d, k + 1);
        assert(d.take(k + 1).drop_last() =~= d.take(k));
    } else {
        assert(d.take(k) =~= d);
    }
}

// ---------------------------------------------------------------------------
// Parsing sizes
// ---------------------------------------------------------------------------

/// Number of occurrences of `c` in `s`.
pub open spec fn count_char(s: Seq<char>, c: char) -> nat
    decreases s.len(),
{
    if s.len() == 0 {
        0
    } else {
        count_char(s.drop_last(), c) + if s.last() == c {
            1nat
        } else {
            0nat
        }
    }
}

/// Text made of digits and dots that `f64::from_str` accepts: at most one
/// dot and at least one digit.
pub open spec fn valid_decimal(n: Seq<char>) -> bool {
    count_char(n, '.') <= 1 && count_char(n, '.') < n.len()
}

/// The digits before the dot of a decimal, and those after it.
pub open spec fn decimal_parts(n: Seq<char>) -> (Seq<char>, Seq<char>) {
    match find(n, seq!['.']) {
        Some(i) => (n.subrange(0, i), n.subrange(i + 1, n.len() as int)),
        None => (n, Seq::empty()),
    }
}

/// `(n * m as f64) as u64` for the decimal `n` read as an `f64`: the
/// product rounded to the nearest `f64` (a power-of-two `m` scales the
/// rounded number exactly), then truncated, saturating at `u64::MAX`.
pub open spec fn scaled(n: Seq<char>, m: nat) -> u64 {
    let (ip, fp) = decimal_parts(n);
    let q = pow10(fp.len());
    let v = f64_floor((digits_value(ip) * q + digits_value(fp)) * m, q);
    if v > u64::MAX {
        u64::MAX
    } else {
        v as u64
    }
}

/// `floor(x)` for the `f64` nearest to `p / q` (`q > 0`): the quotient
/// rounded to a 53-bit significand, to nearest, ties to even.
pub open spec fn f64_floor(p: nat, q: nat) -> nat {
    let i = p / q;
    let b = bit_len(i);
    if b >= 53 {
        let g = pow2((b - 53) as nat);
        round_half_even(p, q * g) * g
    } else {
        let t = pow2((53 - b) as nat);
        round_half_even(p * t, q) / t
    }
}

proof fn lemma_bit_len_range(i: nat)
    ensures
        i < pow2(bit_len(i)),
        i > 0 ==> bit_len(i) >= 1 && pow2((bit_len(i) - 1) as nat) <= i,
    decreases i,
{
    if i > 0 {
        lemma_bit_len_range(i / 2);
        lemma_pow2_unfold(bit_len(i));
        if i / 2 > 0 {
            lemma_pow2_unfold((bit_len(i) - 1) as nat);
        } else {
            assert(bit_len(i) == 1);
            assert(pow2(0) == 1) by {
                lemma2_to64();
            }
        }
    } else {
        lemma_pow2_pos(0);
    }
}

/// Below 2^53 the nearest `f64` has the integer part `i` of `i + r/q`, or
/// `i + 1` when the fraction is within half a unit in the last place of
/// the next integer: when its first `54 - bit_len(i)` bits are all ones.
proof fn lemma_f64_floor_low(i: nat, r: nat, q: nat)
    requires
        r < q,
        bit_len(i) < 53,
    ensures
        f64_floor(i * q + r, q) == i + if (r * pow2((54 - bit_len(i)) as nat)) / q == pow2(
            (54 - bit_len(i)) as nat,
        ) - 1 {
            1nat
        } else {
            0nat
        },
{
    let b = bit_len(i);
    let t = (53 - b) as nat;
    let tt = pow2(t);
    let u = (54 - b) as nat;
    lemma_pow2_unfold(u);
    lemma_pow2_unfold(t);
    lemma_pow2_pos((t - 1) as nat);
    assert(pow2(u) == 2 * tt);
    let p = i * q + r;
    vstd::arithmetic::div_mod::lemma_fundamental_div_mod_converse(p as int, q as int, i as int, r as int);
    assert(p / q == i);
    let y = (r * tt) / q;
    let r1 = (r * tt) % q;
    vstd::arithmetic::div_mod::lemma_fundamental_div_mod((r * tt) as int, q as int);
    assert(r * tt == y * q + r1);
    assert(r1 < q);
    assert(y < tt) by (nonlinear_arith)
        requires
            r * tt == y * q + r1,
            r < q,
            tt >= 1,
            r1 >= 0,
    ;
    let n = p * tt;
    assert(n == (i * tt + y) * q + r1) by (nonlinear_arith)
        requires
            p == i * q + r,
            r * tt == y * q + r1,
            n == p * tt,
    ;
    vstd::arithmetic::div_mod::lemma_fundamental_div_mod_converse(n as int, q as int, (i * tt + y) as int, r1 as int);
    let q1 = i * tt + y;
    assert(n / q == q1);
    assert(n % q == r1);
    let c: nat = if 2 * r1 > q || (2 * r1 == q && q1 % 2 == 1) { 1 } else { 0 };
    assert(round_half_even(n, q) == q1 + c);
    // the doubled fraction
    let z = (r * (2 * tt)) / q;
    assert(r * (2 * tt) == 2 * y * q + 2 * r1) by (nonlinear_arith)
        requires
            r * tt == y * q + r1,
    ;
    if 2 * r1 >= q {
        assert(r * (2 * tt) == (2 * y + 1) * q + (2 * r1 - q)) by (nonlinear_arith)
            requires
                r * (2 * tt) == 2 * y * q + 2 * r1,
        ;
        vstd::arithmetic::div_mod::lemma_fundamental_div_mod_converse(
            (r * (2 * tt)) as int,
            q as int,
            (2 * y + 1) as int,
            (2 * r1 - q) as int,
        );
        assert(z == 2 * y + 1);
    } else {
        assert(r * (2 * tt) == (2 * y) * q + (2 * r1)) by (nonlinear_arith)
            requires
                r * (2 * tt) == 2 * y * q + 2 * r1,
        ;
        vstd::arithmetic::div_mod::lemma_fundamental_div_mod_converse(
            (r * (2 * tt)) as int,
            q as int,
            (2 * y) as int,
            (2 * r1) as int,
        );
        assert(z == 2 * y);
    }
    let half = i * pow2((t - 1) as nat);
    assert(i * tt == 2 * half) by (nonlinear_arith)
        requires
            tt == 2 * pow2((t - 1) as nat),
            half == i * pow2((t - 1) as nat),
    ;
    assert((2 * half) % 2 == 0);
    assert((i * tt) % 2 == 0);
    assert(q1 % 2 == y % 2);
    if y + 1 == tt {
        assert(y % 2 == 1);
        assert(c == if 2 * r1 >= q { 1nat } else { 0nat });
    }
    if y + c < tt {
        vstd::arithmetic::div_mod::lemma_fundamental_div_mod_converse((q1 + c) as int, tt as int, i as int, (y + c) as int);
    } else {
        assert(y + c == tt);
        assert(q1 + c == (i + 1) * tt + 0) by (nonlinear_arith)
            requires
                q1 == i * tt + y,
                y + c == tt,
        ;
        vstd::arithmetic::div_mod::lemma_fundamental_div_mod_converse((q1 + c) as int, tt as int, (i + 1) as int, 0);
    }
}

/// From 2^52 on, the nearest `f64` is a multiple of `g = 2^(bit_len(i) -
/// 53)`: `i` rounded to such a multiple, the fraction `r/q` only breaking a
/// tie (or, when `g == 1`, deciding the rounding).
proof fn lemma_f64_floor_high(i: nat, r: nat, q: nat)
    requires
        r < q,
        bit_len(i) >= 53,
    ensures
        ({
            let g = pow2((bit_len(i) - 53) as nat);
            let s = i % g;
            let qq = i / g;
            let up: nat = if g == 1 {
                if 2 * r > q || (2 * r == q && qq % 2 == 1) {
                    1
                } else {
                    0
                }
            } else if 2 * s > g || (2 * s == g && (r > 0 || qq % 2 == 1)) {
                1
            } else {
                0
            };
            f64_floor(i * q + r, q) == (qq + up) * g
        }),
{
    let b = bit_len(i);
    let g = pow2((b - 53) as nat);
    lemma_pow2_pos((b - 53) as nat);
    let p = i * q + r;
    vstd::arithmetic::div_mod::lemma_fundamental_div_mod_converse(p as int, q as int, i as int, r as int);
    assert(p / q == i);
    assert(p % q == r);
    let s = i % g;
    let qq = i / g;
    vstd::arithmetic::div_mod::lemma_div_denominator(p as int, q as int, g as int);
    assert(p / (q * g) == qq);
    vstd::arithmetic::div_mod::lemma_mod_breakdown(p as int, q as int, g as int);
    assert(p % (q * g) == q * s + r);
    vstd::arithmetic::div_mod::lemma_fundamental_div_mod(i as int, g as int);
    assert(s < g);
    if g == 1 {
        assert(s == 0);
        assert(q * s == 0) by (nonlinear_arith)
            requires
                s == 0,
        ;
        assert(q * g == q) by (nonlinear_arith)
            requires
                g == 1,
        ;
    } else {
        assert(pow2(0) == 1) by {
            lemma2_to64();
        }
        assert(b - 53 > 0);
        lemma_pow2_unfold((b - 53) as nat);
        assert(g % 2 == 0);
        if 2 * s > g {
            assert(2 * s >= g + 2);
            assert(2 * (q * s + r) > q * g) by (nonlinear_arith)
                requires
                    2 * s >= g + 2,
                    q >= 1,
            ;
        } else if 2 * s < g {
            assert(2 * s + 2 <= g);
            assert(2 * (q * s + r) < q * g) by (nonlinear_arith)
                requires
                    2 * s + 2 <= g,
                    r < q,
            ;
        } else {
            assert(2 * (q * s + r) == q * g + 2 * r) by (nonlinear_arith)
                requires
                    2 * s == g,
            ;
        }
    }
}

/// From 2^64 on the nearest `f64` is at least 2^64.
proof fn lemma_f64_floor_saturates(i: nat, r: nat, q: nat)
    requires
        r < q,
        i >= 0x1_0000_0000_0000_0000,
    ensures
        f64_floor(i * q + r, q) >= 0x1_0000_0000_0000_0000,
{
    lemma_bit_len_range(i);
    lemma2_to64();
    let b = bit_len(i);
    if b < 64 {
        lemma_pow2_strictly_increases(b, 64);
    }
    assert(b >= 65);
    lemma_f64_floor_high(i, r, q);
    let g = pow2((b - 53) as nat);
    lemma_pow2_pos((b - 53) as nat);
    lemma_pow2_adds(52, (b - 53) as nat);
    assert(pow2((b - 1) as nat) == pow2(52) * g);
    let qq = i / g;
    vstd::arithmetic::div_mod::lemma_div_is_ordered(pow2((b - 1) as nat) as int, i as int, g as int);
    vstd::arithmetic::div_mod::lemma_div_multiples_vanish(pow2(52) as int, g as int);
    assert(i > 0);
    assert(pow2((b - 1) as nat) <= i);
    assert(pow2((b - 1) as nat) / g <= i / g);
    assert(pow2(52) * g == g * pow2(52)) by (nonlinear_arith);
    assert((g * pow2(52)) / g == pow2(52));
    assert(qq >= pow2(52));
    if b - 1 > 64 {
        lemma_pow2_strictly_increases(64, (b - 1) as nat);
    }
    let ff = f64_floor(i * q + r, q);
    assert(ff == qq * g || ff == (qq + 1) * g) by (nonlinear_arith)
        requires
            ff == qq * g || ff == (qq + 0) * g || ff == (qq + 1) * g,
    ;
    assert(ff >= pow2(52) * g) by (nonlinear_arith)
        requires
            ff == qq * g || ff == (qq + 1) * g,
            qq >= pow2(52),
            g >= 1,
    ;
}

/// The byte multiplier of an (upper-cased) size unit.
pub open spec fn unit_multiplier(u: Seq<char>) -> Option<u64> {
    if u == "B"@ {
        Some(1)
    } else if u == "K"@ || u == "KB"@ || u == "KIB"@ {
        Some(1024)
    } else if u == "M"@ || u == "MB"@ || u == "MIB"@ {
        Some(1048576)
    } else if u == "G"@ || u == "GB"@ || u == "GIB"@ {
        Some(1073741824)
    } else if u == "T"@ || u == "TB"@ || u == "TIB"@ {
        Some(1099511627776)
    } else {
        None
    }
}

/// First position of a character that is neither a digit nor a dot.
pub open spec fn unit_start(s: Seq<char>, i: int) -> Option<int>
    decreases s.len() - i,
{
    if i < 0 || i >= s.len() {
        None
    } else if !is_digit(s[i]) && s[i] != '.' {
        Some(i)
    } else {
        unit_start(s, i + 1)
    }
}

/// What [`parse_size`] returns for `s`: the trimmed, upper-cased text `u`
/// read as a plain `u64`, or as a decimal number followed by a unit
/// (B, K/KB/KIB, M/MB/MIB, G/GB/GIB, T/TB/TIB, powers of 1024) scaled and
/// rounded down; otherwise the error message.
///
/// The decimal is read as an `f64` (rounded to 53 significant bits, to
/// nearest, ties to even) before it is scaled and truncated: so
/// `0.99999999999999999999K` is 1024 bytes (see [`scaled`]).
pub open spec fn size_value(s: Seq<char>) -> Result<u64, Seq<char>> {
    let u = uppercase(trim(s));
    match parse_u64(u) {
        Some(n) => Ok(n),
        None => match unit_start(u, 0) {
            None => Err("invalid size format: "@ + u),
            Some(pos) => {
                let num = u.subrange(0, pos);
                let unit = u.subrange(pos, u.len() as int);
                if !valid_decimal(num) {
                    Err("invalid number: "@ + num)
                } else {
                    match unit_multiplier(unit) {
                        Some(m) => Ok(scaled(num, m as nat)),
                        None => Err("unknown size unit: "@ + unit),
                    }
                }
            },
        },
    }
}


/// `floor(f * m)` for the digits `f` read as a fraction `0.f`, computed from
/// the last digit to the first.
pub open spec fn frac_scaled(f: Seq<char>, m: nat) -> nat
    decreases f.len(),
{
    if f.len() == 0 {
        0
    } else {
        (digit_val(f[0]) * m + frac_scaled(f.drop_first(), m)) / 10
    }
}

proof fn lemma_digits_value_front(f: Seq<char>)
    requires
        f.len() >= 1,
    ensures
        digits_value(f) == digit_val(f[0]) * pow10((f.len() - 1) as nat) + digits_value(
            f.drop_first(),
        ),
    decreases f.len(),
{
    let a = digit_val(f[0]);
    if f.len() == 1 {
        assert(f.drop_last() =~= Seq::<char>::empty());
        assert(f.drop_first() =~= Seq::<char>::empty());
        assert(digits_value(f.drop_last()) == 0);
        assert(digits_value(f.drop_first()) == 0);
        assert(f.last() == f[0]);
        assert(digits_value(f) == digits_value(f.drop_last()) * 10 + digit_val(f.last()));
        assert(pow10(0) == 1);
        assert(a * 1 == a);
    } else {
        let g = f.drop_last();
        let h = f.drop_first();
        lemma_digits_value_front(g);
        assert(g.drop_first() =~= h.drop_last());
        assert(h.last() == f.last());
        assert(g[0] == f[0]);
        let p = pow10((g.len() - 1) as nat);
        let b = digits_value(g.drop_first());
        let l = digit_val(f.last());
        assert(pow10((f.len() - 1) as nat) == 10 * p);
        assert(digits_value(f) == digits_value(g) * 10 + l);
        assert(digits_value(h) == digits_value(h.drop_last()) * 10 + digit_val(h.last()));
        assert(digits_value(h) == b * 10 + l);
        assert(digits_value(g) == a * p + b);
        assert((a * p + b) * 10 + l == a * (10 * p) + (b * 10 + l)) by (nonlinear_arith);
    }
}

proof fn lemma_pow10_positive(n: nat)
    ensures
        pow10(n) >= 1,
    decreases n,
{
    if n > 0 {
        lemma_pow10_positive((n - 1) as nat);
    }
}

proof fn lemma_frac_scaled(f: Seq<char>, m: nat)
    ensures
        frac_scaled(f, m) == digits_value(f) * m / pow10(f.len()),
    decreases f.len(),
{
    if f.len() > 0 {
        let rest = f.drop_first();
        lemma_frac_scaled(rest, m);
        lemma_digits_value_front(f);
        lemma_pow10_positive(rest.len());
        let p = pow10(rest.len());
        let d = digit_val(f[0]);
        let vr = digits_value(rest);
        assert(pow10(f.len()) == 10 * p);
        assert(digits_value(f) * m == vr * m + (d * m) * p) by (nonlinear_arith)
            requires
                digits_value(f) == d * p + vr,
        ;
        assert(vr * m >= 0) by (nonlinear_arith);
        let x: int = (vr * m + (d * m) * p) as int;
        lemma_hoist_over_denominator((vr * m) as int, (d * m) as int, p);
        assert((vr * m) as int / (p as int) + (d * m) as int == x / (p as int));
        lemma_div_denominator(x, p as int, 10);
        assert(x / (p as int) / 10 == x / (p as int * 10));
        assert(p * 10 == 10 * p);
        assert(frac_scaled(f, m) == (d * m + frac_scaled(rest, m)) / 10);
        assert(frac_scaled(rest, m) == (vr * m) / p);
        assert(digits_value(f) * m / pow10(f.len()) == x / (p as int * 10));
        assert(d * m + frac_scaled(rest, m) == x / (p as int));
    } else {
        assert(digits_value(f) == 0);
        assert(pow10(0) == 1);
        assert(0 * m == 0);
    }
}

/// `0.f * m` is a whole number, computed from the last digit to the first.
pub open spec fn frac_zero(f: Seq<char>, m: nat) -> bool
    decreases f.len(),
{
    if f.len() == 0 {
        true
    } else {
        (digit_val(f[0]) * m + frac_scaled(f.drop_first(), m)) % 10 == 0 && frac_zero(f.drop_first(), m)
    }
}

proof fn lemma_frac_zero(f: Seq<char>, m: nat)
    ensures
        frac_zero(f, m) == ((digits_value(f) * m) % pow10(f.len()) == 0),
    decreases f.len(),
{
    if f.len() > 0 {
        let rest = f.drop_first();
        lemma_frac_zero(rest, m);
        lemma_frac_scaled(rest, m);
        lemma_digits_value_front(f);
        lemma_pow10_positive(rest.len());
        let p = pow10(rest.len());
        let d = digit_val(f[0]);
        let vr = digits_value(rest);
        let fs = frac_scaled(rest, m);
        let rr = (vr * m) % p;
        vstd::arithmetic::div_mod::lemma_fundamental_div_mod((vr * m) as int, p as int);
        assert(vr * m == fs * p + rr);
        let x = d * m + fs;
        assert(pow10(f.len()) == 10 * p);
        assert(digits_value(f) * m == x * p + rr) by (nonlinear_arith)
            requires
                digits_value(f) == d * p + vr,
                vr * m == fs * p + rr,
                x == d * m + fs,
        ;
        vstd::arithmetic::div_mod::lemma_fundamental_div_mod(x as int, 10);
        let xq = x / 10;
        let xr = x % 10;
        assert(x * p + rr == xq * (10 * p) + (xr * p + rr)) by (nonlinear_arith)
            requires
                x == xq * 10 + xr,
        ;
        assert(xr * p + rr < 10 * p) by (nonlinear_arith)
            requires
                xr < 10,
                rr < p,
        ;
        vstd::arithmetic::div_mod::lemma_fundamental_div_mod_converse(
            (x * p + rr) as int,
            (10 * p) as int,
            xq as int,
            (xr * p + rr) as int,
        );
        if xr * p + rr == 0 {
            assert(xr == 0 && rr == 0) by (nonlinear_arith)
                requires
                    xr * p + rr == 0,
                    p >= 1,
            ;
        }
        if xr == 0 && rr == 0 {
            assert(xr * p + rr == 0) by (nonlinear_arith)
                requires
                    xr == 0,
                    rr == 0,
            ;
        }
        assert((digits_value(f) * m) % pow10(f.len()) == xr * p + rr);
        assert(frac_zero(f, m) == (xr == 0 && frac_zero(rest, m)));
        assert(rest.len() == f.len() - 1);
    } else {
        assert(pow10(0) == 1);
        assert(digits_value(f) * m == 0) by (nonlinear_arith)
            requires
                digits_value(f) == 0,
        ;
    }
}

proof fn lemma_scaled_split(i: nat, f: nat, p: nat, m: nat)
    requires
        p >= 1,
    ensures
        ((i * p + f) * m) / p == i * m + (f * m) / p,
{
    assert((i * p + f) * m == f * m + (i * m) * p) by (nonlinear_arith);
    assert(f * m >= 0) by (nonlinear_arith);
    lemma_hoist_over_denominator((f * m) as int, (i * m) as int, p);
}

proof fn lemma_count_char_add(a: Seq<char>, b: Seq<char>, c: char)
    ensures
        count_char(a + b, c) == count_char(a, c) + count_char(b, c),
    decreases b.len(),
{
    if b.len() > 0 {
        lemma_count_char_add(a, b.drop_last(), c);
        assert((a + b).drop_last() =~= a + b.drop_last());
    } else {
        assert(a + b =~= a);
    }
}

proof fn lemma_count_char_zero(s: Seq<char>, c: char)
    requires
        count_char(s, c) == 0,
    ensures
        forall|i: int| 0 <= i < s.len() ==> s[i] != c,
    decreases s.len(),
{
    if s.len() > 0 {
        lemma_count_char_zero(s.drop_last(), c);
        assert forall|i: int| 0 <= i < s.len() implies s[i] != c by {
            if i < s.len() - 1 {
                assert(s[i] == s.drop_last()[i]);
            }
        }
    }
}

proof fn lemma_count_char_positive(s: Seq<char>, c: char, i: int)
    requires
        0 <= i < s.len(),
        s[i] == c,
    ensures
        count_char(s, c) >= 1,
    decreases s.len(),
{
    if i < s.len() - 1 {
        lemma_count_char_positive(s.drop_last(), c, i);
    }
}

/// Both parts of a valid decimal are made of digits.
proof fn lemma_decimal_parts_digits(n: Seq<char>)
    requires
        valid_decimal(n),
        forall|i: int| 0 <= i < n.len() ==> is_digit(n[i]) || n[i] == '.',
    ensures
        all_digits(decimal_parts(n).0),
        all_digits(decimal_parts(n).1),
{
    crate::text::lemma_find_from_found(n, seq!['.'], 0);
    match find(n, seq!['.']) {
        Some(i) => {
            let a = n.subrange(0, i);
            let b = n.subrange(i + 1, n.len() as int);
            assert forall|j: int| 0 <= j < a.len() implies is_digit(a[j]) by {
                assert(!crate::text::occurs_at(n, seq!['.'], j));
                assert(n.subrange(j, j + 1) =~= seq![n[j]]);
            }
            assert(n.subrange(i, i + 1) == seq!['.']);
            assert(n[i] == '.') by {
                assert(n.subrange(i, i + 1)[0] == n[i]);
            }
            assert(n =~= a + seq!['.'] + b);
            lemma_count_char_add(a + seq!['.'], b, '.');
            lemma_count_char_add(a, seq!['.'], '.');
            assert(count_char(seq!['.'], '.') == 1) by {
                assert(seq!['.'].drop_last().len() == 0);
            }
            lemma_count_char_zero(b, '.');
            assert forall|j: int| 0 <= j < b.len() implies is_digit(b[j]) by {
                assert(b[j] == n[i + 1 + j]);
            }
        },
        None => {
            assert forall|j: int| 0 <= j < n.len() implies is_digit(n[j]) by {
                assert(!crate::text::occurs_at(n, seq!['.'], j));
                assert(n.subrange(j, j + 1) =~= seq![n[j]]);
            }
            assert(all_digits(Seq::<char>::empty()));
        },
    }
}

proof fn lemma_cap_step(v: nat, d: nat, big: nat)
    requires
        d < 10,
        big >= 1,
    ensures
        ({
            let c = if v < big { v } else { big };
            let n = c * 10 + d;
            (if n >= big { big } else { n }) == (if v * 10 + d < big { v * 10 + d } else { big })
        }),
{
    if v >= big {
        assert(big * 10 + d >= big) by (nonlinear_arith) requires big >= 1;
        assert(v * 10 + d >= big) by (nonlinear_arith) requires v >= big;
    }
}

/// `floor(0.f * m)` and whether `0.f * m` is whole.
fn frac_scale(f: &[char], m: u128) -> (r: (u128, bool))
    requires
        all_digits(f@),
        1 <= m <= 0x8000_0000_0000_0000_0000_0000,
    ensures
        r.0 == frac_scaled(f@, m as nat),
        r.1 == frac_zero(f@, m as nat),
        r.0 <= m,
{
    let mut t: u128 = 0;
    let mut zero = true;
    let mut j: usize = f.len();
    assert(f@.skip(j as int) =~= Seq::<char>::empty());
    while j > 0
        invariant
            0 <= j <= f.len(),
            1 <= m <= 0x8000_0000_0000_0000_0000_0000,
            all_digits(f@),
            t == frac_scaled(f@.skip(j as int), m as nat),
            zero == frac_zero(f@.skip(j as int), m as nat),
            t <= m,
        decreases j,
    {
        let ch = f[j - 1];
        assert(is_digit(f@[j - 1]));
        let d: u128 = ((ch as u32) - 48) as u128;
        assert(f@.skip(j - 1).drop_first() =~= f@.skip(j as int));
        assert(f@.skip(j - 1)[0] == ch);
        assert(d * m + t <= 10 * m) by (nonlinear_arith)
            requires
                d <= 9,
                t <= m,
        ;
        let x = d * m + t;
        zero = x % 10 == 0 && zero;
        t = x / 10;
        j = j - 1;
    }
    assert(f@.skip(0) =~= f@);
    (t, zero)
}

/// `(n * m as f64) as u64` for the decimal `n` (digits with at most one dot
/// and at least one digit) read as an `f64` (see [`scaled`]), computed with
/// integers only.
#[verifier::spinoff_prover]
#[verifier::rlimit(50)]
fn scale_decimal(n: &[char], m: u64) -> (r: u64)
    requires
        1 <= m <= 1099511627776,
        forall|i: int| 0 <= i < n@.len() ==> is_digit(n@[i]) || n@[i] == '.',
        valid_decimal(n@),
    ensures
        r == scaled(n@, m as nat),
{
    let dot = vec!['.'];
    assert(dot@ =~= seq!['.']);
    let (ip, fp): (Vec<char>, Vec<char>) = match find_chars(n, dot.as_slice()) {
        Some(i) => {
            let mut a: Vec<char> = Vec::new();
            let mut k: usize = 0;
            while k < i
                invariant
                    0 <= k <= i,
                    i < n.len(),
                    a@ == n@.subrange(0, k as int),
                decreases i - k,
            {
                a.push(n[k]);
                k = k + 1;
                assert(a@ =~= n@.subrange(0, k as int));
            }
            let mut b: Vec<char> = Vec::new();
            let mut k2: usize = i + 1;
            while k2 < n.len()
                invariant
                    i + 1 <= k2 <= n.len(),
                    b@ == n@.subrange(i + 1, k2 as int),
                decreases n.len() - k2,
            {
                b.push(n[k2]);
                k2 = k2 + 1;
                assert(b@ =~= n@.subrange(i + 1, k2 as int));
            }
            (a, b)
        },
        None => {
            let mut a: Vec<char> = Vec::new();
            let mut k: usize = 0;
            while k < n.len()
                invariant
                    0 <= k <= n.len(),
                    a@ == n@.subrange(0, k as int),
                decreases n.len() - k,
            {
                a.push(n[k]);
                k = k + 1;
                assert(a@ =~= n@.subrange(0, k as int));
            }
            assert(a@ =~= n@);
            (a, Vec::new())
        },
    };
    assert((ip@, fp@) == decimal_parts(n@));
    proof {
        lemma_decimal_parts_digits(n@);
    }
    let big: u128 = 18446744073709551616u128;
    let mm: u128 = m as u128;
    // Integer part, capped at 2^64.
    let mut c: u128 = 0;
    let mut k: usize = 0;
    assert(ip@.take(0) =~= Seq::<char>::empty());
    while k < ip.len()
        invariant
            0 <= k <= ip.len(),
            big == 18446744073709551616u128,
            all_digits(ip@),
            c == if digits_value(ip@.take(k as int)) < big {
                digits_value(ip@.take(k as int))
            } else {
                big as nat
            },
        decreases ip.len() - k,
    {
        let ch = ip[k];
        assert(ip@.take(k + 1).drop_last() =~= ip@.take(k as int));
        assert(ip@.take(k + 1).last() == ch);
        assert(is_digit(ch));
        let d: u128 = ((ch as u32) - 48) as u128;
        proof {
            lemma_cap_step(digits_value(ip@.take(k as int)), d as nat, big as nat);
        }
        c = if c * 10 + d >= big {
            big
        } else {
            c * 10 + d
        };
        k = k + 1;
    }
    assert(ip@.take(k as int) =~= ip@);
    // Fraction part: floor(0.fp * m), and whether 0.fp * m is whole.
    let (t, whole) = frac_scale(fp.as_slice(), mm);
    let ghost q = pow10(fp@.len());
    let ghost x = digits_value(fp@) * (m as nat);
    let ghost rem = x % q;
    proof {
        lemma_frac_scaled(fp@, m as nat);
        lemma_frac_zero(fp@, m as nat);
        lemma_pow10_positive(fp@.len());
        vstd::arithmetic::div_mod::lemma_fundamental_div_mod(x as int, q as int);
        assert(t == x / q);
        assert(x == q * (x / q) + rem);
        assert(q * (x / q) == (x / q) * q) by (nonlinear_arith);
        assert(x == t * q + rem);
    }
    assert(c * mm <= 18446744073709551616u128 * 1099511627776u128) by (nonlinear_arith)
        requires
            c <= 18446744073709551616u128,
            mm <= 1099511627776u128,
    ;
    let total = c * mm + t;
    if total >= big {
        proof {
            let i: nat = (digits_value(ip@) * (m as nat) + (t as nat)) as nat;
            if digits_value(ip@) >= big as nat {
                assert(digits_value(ip@) * (m as nat) >= big) by (nonlinear_arith)
                    requires
                        digits_value(ip@) >= big as nat,
                        m >= 1,
                ;
            } else {
                assert(c == digits_value(ip@));
            }
            assert(i >= big);
            assert((digits_value(ip@) * q + digits_value(fp@)) * (m as nat) == i * q + rem) by (nonlinear_arith)
                requires
                    x == digits_value(fp@) * (m as nat),
                    x == t * q + rem,
                    i == digits_value(ip@) * (m as nat) + t,
            ;
            lemma_f64_floor_saturates(i, rem, q);
        }
        return u64::MAX;
    }
    proof {
        if digits_value(ip@) >= big as nat {
            assert(c * mm >= big) by (nonlinear_arith)
                requires
                    c == big,
                    mm >= 1,
            ;
        }
        assert(c == digits_value(ip@));
        assert((digits_value(ip@) * q + digits_value(fp@)) * (m as nat) == (total as nat) * q + rem) by (nonlinear_arith)
            requires
                x == digits_value(fp@) * (m as nat),
                x == t * q + rem,
                total == c * mm + t,
                c == digits_value(ip@),
                mm == m,
        ;
    }
    let i: u128 = total;
    let b = bit_len_exec(i as u64);
    if b >= 53 {
        let g = pow2_exec(b - 53);
        proof {
            lemma_f64_floor_high(i as nat, rem, q);
            lemma_pow2_pos(0);
            if b - 53 < 11 {
                lemma_pow2_strictly_increases((b - 53) as nat, 11);
            }
            lemma2_to64();
        }
        let s = i % g;
        let qq = i / g;
        let up: u128 = if g == 1 {
            let (t2, whole2) = frac_scale(fp.as_slice(), 2 * mm);
            proof {
                lemma_frac_scaled(fp@, 2 * (m as nat));
                lemma_frac_zero(fp@, 2 * (m as nat));
                assert(digits_value(fp@) * (2 * (m as nat)) == (2 * t) * q + 2 * rem) by (nonlinear_arith)
                    requires
                        x == digits_value(fp@) * (m as nat),
                        x == t * q + rem,
                ;
                if 2 * rem >= q {
                    assert(digits_value(fp@) * (2 * (m as nat)) == (2 * t + 1) * q + (2 * rem - q)) by (nonlinear_arith)
                        requires
                            digits_value(fp@) * (2 * (m as nat)) == (2 * t) * q + 2 * rem,
                    ;
                    vstd::arithmetic::div_mod::lemma_fundamental_div_mod_converse(
                        (digits_value(fp@) * (2 * (m as nat))) as int,
                        q as int,
                        (2 * t + 1) as int,
                        (2 * rem - q) as int,
                    );
                } else {
                    vstd::arithmetic::div_mod::lemma_fundamental_div_mod_converse(
                        (digits_value(fp@) * (2 * (m as nat))) as int,
                        q as int,
                        (2 * t) as int,
                        (2 * rem) as int,
                    );
                }
            }
            let h = t2 - 2 * t;
            if h == 1 && (!whole2 || qq % 2 == 1) {
                1
            } else {
                0
            }
        } else {
            if 2 * s > g || (2 * s == g && (!whole || qq % 2 == 1)) {
                1
            } else {
                0
            }
        };
        assert(qq * g <= i) by (nonlinear_arith)
            requires
                qq == i / g,
                g >= 1,
        ;
        assert(g <= 2048);
        assert((qq + up) * g <= qq * g + g) by (nonlinear_arith)
            requires
                up <= 1,
        ;
        let v = (qq + up) * g;
        if v > 18446744073709551615u128 {
            u64::MAX
        } else {
            v as u64
        }
    } else {
        let u: u32 = 54 - b;
        let pu = pow2_exec(u);
        proof {
            lemma_f64_floor_low(i as nat, rem, q);
            lemma2_to64();
            vstd::arithmetic::power2::lemma2_to64_rest();
            lemma_pow2_strictly_increases(u as nat, 64);
            lemma_pow2_adds(40, 54);
            if u < 54 {
                lemma_pow2_strictly_increases(u as nat, 54);
            }
        }
        assert(mm * pu <= 0x8000_0000_0000_0000_0000_0000) by (nonlinear_arith)
            requires
                mm <= 1099511627776,
                pu <= 18014398509481984,
        ;
        assert(mm * pu >= 1) by (nonlinear_arith)
            requires
                mm >= 1,
                pu >= 1,
        ;
        assert(pu * t <= mm * pu) by (nonlinear_arith)
            requires
                t <= mm,
        ;
        let (tb, _) = frac_scale(fp.as_slice(), mm * pu);
        proof {
            let pn: nat = pu as nat;
            let tn: nat = t as nat;
            lemma_frac_scaled(fp@, (m as nat) * pn);
            assert(digits_value(fp@) * ((m as nat) * pn) == (tn * pn) * q + rem * pn) by (nonlinear_arith)
                requires
                    x == digits_value(fp@) * (m as nat),
                    x == tn * q + rem,
            ;
            vstd::arithmetic::div_mod::lemma_fundamental_div_mod((rem * pn) as int, q as int);
            let zz: nat = (rem * pn) / q;
            let rz: nat = (rem * pn) % q;
            assert(rem * pn == q * zz + rz);
            assert(q * zz == zz * q) by (nonlinear_arith);
            assert(rem * pn == zz * q + rz);
            assert(digits_value(fp@) * ((m as nat) * pn) == (tn * pn + zz) * q + rz) by (nonlinear_arith)
                requires
                    digits_value(fp@) * ((m as nat) * pn) == (tn * pn) * q + rem * pn,
                    rem * pn == zz * q + rz,
            ;
            vstd::arithmetic::div_mod::lemma_fundamental_div_mod_converse(
                (digits_value(fp@) * ((m as nat) * pn)) as int,
                q as int,
                (tn * pn + zz) as int,
                rz as int,
            );
            assert(tb == tn * pn + zz);
            assert(tn * pn <= tb);
            assert(pu * t == tn * pn) by (nonlinear_arith)
                requires
                    tn == t,
                    pn == pu,
            ;
        }
        proof {
            lemma_bit_len_range(i as nat);
            lemma_pow2_strictly_increases(b as nat, 53);
        }
        let z = tb - pu * t;
        if z == pu - 1 {
            (i + 1) as u64
        } else {
            i as u64
        }
    }
}


fn count_dots(n: &[char]) -> (r: usize)
    ensures
        r == count_char(n@, '.'),
{
    let mut c: usize = 0;
    let mut k: usize = 0;
    assert(n@.take(0) =~= Seq::<char>::empty());
    while k < n.len()
        invariant
            0 <= k <= n.len(),
            c == count_char(n@.take(k as int), '.'),
            c <= k,
        decreases n.len() - k,
    {
        assert(n@.take(k + 1).drop_last() =~= n@.take(k as int));
        assert(n@.take(k + 1).last() == n@[k as int]);
        if n[k] == '.' {
            c = c + 1;
        }
        k = k + 1;
    }
    assert(n@.take(k as int) =~= n@);
    c
}

fn unit_multiplier_of(u: &[char]) -> (r: Option<u64>)
    ensures
        r == unit_multiplier(u@),
{
    if chars_eq_str(u, "B") {
        Some(1)
    } else if chars_eq_str(u, "K") || chars_eq_str(u, "KB") || chars_eq_str(u, "KIB") {
        Some(1024)
    } else if chars_eq_str(u, "M") || chars_eq_str(u, "MB") || chars_eq_str(u, "MIB") {
        Some(1048576)
    } else if chars_eq_str(u, "G") || chars_eq_str(u, "GB") || chars_eq_str(u, "GIB") {
        Some(1073741824)
    } else if chars_eq_str(u, "T") || chars_eq_str(u, "TB") || chars_eq_str(u, "TIB") {
        Some(1099511627776)
    } else {
        None
    }
}

/// Parse a size string like "10G", "500M", "1K" into bytes (see
/// [`size_value`]).
pub fn parse_size(s: &str) -> (r: Result<u64, String>)
    ensures
        match r {
            Ok(v) => size_value(s@) == Ok::<u64, Seq<char>>(v),
            Err(e) => size_value(s@) == Err::<u64, Seq<char>>(e@),
        },
{
    let sv = chars_of(s);
    let t = trim_chars(sv.as_slice());
    let ts = string_of(t.as_slice());
    let upper = to_uppercase(ts.as_str());
    let u = chars_of(upper.as_str());
    // Handle plain numbers
    match parse_u64_chars(u.as_slice()) {
        Some(n) => {
            return Ok(n);
        },
        None => {},
    }
    // Find where the number ends and unit begins
    let mut pos: usize = 0;
    while pos < u.len() && (('0' <= u[pos] && u[pos] <= '9') || u[pos] == '.')
        invariant
            0 <= pos <= u.len(),
            unit_start(u@, 0) == unit_start(u@, pos as int),
            forall|j: int| 0 <= j < pos ==> is_digit(u@[j]) || u@[j] == '.',
        decreases u.len() - pos,
    {
        pos = pos + 1;
    }
    if pos == u.len() {
        return Err(String::from_str("invalid size format: ").concat(upper.as_str()));
    }
    let num_text = crate::text::substring(&u, 0, pos);
    let unit_text = crate::text::substring(&u, pos, u.len());
    let num = chars_of(num_text.as_str());
    let unit = chars_of(unit_text.as_str());
    let dots = count_dots(num.as_slice());
    if !(dots <= 1 && dots < num.len()) {
        return Err(String::from_str("invalid number: ").concat(num_text.as_str()));
    }
    let multiplier = match unit_multiplier_of(unit.as_slice()) {
        Some(m) => m,
        None => {
            return Err(String::from_str("unknown size unit: ").concat(unit_text.as_str()));
        },
    };
    Ok(scale_decimal(num.as_slice(), multiplier))
}


// ---------------------------------------------------------------------------
// Printing sizes
// ---------------------------------------------------------------------------

/// Number of binary digits of `b`.
pub open spec fn bit_len(b: nat) -> nat
    decreases b,
{
    if b == 0 {
        0
    } else {
        1 + bit_len(b / 2)
    }
}

/// `n / d` rounded to the nearest integer, ties to even.
pub open spec fn round_half_even(n: nat, d: nat) -> nat {
    let q = n / d;
    let r = n % d;
    if 2 * r > d || (2 * r == d && q % 2 == 1) {
        q + 1
    } else {
        q
    }
}

/// `b as f64`: `b` rounded to a 53-bit significand, to nearest, ties to
/// even.
pub open spec fn f64_round(b: nat) -> nat {
    if bit_len(b) <= 53 {
        b
    } else {
        let p = pow2((bit_len(b) - 53) as nat);
        round_half_even(b, p) * p
    }
}

/// `format!("{:.2} {unit}", b as f64 / 2^shift as f64)`: the quotient is
/// exact, and is printed with two decimals, rounded half to even.
pub open spec fn scaled_text(b: nat, shift: nat, unit: Seq<char>) -> Seq<char> {
    let h = round_half_even(f64_round(b) * 100, pow2(shift));
    dec(h / 100) + seq!['.', crate::text::digit_char((h % 100) / 10), crate::text::digit_char(h % 10)]
        + seq![' '] + unit
}

/// What [`format_size`] prints for `bytes`.
pub open spec fn size_text(bytes: nat) -> Seq<char> {
    if bytes >= pow2(40) {
        scaled_text(bytes, 40, "TB"@)
    } else if bytes >= pow2(30) {
        scaled_text(bytes, 30, "GB"@)
    } else if bytes >= pow2(20) {
        scaled_text(bytes, 20, "MB"@)
    } else if bytes >= pow2(10) {
        scaled_text(bytes, 10, "KB"@)
    } else {
        dec(bytes) + " B"@
    }
}

fn pow2_exec(e: u32) -> (r: u128)
    requires
        e <= 64,
    ensures
        r == pow2(e as nat),
        r >= 1,
{
    let mut p: u128 = 1;
    let mut i: u32 = 0;
    proof {
        lemma2_to64();
    }
    while i < e
        invariant
            0 <= i <= e <= 64,
            p == pow2(i as nat),
            pow2(64) == 0x1_0000_0000_0000_0000,
        decreases e - i,
    {
        proof {
            lemma_pow2_unfold((i + 1) as nat);
            if i + 1 < 64 {
                lemma_pow2_strictly_increases((i + 1) as nat, 64);
            }
        }
        p = p * 2;
        i = i + 1;
    }
    proof {
        lemma_pow2_pos(e as nat);
    }
    p
}

/// A value below `2^k` has at most `k` binary digits.
proof fn lemma_bit_len_bound(b: nat, k: nat)
    requires
        b < pow2(k),
    ensures
        bit_len(b) <= k,
    decreases k,
{
    if b > 0 {
        if k == 0 {
            lemma2_to64();
        } else {
            lemma_pow2_unfold(k);
            lemma_bit_len_bound(b / 2, (k - 1) as nat);
        }
    }
}

fn bit_len_exec(b: u64) -> (r: u32)
    ensures
        r == bit_len(b as nat),
        r <= 64,
{
    proof {
        lemma2_to64();
        lemma_bit_len_bound(b as nat, 64);
    }
    let mut n = b;
    let mut k: u32 = 0;
    while n > 0
        invariant
            bit_len(b as nat) == k + bit_len(n as nat),
            k + bit_len(n as nat) <= 64,
        decreases n,
    {
        n = n / 2;
        k = k + 1;
    }
    k
}

fn round_half_even_exec(n: u128, d: u128) -> (r: u128)
    requires
        d >= 1,
        d <= 0x1_0000_0000_0000_0000,
        n < 0x1_0000_0000_0000_0000_0000_0000,
    ensures
        r == round_half_even(n as nat, d as nat),
{
    let q = n / d;
    let r = n % d;
    if 2 * r > d || (2 * r == d && q % 2 == 1) {
        q + 1
    } else {
        q
    }
}

proof fn lemma_round_bound(b: nat, p: nat)
    requires
        p >= 1,
    ensures
        round_half_even(b, p) * p <= b + p,
{
    let q = b / p;
    let r = b % p;
    vstd::arithmetic::div_mod::lemma_fundamental_div_mod(b as int, p as int);
    assert(q * p <= b) by (nonlinear_arith)
        requires
            b == p * q + r,
            r >= 0,
    ;
    assert((q + 1) * p == q * p + p) by (nonlinear_arith);
}

fn scaled_text_exec(b: u64, shift: u32, unit: &str) -> (r: String)
    requires
        shift <= 40,
    ensures
        r@ == scaled_text(b as nat, shift as nat, unit@),
{
    let len = bit_len_exec(b);
    let rounded: u128 = if len <= 53 {
        b as u128
    } else {
        let p = pow2_exec(len - 53);
        proof {
            lemma_round_bound(b as nat, p as nat);
            lemma2_to64();
            if len - 53 < 11 {
                lemma_pow2_strictly_increases((len - 53) as nat, 11);
            }
        }
        round_half_even_exec(b as u128, p) * p
    };
    assert(rounded <= 0x1_0000_0000_0000_0000 + 0x1_0000_0000_0000_0000);
    let d = pow2_exec(shift);
    proof {
        lemma2_to64();
        if shift < 64 {
            lemma_pow2_strictly_increases(shift as nat, 64);
        }
    }
    let h = round_half_even_exec(rounded * 100, d);
    let mut out = dec_chars(h / 100);
    out.push('.');
    out.push(((48 + (h % 100) / 10) as u8) as char);
    out.push(((48 + h % 10) as u8) as char);
    out.push(' ');
    let u = chars_of(unit);
    append_chars(&mut out, u.as_slice());
    string_of(out.as_slice())
}


/// Format bytes as human-readable size (see [`size_text`]).
pub fn format_size(bytes: u64) -> (r: String)
    ensures
        r@ == size_text(bytes as nat),
{
    proof {
        lemma2_to64();
        lemma_pow2_adds(32, 8);
        assert(pow2(40) == 1099511627776);
    }
    if bytes >= 1099511627776 {
        scaled_text_exec(bytes, 40, "TB")
    } else if bytes >= 1073741824 {
        scaled_text_exec(bytes, 30, "GB")
    } else if bytes >= 1048576 {
        scaled_text_exec(bytes, 20, "MB")
    } else if bytes >= 1024 {
        scaled_text_exec(bytes, 10, "KB")
    } else {
        let mut out = dec_chars(bytes as u128);
        let unit = chars_of(" B");
        append_chars(&mut out, unit.as_slice());
        assert(bytes < pow2(10));
        assert(out@ == dec(bytes as nat) + " B"@);
        string_of(out.as_slice())
    }
}

// ---------------------------------------------------------------------------
// Plain byte counts
// ---------------------------------------------------------------------------

/// The decimal text of a number is digits only, and reads back as the number.
pub proof fn lemma_dec_digits(n: nat)
    ensures
        dec(n).len() > 0,
        all_digits(dec(n)),
        digits_value(dec(n)) == n,
    decreases n,
{
    let k = n % 10;
    assert(((48 + k) as u8) as char as u32 == 48 + k);
    assert(digit_val(crate::text::digit_char(k)) == k);
    if n >= 10 {
        lemma_dec_digits(n / 10);
        let d = dec(n / 10);
        assert(dec(n).drop_last() =~= d);
        assert(n == (n / 10) * 10 + n % 10) by (nonlinear_arith);
        assert(digits_value(dec(n)) == digits_value(d) * 10 + digit_val(dec(n).last()));
        assert forall|i: int| 0 <= i < dec(n).len() implies is_digit(#[trigger] dec(n)[i]) by {
            if i < d.len() {
                assert(dec(n)[i] == d[i]);
            }
        }
    } else {
        assert(dec(n).drop_last() =~= Seq::<char>::empty());
        assert(digits_value(dec(n).drop_last()) == 0);
    }
}

/// A size written as a plain number of bytes, as `pybun gc --max-size 100`,
/// is that many bytes.
pub proof fn lemma_plain_number_is_bytes(n: u64)
    ensures
        size_value(dec(n as nat)) == Ok::<u64, Seq<char>>(n),
{
    let s = dec(n as nat);
    lemma_dec_digits(n as nat);
    assert(!is_ws(s[0]));
    assert(!is_ws(s.last()));
    assert(trim(s) =~= s) by {
        assert(s.subrange(0, s.len() as int) =~= s);
    }
    assert(all_ascii(s));
    assert(s.map_values(|c: char| ascii_upper(c)) =~= s);
    assert(uppercase(trim(s)) == s);
}


/// Surrounding whitespace and letter case do not matter to a size: on ASCII
/// text, `s` reads as the same size (or the same error) as its trimmed,
/// upper-cased form.
pub proof fn lemma_size_ignores_trim_and_case(s: Seq<char>)
    requires
        all_ascii(s),
    ensures
        size_value(s) == size_value(uppercase(trim(s))),
{
    let t = trim(s);
    crate::text::lemma_trim_ends(s);
    let u = uppercase(t);
    assert(u == t.map_values(|c: char| ascii_upper(c)));
    assert(all_ascii(u));
    if u.len() > 0 {
        assert(u[0] == ascii_upper(t[0]));
        assert(u.last() == ascii_upper(t.last()));
    }
    crate::text::lemma_trim_fixed(u);
    assert(uppercase(u) =~= u);
}

} // verus!
