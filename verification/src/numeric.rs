//! Decoding of string-encoded numeric and boolean values.
//!
//! Every numeric, boolean and enum leaf of the profile document is encoded
//! as a JSON string (`"42"`, `"true"`). This module holds the single
//! parse-from-string rule used by the whole schema: plain decimal digits with
//! an optional leading sign and, for fractional values, an optional single
//! `.` followed by at most six fraction digits. Fractional values are kept
//! exactly as fixed-point numbers in millionths, so the aggregation engine
//! can work on integers.

use vstd::prelude::*;

verus! {

/// A non-negative fixed-point number with six fraction digits:
/// the value is `micro / 1_000_000`.
#[derive(Clone, Copy, PartialEq, Eq, Structural, Debug)]
pub struct Decimal {
    pub micro: u64,
}

pub const MICRO: u64 = 1000000;

pub open spec fn is_digit_char(c: char) -> bool {
    48 <= c as int <= 57
}

/// The numeric value of one digit character; 0 for anything else.
pub open spec fn digit_value(c: char) -> nat {
    if is_digit_char(c) {
        (c as int - 48) as nat
    } else {
        0
    }
}

pub open spec fn all_digit_chars(s: Seq<char>) -> bool {
    forall|i: int| 0 <= i < s.len() ==> is_digit_char(s[i])
}

/// The value of a digit string read in base 10.
pub open spec fn dec_value(s: Seq<char>) -> nat
    decreases s.len(),
{
    if s.len() == 0 {
        0
    } else {
        dec_value(s.drop_last()) * 10 + digit_value(s.last())
    }
}

/// The glyph of one decimal digit.
pub open spec fn digit_glyph(d: nat) -> char {
    ((48 + d) as u8) as char
}

/// A number written in decimal, most significant digit first.
pub open spec fn dec_digits_of(n: nat) -> Seq<char>
    decreases n,
{
    if n < 10 {
        seq![digit_glyph(n)]
    } else {
        dec_digits_of(n / 10).push(digit_glyph(n % 10))
    }
}

/// An unsigned decimal integer: an optional `+`, then at least one digit.
pub open spec fn spec_parse_unsigned(s: Seq<char>) -> Option<nat> {
    let t = if s.len() > 0 && s[0] == '+' {
        s.drop_first()
    } else {
        s
    };
    if t.len() > 0 && all_digit_chars(t) {
        Some(dec_value(t))
    } else {
        None
    }
}

pub open spec fn spec_parse_u64(s: Seq<char>) -> Option<u64> {
    match spec_parse_unsigned(s) {
        Some(n) => if n <= u64::MAX {
            Some(n as u64)
        } else {
            None
        },
        None => None,
    }
}

pub open spec fn spec_parse_u32(s: Seq<char>) -> Option<u32> {
    match spec_parse_unsigned(s) {
        Some(n) => if n <= u32::MAX {
            Some(n as u32)
        } else {
            None
        },
        None => None,
    }
}

/// A signed decimal integer: an optional `-` or `+`, then at least one digit.
pub open spec fn spec_parse_i32(s: Seq<char>) -> Option<i32> {
    if s.len() > 0 && s[0] == '-' {
        let t = s.drop_first();
        if t.len() > 0 && all_digit_chars(t) && dec_value(t) <= 2147483648 {
            Some((-(dec_value(t) as int)) as i32)
        } else {
            None
        }
    } else {
        match spec_parse_unsigned(s) {
            Some(n) => if n <= i32::MAX {
                Some(n as i32)
            } else {
                None
            },
            None => None,
        }
    }
}

pub open spec fn spec_parse_bool(s: Seq<char>) -> Option<bool> {
    if s == "true"@ {
        Some(true)
    } else if s == "false"@ {
        Some(false)
    } else {
        None
    }
}

pub open spec fn spec_pow10(e: nat) -> nat
    decreases e,
{
    if e == 0 {
        1
    } else {
        10 * spec_pow10((e - 1) as nat)
    }
}

/// The index of the first `.` in `t` at or after `i`, or `t.len()` if none.
pub open spec fn first_dot_from(t: Seq<char>, i: int) -> int
    decreases t.len() - i,
{
    if i < 0 || i >= t.len() {
        t.len() as int
    } else if t[i] == '.' {
        i
    } else {
        first_dot_from(t, i + 1)
    }
}

/// A fixed-point number: an optional `+`, digits, an optional `.` and at
/// most six fraction digits, with at least one digit overall, whose value
/// in millionths fits in a `u64`.
///
/// This pins the library's value grammar deliberately: profiler output
/// writes plain decimals, and anything else — a sign below zero, exponent
/// notation, `inf`/`NaN` spellings, a seventh fraction digit — is rejected
/// as a schema error rather than read inexactly.
pub open spec fn spec_parse_decimal(s: Seq<char>) -> Option<Decimal> {
    let t = if s.len() > 0 && s[0] == '+' {
        s.drop_first()
    } else {
        s
    };
    let dot = first_dot_from(t, 0);
    let ip = t.take(dot);
    let fp = if dot == t.len() {
        Seq::<char>::empty()
    } else {
        t.skip(dot + 1)
    };
    if all_digit_chars(ip) && all_digit_chars(fp) && ip.len() + fp.len() > 0 && fp.len() <= 6 {
        let micro = dec_value(ip) * (MICRO as nat) + dec_value(fp) * spec_pow10((6 - fp.len()) as nat);
        if micro <= u64::MAX {
            Some(Decimal { micro: micro as u64 })
        } else {
            None
        }
    } else {
        None
    }
}

proof fn lemma_dec_value_step(s: Seq<char>, i: int)
    requires
        0 <= i < s.len(),
    ensures
        dec_value(s.take(i + 1)) == dec_value(s.take(i)) * 10 + digit_value(s[i]),
{
    assert(s.take(i + 1).drop_last() =~= s.take(i));
    assert(s.take(i + 1).last() == s[i]);
}

proof fn lemma_dec_value_mono(s: Seq<char>, i: int, j: int)
    requires
        0 <= i <= j <= s.len(),
    ensures
        dec_value(s.take(j)) >= dec_value(s.take(i)),
    decreases j - i,
{
    if i < j {
        lemma_dec_value_mono(s, i, j - 1);
        lemma_dec_value_step(s, j - 1);
    }
}

/// Reads the digit run `s[from..to]` in base 10.
/// Returns `None` when a non-digit occurs or the value does not fit.
fn parse_digit_run(s: &str, from: usize, to: usize) -> (r: Option<u64>)
    requires
        from <= to <= s@.len(),
    ensures
        match r {
            Some(v) => all_digit_chars(s@.subrange(from as int, to as int)) && v == dec_value(
                s@.subrange(from as int, to as int),
            ),
            None => !all_digit_chars(s@.subrange(from as int, to as int)) || dec_value(
                s@.subrange(from as int, to as int),
            ) > u64::MAX,
        },
{
    let ghost sub = s@.subrange(from as int, to as int);
    let mut acc: u64 = 0;
    let mut i: usize = from;
    while i < to
        invariant
            from <= i <= to <= s@.len(),
            sub == s@.subrange(from as int, to as int),
            all_digit_chars(sub.take(i - from)),
            acc == dec_value(sub.take(i - from)),
        decreases to - i,
    {
        let c = s.get_char(i);
        assert(sub[i - from] == s@[i as int]);
        let u = c as u32;
        if u < 48 || u > 57 {
            assert(!is_digit_char(sub[i - from]));
            return None;
        }
        let d = (u - 48) as u64;
        let wide: u128 = acc as u128 * 10 + d as u128;
        proof {
            lemma_dec_value_step(sub, i - from);
        }
        if wide > u64::MAX as u128 {
            proof {
                lemma_dec_value_mono(sub, i - from + 1, sub.len() as int);
                assert(sub.take(sub.len() as int) =~= sub);
            }
            return None;
        }
        acc = wide as u64;
        i += 1;
    }
    proof {
        assert(sub.take(sub.len() as int) =~= sub);
        assert(sub.take(i - from) =~= sub);
    }
    Some(acc)
}

/// Decodes a string-encoded unsigned integer, as the schema's
/// parse-from-string rule demands it.
pub fn parse_u64(s: &str) -> (r: Option<u64>)
    ensures
        r == spec_parse_u64(s@),
{
    let n = s.unicode_len();
    let from: usize = if n > 0 && s.get_char(0) == '+' {
        1
    } else {
        0
    };
    proof {
        if from == 1 {
            assert(s@.subrange(1, n as int) =~= s@.drop_first());
        } else {
            assert(s@.subrange(0, n as int) =~= s@);
        }
    }
    if n == from {
        return None;
    }
    parse_digit_run(s, from, n)
}

pub fn parse_u32(s: &str) -> (r: Option<u32>)
    ensures
        r == spec_parse_u32(s@),
{
    match parse_u64(s) {
        Some(v) => if v <= u32::MAX as u64 {
            Some(v as u32)
        } else {
            None
        },
        None => None,
    }
}

pub fn parse_i32(s: &str) -> (r: Option<i32>)
    ensures
        r == spec_parse_i32(s@),
{
    let n = s.unicode_len();
    if n > 0 && s.get_char(0) == '-' {
        proof {
            assert(s@.subrange(1, n as int) =~= s@.drop_first());
        }
        if n == 1 {
            return None;
        }
        match parse_digit_run(s, 1, n) {
            Some(v) => if v <= 2147483648 {
                Some((-(v as i64)) as i32)
            } else {
                None
            },
            None => None,
        }
    } else {
        match parse_u64(s) {
            Some(v) => if v <= i32::MAX as u64 {
                Some(v as i32)
            } else {
                None
            },
            None => None,
        }
    }
}

/// Compares two strings character by character.
pub fn str_eq(a: &str, b: &str) -> (r: bool)
    ensures
        r == (a@ == b@),
{
    let na = a.unicode_len();
    let nb = b.unicode_len();
    if na != nb {
        assert(a@.len() != b@.len());
        return false;
    }
    let mut i: usize = 0;
    while i < na
        invariant
            0 <= i <= na,
            na == a@.len() == b@.len(),
            forall|j: int| 0 <= j < i ==> a@[j] == b@[j],
        decreases na - i,
    {
        if a.get_char(i) != b.get_char(i) {
            return false;
        }
        i += 1;
    }
    proof {
        assert(a@ =~= b@);
    }
    true
}

/// Decodes a string-encoded boolean: exactly `true` or `false`.
pub fn parse_bool(s: &str) -> (r: Option<bool>)
    ensures
        r == spec_parse_bool(s@),
{
    if str_eq(s, "true") {
        Some(true)
    } else if str_eq(s, "false") {
        Some(false)
    } else {
        None
    }
}

proof fn lemma_pow10_le(e1: nat, e2: nat)
    requires
        e1 <= e2,
    ensures
        spec_pow10(e1) <= spec_pow10(e2),
    decreases e2,
{
    if e1 < e2 {
        lemma_pow10_le(e1, (e2 - 1) as nat);
        assert(spec_pow10(e2) == 10 * spec_pow10((e2 - 1) as nat));
    }
}

fn pow10_small(e: usize) -> (r: u64)
    requires
        e <= 6,
    ensures
        r == spec_pow10(e as nat),
        r <= 1000000,
{
    proof {
        reveal_with_fuel(spec_pow10, 8);
    }
    if e == 0 {
        1
    } else if e == 1 {
        10
    } else if e == 2 {
        100
    } else if e == 3 {
        1000
    } else if e == 4 {
        10000
    } else if e == 5 {
        100000
    } else {
        1000000
    }
}

/// Decodes a string-encoded fractional value into millionths.
#[verifier::rlimit(50)]
pub fn parse_decimal(s: &str) -> (r: Option<Decimal>)
    ensures
        r == spec_parse_decimal(s@),
{
    let n = s.unicode_len();
    let from: usize = if n > 0 && s.get_char(0) == '+' {
        1
    } else {
        0
    };
    let ghost t = if from == 1 {
        s@.drop_first()
    } else {
        s@
    };
    proof {
        assert(s@.subrange(from as int, n as int) =~= t);
    }
    // find the first dot
    let mut dot: usize = from;
    while dot < n && s.get_char(dot) != '.'
        invariant
            from <= dot <= n,
            n == s@.len(),
            t == s@.subrange(from as int, n as int),
            forall|j: int| from <= j < dot ==> s@[j] != '.',
        decreases n - dot,
    {
        dot += 1;
    }
    proof {
        assert forall|j: int| 0 <= j < dot - from implies t[j] != '.' by {
            assert(t[j] == s@[j + from]);
        }
        if dot < n {
            assert(t[dot - from] == s@[dot as int]);
        }
        lemma_first_dot_at(t, 0, dot - from, n - from);
        assert(t.take(dot - from) =~= s@.subrange(from as int, dot as int));
    }
    let ip = parse_digit_run(s, from, dot);
    let (fp, fp_len): (Option<u64>, usize) = if dot < n {
        proof {
            assert(t.skip(dot - from + 1) =~= s@.subrange(dot + 1 as int, n as int));
        }
        (parse_digit_run(s, dot + 1, n), n - dot - 1)
    } else {
        proof {
            assert(Seq::<char>::empty() =~= s@.subrange(n as int, n as int));
        }
        (Some(0), 0)
    };
    if dot == from && fp_len == 0 {
        // no digits at all
        return None;
    }
    if fp_len > 6 {
        return None;
    }
    match (ip, fp) {
        (Some(ipv), Some(fpv)) => {
            let scale = pow10_small(6 - fp_len);
            proof {
                reveal_with_fuel(spec_pow10, 8);
                if dot < n {
                    lemma_dec_value_upper(t.skip(dot - from + 1));
                    lemma_pow10_le(((n - dot - 1) as usize) as nat, 6);
                }
                lemma_micro_fits(ipv, fpv, scale);
            }
            let wide: u128 = ipv as u128 * MICRO as u128 + fpv as u128 * scale as u128;
            if wide > u64::MAX as u128 {
                None
            } else {
                Some(Decimal { micro: wide as u64 })
            }
        },
        _ => {
            proof {
                lemma_dec_value_fits(t.take(dot - from));
                if dot < n {
                    reveal_with_fuel(spec_pow10, 8);
                    lemma_dec_value_upper(t.skip(dot - from + 1));
                    lemma_pow10_le(t.skip(dot - from + 1).len(), 6);
                }
            }
            None
        },
    }
}

proof fn lemma_first_dot_at(t: Seq<char>, i: int, d: int, n: int)
    requires
        0 <= i <= d <= n,
        n == t.len(),
        forall|j: int| i <= j < d ==> t[j] != '.',
        d < n ==> t[d] == '.',
    ensures
        first_dot_from(t, i) == d,
    decreases d - i,
{
    if i < d {
        lemma_first_dot_at(t, i + 1, d, n);
    }
}

/// A run of `n` digits reads to a value below `10^n`.
proof fn lemma_dec_value_upper(s: Seq<char>)
    ensures
        dec_value(s) < spec_pow10(s.len()),
    decreases s.len(),
{
    if s.len() > 0 {
        lemma_dec_value_upper(s.drop_last());
    }
}

proof fn lemma_mul_upper(x: int, xb: int, y: int, yb: int)
    by (nonlinear_arith)
    requires
        0 <= x <= xb,
        0 <= y <= yb,
    ensures
        x * y <= xb * yb,
{
}

proof fn lemma_mul_lower(x: int, y: int)
    by (nonlinear_arith)
    requires
        0 <= x,
        1 <= y,
    ensures
        x <= x * y,
{
}

/// The millionths computation stays within `u128` when the fraction part
/// has at most six digits and its scale is at most `10^6`.
proof fn lemma_micro_fits(ipv: u64, fpv: u64, scale: u64)
    requires
        fpv < 1000000,
        scale <= 1000000,
    ensures
        ipv as int * MICRO as int + fpv as int * scale as int <= u128::MAX,
{
    lemma_mul_upper(ipv as int, u64::MAX as int, MICRO as int, 1000000);
    lemma_mul_upper(fpv as int, 999999, scale as int, 1000000);
}

/// When a digit run cannot be read, either a character is not a digit or the
/// value exceeds `u64::MAX`; in both cases the millionths value is out of
/// reach as well, because the run is at most as large as the whole value.
proof fn lemma_dec_value_fits(s: Seq<char>)
    ensures
        all_digit_chars(s) && dec_value(s) > u64::MAX ==> dec_value(s) * (MICRO as nat) > u64::MAX,
{
    if all_digit_chars(s) && dec_value(s) > u64::MAX {
        lemma_mul_lower(dec_value(s) as int, MICRO as int);
    }
}

} // verus!
