//! Verified numeric attribute parsing: decimal `u64` values and the syntax
//! of floating-point literals, both over the attribute's bytes.

use vstd::prelude::*;

verus! {

/// `b` is an ASCII decimal digit.
pub open spec fn is_digit(b: u8) -> bool {
    0x30 <= b <= 0x39
}

/// Numeric value of the digit `b`.
pub open spec fn digit_val(b: u8) -> nat {
    (b - 0x30) as nat
}

/// Every byte of `s` from index `i` on is a digit.
pub open spec fn all_digits_from(s: Seq<u8>, i: int) -> bool
    decreases s.len() - i,
{
    i >= s.len() || (is_digit(s[i]) && all_digits_from(s, i + 1))
}

/// Value of the digits of `s` from index `i` on, folded onto `acc`.
pub open spec fn digits_val_from(s: Seq<u8>, i: int, acc: nat) -> nat
    decreases s.len() - i,
{
    if 0 <= i < s.len() {
        digits_val_from(s, i + 1, acc * 10 + digit_val(s[i]))
    } else {
        acc
    }
}

/// The folded digit value never falls below its accumulator.
proof fn lemma_digits_val_lower_bound(s: Seq<u8>, i: int, acc: nat)
    ensures
        digits_val_from(s, i, acc) >= acc,
    decreases s.len() - i,
{
    if 0 <= i < s.len() {
        lemma_digits_val_lower_bound(s, i + 1, acc * 10 + digit_val(s[i]));
    }
}

/// The value of the digits of `s` from index `start` on, when they reach the
/// end of `s`, are at least one, and fit in a `u64`; `None` otherwise.
pub open spec fn u64_value_from(s: Seq<u8>, start: int) -> Option<u64> {
    if start < s.len() && all_digits_from(s, start) && digits_val_from(s, start, 0) <= u64::MAX {
        Some(digits_val_from(s, start, 0) as u64)
    } else {
        None
    }
}

/// The `u64` denoted by `s` under the syntax of Rust's unsigned decimal
/// parser: an optional `+` sign, then one or more digits, whose value fits.
pub open spec fn u64_value(s: Seq<u8>) -> Option<u64> {
    let start: int = if s.len() > 0 && s[0] == 0x2b { 1 } else { 0 };
    u64_value_from(s, start)
}

/// Parses the digits of `v` from `start` on as a decimal `u64`.
fn parse_u64_digits(v: &[u8], start: usize) -> (r: Option<u64>)
    requires
        start <= v@.len(),
    ensures
        r == u64_value_from(v@, start as int),
{
    if start == v.len() {
        return None;
    }
    let ghost s = v@;
    let mut acc: u64 = 0;
    let mut k: usize = start;
    while k < v.len()
        invariant
            start <= k <= s.len(),
            s == v@,
            all_digits_from(s, start as int) == all_digits_from(s, k as int),
            digits_val_from(s, start as int, 0) == digits_val_from(s, k as int, acc as nat),
        decreases s.len() - k,
    {
        let b = v[k];
        if b < 0x30 || b > 0x39 {
            assert(!all_digits_from(s, k as int));
            return None;
        }
        let d: u64 = (b - 0x30) as u64;
        if acc > u64::MAX / 10 || (acc == u64::MAX / 10 && d > u64::MAX % 10) {
            proof {
                assert(digits_val_from(s, k as int, acc as nat) == digits_val_from(
                    s,
                    k as int + 1,
                    acc as nat * 10 + digit_val(s[k as int]),
                ));
                lemma_digits_val_lower_bound(s, k as int + 1, acc as nat * 10 + digit_val(s[k as int]));
                assert(acc as nat * 10 + digit_val(s[k as int]) > u64::MAX);
            }
            return None;
        }
        assert(acc as nat * 10 + d as nat <= u64::MAX) by {
            assert(acc <= u64::MAX / 10);
        }
        acc = acc * 10 + d;
        k = k + 1;
    }
    Some(acc)
}

/// Parses `v` as Rust's unsigned decimal parser would: an optional `+`
/// sign, then one or more digits, whose value must fit in a `u64`.
pub fn parse_u64_bytes(v: &[u8]) -> (r: Option<u64>)
    ensures
        r == u64_value(v@),
{
    let start: usize = if v.len() > 0 && v[0] == 0x2b { 1 } else { 0 };
    parse_u64_digits(v, start)
}

// ---------------------------------------------------------------------------
// Floating-point literal syntax
// ---------------------------------------------------------------------------

/// Lower-cases one ASCII byte.
pub open spec fn ascii_lower(b: u8) -> u8 {
    if 0x41 <= b <= 0x5a {
        (b + 0x20) as u8
    } else {
        b
    }
}

/// The bytes of `s` from `i` on, lower-cased, are exactly `w`.
pub open spec fn lower_eq_from(s: Seq<u8>, i: int, w: Seq<u8>) -> bool {
    s.len() - i == w.len() && forall|k: int| 0 <= k < w.len() ==> ascii_lower(s[i + k]) == w[k]
}

/// Index of the first non-digit byte of `s` at or after `i`.
pub open spec fn digits_end(s: Seq<u8>, i: int) -> int
    decreases s.len() - i,
{
    if 0 <= i < s.len() && is_digit(s[i]) {
        digits_end(s, i + 1)
    } else {
        i
    }
}

/// Index after an optional `+` or `-` sign at `i`.
pub open spec fn sign_end(s: Seq<u8>, i: int) -> int {
    if 0 <= i < s.len() && (s[i] == 0x2b || s[i] == 0x2d) {
        i + 1
    } else {
        i
    }
}

/// The bytes of `s` from `i` to the end form an exponent part:
/// `e` or `E`, an optional sign, then one or more digits.
pub open spec fn is_exponent_from(s: Seq<u8>, i: int) -> bool {
    0 <= i < s.len() && (s[i] == 0x65 || s[i] == 0x45) && {
        let d = sign_end(s, i + 1);
        d < s.len() && all_digits_from(s, d)
    }
}

/// The bytes of `s` from `i` to the end form a decimal number: digits,
/// an optional point with more digits (at least one digit in all), and an
/// optional exponent part.
pub open spec fn is_number_from(s: Seq<u8>, i: int) -> bool {
    let j = digits_end(s, i);
    if j == s.len() {
        j > i
    } else if s[j] == 0x2e {
        let k = digits_end(s, j + 1);
        (j > i || k > j + 1) && (k == s.len() || is_exponent_from(s, k))
    } else {
        j > i && is_exponent_from(s, j)
    }
}

/// `s` is a floating-point literal as Rust's floating-point parser accepts
/// them: an optional sign, then `inf`, `infinity` or `nan` in any letter
/// case, or a decimal number with optional fraction and exponent.
pub open spec fn is_f64_lit(s: Seq<u8>) -> bool {
    let st = sign_end(s, 0);
    ||| lower_eq_from(s, st, seq![0x69u8, 0x6eu8, 0x66u8])
    ||| lower_eq_from(s, st, seq![0x69u8, 0x6eu8, 0x66u8, 0x69u8, 0x6eu8, 0x69u8, 0x74u8, 0x79u8])
    ||| lower_eq_from(s, st, seq![0x6eu8, 0x61u8, 0x6eu8])
    ||| is_number_from(s, st)
}

/// Lower-cases one ASCII byte.
fn ascii_lower_exec(b: u8) -> (r: u8)
    ensures
        r == ascii_lower(b),
{
    if 0x41 <= b && b <= 0x5a {
        b + 0x20
    } else {
        b
    }
}

/// Tests whether `v` from `i` on, lower-cased, is exactly `w`.
fn check_lower_eq(v: &[u8], i: usize, w: &[u8]) -> (r: bool)
    requires
        i <= v@.len(),
    ensures
        r == lower_eq_from(v@, i as int, w@),
{
    if v.len() - i != w.len() {
        return false;
    }
    let n: usize = v.len();
    let mut k: usize = 0;
    while k < w.len()
        invariant
            0 <= k <= w@.len(),
            i + w@.len() == v@.len(),
            n == v@.len(),
            forall|m: int| 0 <= m < k ==> ascii_lower(v@[i + m]) == w@[m],
        decreases w@.len() - k,
    {
        if ascii_lower_exec(v[i + k]) != w[k] {
            return false;
        }
        k = k + 1;
    }
    true
}

/// Index of the first non-digit byte of `v` at or after `i`.
fn digits_end_exec(v: &[u8], i: usize) -> (r: usize)
    requires
        i <= v@.len(),
    ensures
        r == digits_end(v@, i as int),
        i <= r <= v@.len(),
{
    let mut k: usize = i;
    while k < v.len() && 0x30 <= v[k] && v[k] <= 0x39
        invariant
            i <= k <= v@.len(),
            digits_end(v@, i as int) == digits_end(v@, k as int),
        decreases v@.len() - k,
    {
        k = k + 1;
    }
    k
}

/// Tests whether every byte of `v` from `i` on is a digit.
fn all_digits_exec(v: &[u8], i: usize) -> (r: bool)
    requires
        i <= v@.len(),
    ensures
        r == all_digits_from(v@, i as int),
{
    let e = digits_end_exec(v, i);
    proof {
        lemma_digits_end_all(v@, i as int);
    }
    e == v.len()
}

/// The first non-digit index characterises `all_digits_from`.
proof fn lemma_digits_end_all(s: Seq<u8>, i: int)
    requires
        0 <= i <= s.len(),
    ensures
        all_digits_from(s, i) == (digits_end(s, i) == s.len()),
    decreases s.len() - i,
{
    if i < s.len() && is_digit(s[i]) {
        lemma_digits_end_all(s, i + 1);
    }
}

/// Tests whether `v` from `i` to the end is an exponent part.
fn is_exponent_exec(v: &[u8], i: usize) -> (r: bool)
    requires
        i <= v@.len(),
    ensures
        r == is_exponent_from(v@, i as int),
{
    if i >= v.len() || (v[i] != 0x65 && v[i] != 0x45) {
        return false;
    }
    let d: usize = if i + 1 < v.len() && (v[i + 1] == 0x2b || v[i + 1] == 0x2d) {
        i + 2
    } else {
        i + 1
    };
    assert(d == sign_end(v@, i as int + 1));
    if d >= v.len() {
        return false;
    }
    all_digits_exec(v, d)
}

/// Tests whether `v` is a floating-point literal as Rust's floating-point
/// parser accepts them.
pub fn is_f64_literal(v: &[u8]) -> (r: bool)
    ensures
        r == is_f64_lit(v@),
{
    let st: usize = if v.len() > 0 && (v[0] == 0x2b || v[0] == 0x2d) {
        1
    } else {
        0
    };
    assert(st == sign_end(v@, 0));
    let inf: [u8; 3] = [0x69, 0x6e, 0x66];
    let infinity: [u8; 8] = [0x69, 0x6e, 0x66, 0x69, 0x6e, 0x69, 0x74, 0x79];
    let nan: [u8; 3] = [0x6e, 0x61, 0x6e];
    proof {
        assert(inf@ =~= seq![0x69u8, 0x6eu8, 0x66u8]);
        assert(infinity@ =~= seq![0x69u8, 0x6eu8, 0x66u8, 0x69u8, 0x6eu8, 0x69u8, 0x74u8, 0x79u8]);
        assert(nan@ =~= seq![0x6eu8, 0x61u8, 0x6eu8]);
    }
    if check_lower_eq(v, st, inf.as_slice()) {
        return true;
    }
    if check_lower_eq(v, st, infinity.as_slice()) {
        return true;
    }
    if check_lower_eq(v, st, nan.as_slice()) {
        return true;
    }
    // Decimal number with optional fraction and exponent.
    let j = digits_end_exec(v, st);
    if j == v.len() {
        j > st
    } else if v[j] == 0x2e {
        let k = digits_end_exec(v, j + 1);
        (j > st || k > j + 1) && (k == v.len() || is_exponent_exec(v, k))
    } else {
        j > st && is_exponent_exec(v, j)
    }
}

// ---------------------------------------------------------------------------
// Round trip of decimal values
// ---------------------------------------------------------------------------

/// The decimal digits of `v`, most significant first.
pub open spec fn dec_digits(v: nat) -> Seq<u8>
    decreases v,
{
    if v < 10 {
        seq![(0x30 + v) as u8]
    } else {
        dec_digits(v / 10).push((0x30 + (v % 10)) as u8)
    }
}

/// Appending a digit multiplies the folded value by ten and adds it.
proof fn lemma_digits_val_push(s: Seq<u8>, d: u8, i: int, acc: nat)
    requires
        0 <= i <= s.len(),
    ensures
        digits_val_from(s.push(d), i, acc) == digits_val_from(s, i, acc) * 10 + digit_val(d),
    decreases s.len() - i,
{
    if i == s.len() {
        assert(s.push(d)[i] == d);
        lemma_digits_val_lower_bound(s.push(d), i + 1, acc * 10 + digit_val(d));
    } else {
        assert(s.push(d)[i] == s[i]);
        lemma_digits_val_push(s, d, i + 1, acc * 10 + digit_val(s[i]));
    }
}

/// Appending a digit keeps a digit string made of digits.
proof fn lemma_all_digits_push(s: Seq<u8>, d: u8, i: int)
    requires
        0 <= i <= s.len(),
        is_digit(d),
    ensures
        all_digits_from(s.push(d), i) == all_digits_from(s, i),
    decreases s.len() - i,
{
    if i < s.len() {
        assert(s.push(d)[i] == s[i]);
        lemma_all_digits_push(s, d, i + 1);
    } else {
        assert(s.push(d)[i] == d);
        assert(all_digits_from(s.push(d), i + 1));
    }
}

/// The decimal digits of `v` are digits and fold back to `v`.
proof fn lemma_dec_digits_value(v: nat)
    ensures
        dec_digits(v).len() > 0,
        all_digits_from(dec_digits(v), 0),
        digits_val_from(dec_digits(v), 0, 0) == v,
        is_digit(dec_digits(v)[0]),
    decreases v,
{
    if v < 10 {
        let s = dec_digits(v);
        assert(s[0] == (0x30 + v) as u8);
        assert(all_digits_from(s, 1));
        assert(digits_val_from(s, 1, digit_val(s[0])) == digit_val(s[0]));
        assert(digits_val_from(s, 0, 0) == digits_val_from(s, 1, 0 * 10 + digit_val(s[0])));
    } else {
        lemma_dec_digits_value(v / 10);
        let p = dec_digits(v / 10);
        let d = (0x30 + (v % 10)) as u8;
        lemma_all_digits_push(p, d, 0);
        lemma_digits_val_push(p, d, 0, 0);
        assert(dec_digits(v)[0] == p.push(d)[0]);
        assert(p.push(d)[0] == p[0]);
    }
}

/// Law (numeric round trip): the decimal representation of any `u64`
/// parses back to that very value.
pub proof fn lemma_u64_round_trip(v: u64)
    ensures
        u64_value(dec_digits(v as nat)) == Option::Some(v),
{
    lemma_dec_digits_value(v as nat);
    let s = dec_digits(v as nat);
    assert(s[0] != 0x2b);
}

} // verus!
