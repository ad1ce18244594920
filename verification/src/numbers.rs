//! Numeric tokens: a verified decimal reader for unsigned face indices,
//! and a verified checker for the float-literal grammar that attribute
//! tokens must meet — an optional sign, then either a decimal body with
//! optional fraction and exponent, or one of the special words `inf`,
//! `infinity` and `nan` in any letter case.

use vstd::prelude::*;

verus! {

/// Whether `b` is an ASCII decimal digit.
pub open spec fn is_digit(b: u8) -> bool {
    48 <= b <= 57
}

/// Whether every byte of `s` is an ASCII decimal digit.
pub open spec fn all_digits(s: Seq<u8>) -> bool {
    forall|i: int| 0 <= i < s.len() ==> is_digit(#[trigger] s[i])
}

/// The value of the digit string `s`, most significant digit first.
pub open spec fn dec_value(s: Seq<u8>) -> nat
    decreases s.len(),
{
    if s.len() == 0 {
        0
    } else {
        dec_value(s.drop_last()) * 10 + (s.last() - 48) as nat
    }
}

/// The value read by [`parse_u32_digits`]: defined when `s` is a nonempty
/// digit string whose value fits in a `u32`.
pub open spec fn u32_of_dec(s: Seq<u8>) -> Option<u32> {
    if s.len() > 0 && all_digits(s) && dec_value(s) <= u32::MAX {
        Some(dec_value(s) as u32)
    } else {
        None
    }
}

/// Extending a digit string to the right cannot decrease its value.
proof fn lemma_dec_value_prefix(s: Seq<u8>, i: int)
    requires
        0 <= i <= s.len(),
    ensures
        dec_value(s) >= dec_value(s.take(i)),
    decreases s.len() - i,
{
    if i < s.len() {
        lemma_dec_value_prefix(s, i + 1);
        let t = s.take(i + 1);
        assert(t.drop_last() =~= s.take(i));
        assert(dec_value(t) == dec_value(s.take(i)) * 10 + (t.last() - 48) as nat);
        assert(dec_value(s.take(i)) * 10 >= dec_value(s.take(i)) * 1) by (nonlinear_arith);
    } else {
        assert(s.take(i) =~= s);
    }
}

/// Reads a nonempty, all-digit byte string as a `u32`; `None` on an empty
/// string, a non-digit byte, or a value above `u32::MAX`.
pub fn parse_u32_digits(s: &[u8]) -> (r: Option<u32>)
    ensures
        r == u32_of_dec(s@),
{
    if s.len() == 0 {
        return None;
    }
    let mut acc: u32 = 0;
    let mut i: usize = 0;
    while i < s.len()
        invariant
            0 <= i <= s@.len(),
            s@.len() > 0,
            all_digits(s@.take(i as int)),
            acc == dec_value(s@.take(i as int)),
        decreases s@.len() - i,
    {
        let b = s[i];
        if !(48 <= b && b <= 57) {
            assert(!all_digits(s@));
            return None;
        }
        let d: u32 = (b - 48) as u32;
        if acc > (u32::MAX - d) / 10 {
            proof {
                let t = s@.take(i + 1);
                assert(t.drop_last() =~= s@.take(i as int));
                assert(dec_value(t) == acc * 10 + d);
                assert(acc * 10 + d > u32::MAX) by (nonlinear_arith)
                    requires
                        acc > (u32::MAX - d) / 10,
                        d <= 9,
                ;
                lemma_dec_value_prefix(s@, i + 1);
            }
            return None;
        }
        proof {
            let t = s@.take(i + 1);
            assert(t.drop_last() =~= s@.take(i as int));
            assert(acc * 10 + d <= u32::MAX) by (nonlinear_arith)
                requires
                    acc <= (u32::MAX - d) / 10,
                    d <= 9,
            ;
        }
        acc = acc * 10 + d;
        i = i + 1;
    }
    proof {
        assert(s@.take(i as int) =~= s@);
    }
    Some(acc)
}

/// Whether `s` is a negative integer literal: a minus sign followed by at
/// least one digit. Such a face index is a relative reference, which the
/// loader rejects as out of range rather than misreading it.
pub open spec fn is_negative_literal(s: Seq<u8>) -> bool {
    s.len() >= 2 && s[0] == 45 && all_digits(s.skip(1))
}

/// Decides [`is_negative_literal`].
pub fn check_negative_literal(s: &[u8]) -> (r: bool)
    ensures
        r == is_negative_literal(s@),
{
    if s.len() < 2 || s[0] != 45 {
        return false;
    }
    let ghost t = s@.skip(1);
    let mut i: usize = 1;
    while i < s.len()
        invariant
            1 <= i <= s@.len(),
            s@.len() <= usize::MAX,
            s@.len() >= 2,
            t == s@.skip(1),
            forall|j: int| 0 <= j < i - 1 ==> is_digit(#[trigger] t[j]),
        decreases s@.len() - i,
    {
        let b = s[i];
        proof {
            assert(t[i - 1] == s@[i as int]);
        }
        if !(48 <= b && b <= 57) {
            return false;
        }
        i = i + 1;
    }
    true
}

/// Whether `b` is an ASCII sign character (`+` or `-`).
pub open spec fn is_sign(b: u8) -> bool {
    b == 43 || b == 45
}

/// 1 when `s` starts with a sign character, else 0.
pub open spec fn opt_sign_len(s: Seq<u8>) -> int {
    if s.len() > 0 && is_sign(s[0]) {
        1int
    } else {
        0int
    }
}

/// The number of leading ASCII digits of `s`.
pub open spec fn digit_run_len(s: Seq<u8>) -> nat
    decreases s.len(),
{
    if s.len() > 0 && is_digit(s[0]) {
        1 + digit_run_len(s.skip(1))
    } else {
        0
    }
}

/// ASCII lower-casing of a single byte.
pub open spec fn to_lower(b: u8) -> u8 {
    if 65 <= b <= 90 {
        (b + 32) as u8
    } else {
        b
    }
}

/// Whether `s`, lower-cased, reads as the word `w`.
pub open spec fn reads_as_word(s: Seq<u8>, w: Seq<u8>) -> bool {
    s.len() == w.len() && forall|i: int| 0 <= i < s.len() ==> to_lower(#[trigger] s[i]) == w[i]
}

/// The bytes of `inf`.
pub open spec fn word_inf() -> Seq<u8> {
    seq![105u8, 110u8, 102u8]
}

/// The bytes of `infinity`.
pub open spec fn word_infinity() -> Seq<u8> {
    seq![105u8, 110u8, 102u8, 105u8, 110u8, 105u8, 116u8, 121u8]
}

/// The bytes of `nan`.
pub open spec fn word_nan() -> Seq<u8> {
    seq![110u8, 97u8, 110u8]
}

/// Whether `t` is one of the special float bodies: `inf`, `infinity` or
/// `nan`, in any letter case.
pub open spec fn is_special_body(t: Seq<u8>) -> bool {
    reads_as_word(t, word_inf()) || reads_as_word(t, word_infinity()) || reads_as_word(
        t,
        word_nan(),
    )
}

/// Whether `t` is a well-formed exponent part: empty, or `e`/`E`, an
/// optional sign, and at least one digit, with nothing after.
pub open spec fn is_exp_part(t: Seq<u8>) -> bool {
    if t.len() == 0 {
        true
    } else if t[0] == 101 || t[0] == 69 {
        let u = t.skip(1);
        let v = u.skip(opt_sign_len(u));
        v.len() > 0 && digit_run_len(v) == v.len()
    } else {
        false
    }
}

/// Whether `t` is a decimal float body: an integer part, an optional dot
/// and fraction part — with at least one digit between them — and an
/// optional exponent part.
pub open spec fn is_decimal_body(t: Seq<u8>) -> bool {
    let d1 = digit_run_len(t);
    let rest = t.skip(d1 as int);
    if rest.len() > 0 && rest[0] == 46 {
        let d2 = digit_run_len(rest.skip(1));
        d1 + d2 > 0 && is_exp_part(rest.skip(1 + d2 as int))
    } else {
        d1 > 0 && is_exp_part(rest)
    }
}

/// Whether the byte string `s` is a well-formed float literal: an optional
/// sign followed by a decimal body or one of the special words. This is the
/// grammar that `v`/`vt`/`vn` attribute tokens must meet.
pub open spec fn is_float_token(s: Seq<u8>) -> bool {
    let t = s.skip(opt_sign_len(s));
    is_special_body(t) || is_decimal_body(t)
}

/// Counting leading digits: if the first `c` bytes of `s` are digits and
/// byte `c` is not (or `s` ends there), the run is exactly `c` long.
proof fn lemma_digit_run_len(s: Seq<u8>, c: int)
    requires
        0 <= c <= s.len(),
        forall|i: int| 0 <= i < c ==> is_digit(#[trigger] s[i]),
        c == s.len() || !is_digit(s[c]),
    ensures
        digit_run_len(s) == c,
    decreases c,
{
    if c == 0 {
    } else {
        lemma_digit_run_len(s.skip(1), c - 1);
    }
}

/// Scans the leading digit run of `s`, handing back its length.
fn scan_digits(s: &[u8], from: usize) -> (r: usize)
    requires
        from <= s@.len(),
    ensures
        from <= r <= s@.len(),
        r - from == digit_run_len(s@.skip(from as int)),
    decreases s@.len() - from,
{
    let mut i: usize = from;
    while i < s.len() && 48 <= s[i] && s[i] <= 57
        invariant
            from <= i <= s@.len(),
            forall|j: int| from <= j < i ==> is_digit(#[trigger] s@[j]),
        decreases s@.len() - i,
    {
        i = i + 1;
    }
    proof {
        let t = s@.skip(from as int);
        lemma_digit_run_len(t, i - from);
    }
    i
}

/// Decides [`is_exp_part`] for the tail of `s` that starts at `from`.
fn check_exp_part(s: &[u8], from: usize) -> (r: bool)
    requires
        from <= s@.len(),
    ensures
        r == is_exp_part(s@.skip(from as int)),
{
    let ghost t = s@.skip(from as int);
    if from == s.len() {
        return true;
    }
    let b = s[from];
    if !(b == 101 || b == 69) {
        return false;
    }
    let mut j: usize = from + 1;
    proof {
        assert(t.skip(1) =~= s@.skip(from + 1));
    }
    if j < s.len() && (s[j] == 43 || s[j] == 45) {
        proof {
            assert(s@.skip(from + 1).skip(1) =~= s@.skip(from + 2));
        }
        j = j + 1;
    }
    let ghost v = t.skip(1).skip(opt_sign_len(t.skip(1)));
    proof {
        assert(v =~= s@.skip(j as int));
    }
    let e = scan_digits(s, j);
    j < e && e == s.len()
}

/// Decides [`is_decimal_body`] for the tail of `s` that starts at `from`.
fn check_decimal_body(s: &[u8], from: usize) -> (r: bool)
    requires
        from <= s@.len(),
    ensures
        r == is_decimal_body(s@.skip(from as int)),
{
    let ghost t = s@.skip(from as int);
    let d1_end = scan_digits(s, from);
    let ghost rest = t.skip(digit_run_len(t) as int);
    proof {
        assert(rest =~= s@.skip(d1_end as int));
    }
    if d1_end < s.len() && s[d1_end] == 46 {
        let d2_end = scan_digits(s, d1_end + 1);
        proof {
            assert(rest.skip(1) =~= s@.skip(d1_end + 1));
            assert(rest.skip(1 + digit_run_len(rest.skip(1)) as int) =~= s@.skip(d2_end as int));
        }
        (d1_end > from || d2_end > d1_end + 1) && check_exp_part(s, d2_end)
    } else {
        d1_end > from && check_exp_part(s, d1_end)
    }
}

/// Decides whether `s`, from `from` on, reads as the word `w` ignoring
/// letter case.
fn check_word(s: &[u8], from: usize, w: &[u8]) -> (r: bool)
    requires
        from <= s@.len(),
    ensures
        r == reads_as_word(s@.skip(from as int), w@),
{
    let ghost t = s@.skip(from as int);
    if s.len() - from != w.len() {
        return false;
    }
    let mut i: usize = 0;
    while i < w.len()
        invariant
            0 <= i <= w@.len(),
            from + w@.len() == s@.len(),
            s@.len() <= usize::MAX,
            t == s@.skip(from as int),
            forall|j: int| 0 <= j < i ==> to_lower(#[trigger] t[j]) == w@[j],
        decreases w@.len() - i,
    {
        assert(t[i as int] == s@[from + i]);
        let mut b = s[from + i];
        if 65 <= b && b <= 90 {
            b = b + 32;
        }
        if b != w[i] {
            assert(to_lower(t[i as int]) != w@[i as int]);
            return false;
        }
        i = i + 1;
    }
    true
}

/// Decides [`is_float_token`]: whether the byte string `s` is a
/// well-formed float literal.
pub fn check_float_token(s: &[u8]) -> (r: bool)
    ensures
        r == is_float_token(s@),
{
    let mut from: usize = 0;
    if s.len() > 0 && (s[0] == 43 || s[0] == 45) {
        from = 1;
    }
    proof {
        assert(s@.skip(opt_sign_len(s@)) =~= s@.skip(from as int));
    }
    if check_word(s, from, &[105u8, 110u8, 102u8]) {
        return true;
    }
    if check_word(s, from, &[105u8, 110u8, 102u8, 105u8, 110u8, 105u8, 116u8, 121u8]) {
        return true;
    }
    if check_word(s, from, &[110u8, 97u8, 110u8]) {
        return true;
    }
    check_decimal_body(s, from)
}

} // verus!
