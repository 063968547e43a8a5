//! Decimal literals as the game writes them (`2.8476`, `5`, `-1.5e3`):
//! which texts `f32::from_str` accepts, and the whole seconds a duration
//! literal rounds up to.

use vstd::prelude::*;
use crate::text::{all_digits, digits_value, find, is_digit};

verus! {

pub open spec fn lower_char(c: char) -> char {
    if 'A' <= c <= 'Z' {
        ((c as u32) + 32) as char
    } else {
        c
    }
}

pub open spec fn lower(s: Seq<char>) -> Seq<char> {
    s.map_values(|c: char| lower_char(c))
}

/// The text after an optional leading sign.
pub open spec fn unsigned_part(s: Seq<char>) -> Seq<char> {
    if s.len() > 0 && (s[0] == '+' || s[0] == '-') {
        s.drop_first()
    } else {
        s
    }
}

pub open spec fn is_negative(s: Seq<char>) -> bool {
    s.len() > 0 && s[0] == '-'
}

/// Position of the first `'e'` or `'E'` (or the length).
pub open spec fn exp_pos(s: Seq<char>) -> nat
    decreases s.len(),
{
    if s.len() == 0 {
        0
    } else if s[0] == 'e' || s[0] == 'E' {
        0
    } else {
        1 + exp_pos(s.drop_first())
    }
}

/// Digits, optionally with one `'.'`, holding at least one digit.
pub open spec fn mantissa_ok(m: Seq<char>) -> bool {
    match find(m, seq!['.']) {
        None => m.len() > 0 && all_digits(m),
        Some(i) => all_digits(m.take(i)) && all_digits(m.skip(i + 1)) && m.len() > 1,
    }
}

/// An optional sign, then one or more digits.
pub open spec fn exponent_ok(x: Seq<char>) -> bool {
    let y = unsigned_part(x);
    y.len() > 0 && all_digits(y)
}

/// `Number ::= Mantissa (('e' | 'E') Exponent)?`
pub open spec fn decimal_number(b: Seq<char>) -> bool {
    let e = exp_pos(b);
    mantissa_ok(b.take(e as int)) && (e >= b.len() || exponent_ok(b.skip(e + 1int)))
}

pub open spec fn special_float(b: Seq<char>) -> bool {
    let l = lower(b);
    l == seq!['i', 'n', 'f'] || l == seq!['i', 'n', 'f', 'i', 'n', 'i', 't', 'y'] || l == seq![
        'n',
        'a',
        'n',
    ]
}

/// `f32::from_str` accepts `s`: an optional sign, then `inf`, `infinity` or
/// `nan` (any case) or a decimal number with an optional exponent.
pub open spec fn f32_literal(s: Seq<char>) -> bool {
    let b = unsigned_part(s);
    special_float(b) || decimal_number(b)
}

proof fn lemma_exp_pos(s: Seq<char>)
    ensures
        exp_pos(s) <= s.len(),
        forall|j: int| 0 <= j < exp_pos(s) ==> s[j] != 'e' && s[j] != 'E',
        exp_pos(s) < s.len() ==> (s[exp_pos(s) as int] == 'e' || s[exp_pos(s) as int] == 'E'),
    decreases s.len(),
{
    if s.len() > 0 && !(s[0] == 'e' || s[0] == 'E') {
        lemma_exp_pos(s.drop_first());
        assert forall|j: int| 0 <= j < exp_pos(s) implies s[j] != 'e' && s[j] != 'E' by {
            if j > 0 {
                assert(s[j] == s.drop_first()[j - 1]);
            }
        }
    }
}

fn all_digits_range(s: &[char], from: usize, to: usize) -> (r: bool)
    requires
        from <= to <= s@.len(),
    ensures
        r == all_digits(s@.subrange(from as int, to as int)),
{
    let mut i = from;
    while i < to
        invariant
            from <= i <= to <= s@.len(),
            forall|j: int| from <= j < i ==> is_digit(s@[j]),
        decreases to - i,
    {
        if !('0' <= s[i] && s[i] <= '9') {
            assert(s@.subrange(from as int, to as int)[i - from] == s@[i as int]);
            return false;
        }
        i += 1;
    }
    assert forall|j: int| 0 <= j < to - from implies is_digit(
        #[trigger] s@.subrange(from as int, to as int)[j],
    ) by {
        assert(s@.subrange(from as int, to as int)[j] == s@[from + j]);
    }
    true
}

fn lower_eq(s: &[char], from: usize, word: &[char]) -> (r: bool)
    requires
        from <= s@.len(),
    ensures
        r == (lower(s@.skip(from as int)) == word@),
{
    let n = s.len() - from;
    if n != word.len() {
        assert(lower(s@.skip(from as int)).len() == n);
        return false;
    }
    let mut i: usize = 0;
    while i < n
        invariant
            i <= n == s@.len() - from == word@.len(),
            from + n == s.len(),
            forall|j: int| 0 <= j < i ==> lower_char(s@[from + j]) == word@[j],
        decreases n - i,
    {
        let c = s[from + i];
        let l = if 'A' <= c && c <= 'Z' {
            ((c as u8) + 32) as char
        } else {
            c
        };
        assert(l == lower_char(c));
        if l != word[i] {
            assert(lower(s@.skip(from as int))[i as int] == l);
            return false;
        }
        i += 1;
    }
    assert(lower(s@.skip(from as int)) =~= word@);
    true
}

/// Whether `f32::from_str` accepts the text.
pub fn is_f32_literal(s: &[char]) -> (r: bool)
    ensures
        r == f32_literal(s@),
{
    let start: usize = if s.len() > 0 && (s[0] == '+' || s[0] == '-') {
        1
    } else {
        0
    };
    let ghost b = unsigned_part(s@);
    assert(b =~= s@.skip(start as int));
    let inf = vec!['i', 'n', 'f'];
    let infinity = vec!['i', 'n', 'f', 'i', 'n', 'i', 't', 'y'];
    let nan = vec!['n', 'a', 'n'];
    assert(inf@ =~= seq!['i', 'n', 'f']);
    assert(infinity@ =~= seq!['i', 'n', 'f', 'i', 'n', 'i', 't', 'y']);
    assert(nan@ =~= seq!['n', 'a', 'n']);
    if lower_eq(s, start, inf.as_slice()) || lower_eq(s, start, infinity.as_slice()) || lower_eq(
        s,
        start,
        nan.as_slice(),
    ) {
        return true;
    }
    // exponent position
    let mut e = start;
    proof {
        lemma_exp_pos(b);
    }
    while e < s.len() && s[e] != 'e' && s[e] != 'E'
        invariant
            start <= e <= s@.len(),
            b == s@.skip(start as int),
            e - start <= exp_pos(b),
            forall|j: int| 0 <= j < exp_pos(b) ==> b[j] != 'e' && b[j] != 'E',
            exp_pos(b) <= b.len(),
            exp_pos(b) < b.len() ==> (b[exp_pos(b) as int] == 'e' || b[exp_pos(b) as int] == 'E'),
        decreases s.len() - e,
    {
        e += 1;
    }
    assert(e - start == exp_pos(b)) by {
        if e - start < exp_pos(b) {
            assert(b[e - start] == s@[e as int]);
        }
    }
    // mantissa s[start..e]
    let ghost m = b.take(e - start);
    assert(m =~= s@.subrange(start as int, e as int));
    let mut dot = start;
    while dot < e && s[dot] != '.'
        invariant
            start <= dot <= e <= s@.len(),
            forall|j: int| start <= j < dot ==> s@[j] != '.',
        decreases e - dot,
    {
        dot += 1;
    }
    proof {
        crate::text::lemma_find_single_pub(m, '.');
    }
    let mant_ok = if dot == e {
        proof {
            if let Some(k) = find(m, seq!['.']) {
                assert(m[k] == s@[start + k]);
            }
        }
        e > start && all_digits_range(s, start, e)
    } else {
        proof {
            assert(m[dot - start] == '.');
            if let Some(k) = find(m, seq!['.']) {
                assert(m[k] == s@[start + k]);
                assert(k == dot - start);
            }
            assert(m.take(dot - start) =~= s@.subrange(start as int, dot as int));
            assert(m.skip(dot - start + 1) =~= s@.subrange(dot + 1, e as int));
        }
        all_digits_range(s, start, dot) && all_digits_range(s, dot + 1, e) && e - start > 1
    };
    if !mant_ok {
        return false;
    }
    if e == s.len() {
        return true;
    }
    // exponent s[e+1..]
    let ghost x = b.skip(e - start + 1);
    assert(x =~= s@.skip(e + 1));
    let xs: usize = if e + 1 < s.len() && (s[e + 1] == '+' || s[e + 1] == '-') {
        e + 2
    } else {
        e + 1
    };
    assert(unsigned_part(x) =~= s@.skip(xs as int));
    assert(s@.skip(xs as int) =~= s@.subrange(xs as int, s@.len() as int));
    xs < s.len() && all_digits_range(s, xs, s.len())
}

// ============================================================
// Whole seconds of a duration
// ============================================================

pub open spec fn pow10(k: nat) -> nat
    decreases k,
{
    if k == 0 {
        1
    } else {
        10 * pow10((k - 1) as nat)
    }
}

/// The mantissa digits with the `'.'` removed.
pub open spec fn mantissa_digits(m: Seq<char>) -> Seq<char> {
    match find(m, seq!['.']) {
        None => m,
        Some(i) => m.take(i) + m.skip(i + 1),
    }
}

/// Number of mantissa digits before the `'.'`.
pub open spec fn int_digit_count(m: Seq<char>) -> int {
    match find(m, seq!['.']) {
        None => m.len() as int,
        Some(i) => i,
    }
}

/// Signed value of an exponent text.
pub open spec fn exponent_value(x: Seq<char>) -> int {
    let y = unsigned_part(x);
    if is_negative(x) {
        -(digits_value(y) as int)
    } else {
        digits_value(y) as int
    }
}

pub open spec fn any_nonzero(s: Seq<char>) -> bool {
    exists|j: int| 0 <= j < s.len() && s[j] != '0'
}

/// `ceil(d × 10^(p - |d|))` for the digit string `d` with the decimal point
/// after `p` digits.
pub open spec fn ceil_shifted(d: Seq<char>, p: int) -> int {
    if p <= 0 {
        if any_nonzero(d) {
            1
        } else {
            0
        }
    } else if p >= d.len() {
        (digits_value(d) * pow10((p - d.len()) as nat)) as int
    } else {
        digits_value(d.take(p)) as int + if any_nonzero(d.skip(p)) {
            1int
        } else {
            0int
        }
    }
}

/// The exact ceiling of a nonnegative decimal number literal.
pub open spec fn number_ceil(b: Seq<char>) -> int {
    let e = exp_pos(b);
    let m = b.take(e as int);
    let exp = if e < b.len() {
        exponent_value(b.skip(e + 1int))
    } else {
        0
    };
    ceil_shifted(mantissa_digits(m), int_digit_count(m) + exp)
}

/// Whole seconds of a duration literal: its ceiling, at least zero and at
/// most `u32::MAX`; `inf` gives `u32::MAX`, `nan` and `-inf` give zero.
pub open spec fn duration_secs(s: Seq<char>) -> int {
    let b = unsigned_part(s);
    if is_negative(s) {
        0
    } else if special_float(b) {
        if lower(b) == seq!['n', 'a', 'n'] {
            0
        } else {
            u32::MAX as int
        }
    } else {
        let c = number_ceil(b);
        if c > u32::MAX {
            u32::MAX as int
        } else {
            c
        }
    }
}

pub open spec fn cap32(x: int) -> int {
    if x > u32::MAX {
        u32::MAX + 1
    } else {
        x
    }
}

/// The exponent bound beyond which the position of the decimal point no
/// longer matters for a whole number of seconds.
pub open spec fn exp_cap() -> int {
    0x10000000000000000000000000int
}

proof fn lemma_pow10_pos(k: nat)
    ensures
        pow10(k) >= 1,
    decreases k,
{
    if k > 0 {
        lemma_pow10_pos((k - 1) as nat);
    }
}

proof fn lemma_pow10_mono(a: nat, b: nat)
    requires
        a <= b,
    ensures
        pow10(a) <= pow10(b),
    decreases b,
{
    if a < b {
        lemma_pow10_mono(a, (b - 1) as nat);
        lemma_pow10_pos((b - 1) as nat);
    }
}

proof fn lemma_pow10_big(k: nat)
    requires
        k >= 10,
    ensures
        pow10(k) >= 10000000000,
{
    lemma_pow10_mono(10, k);
    reveal_with_fuel(pow10, 11);
}

proof fn lemma_mul_ge(x: int, y: int, z: int)
    requires
        x >= 1,
        y >= z >= 0,
    ensures
        x * y >= z,
{
    assert(x * y >= 1 * y) by (nonlinear_arith)
        requires
            x >= 1,
            y >= 0,
    ;
}

proof fn lemma_mul_mono(x: int, y: int, z: int)
    requires
        x >= 0,
        y >= z >= 0,
    ensures
        x * y >= x * z,
{
    assert(x * y >= x * z) by (nonlinear_arith)
        requires
            x >= 0,
            y >= z,
    ;
}

/// Far from the digits, the point's exact position does not change the
/// capped ceiling.
proof fn lemma_ceil_far(d: Seq<char>, p1: int, p2: int)
    requires
        all_digits(d),
        (p1 <= 0 && p2 <= 0) || (p1 >= d.len() + 10 && p2 >= d.len() + 10),
    ensures
        cap32(ceil_shifted(d, p1)) == cap32(ceil_shifted(d, p2)),
{
    if p1 >= d.len() + 10 {
        let v = digits_value(d) as int;
        let a = pow10((p1 - d.len()) as nat) as int;
        let b = pow10((p2 - d.len()) as nat) as int;
        assert(ceil_shifted(d, p1) == v * a);
        assert(ceil_shifted(d, p2) == v * b);
        if v > 0 {
            lemma_pow10_big((p1 - d.len()) as nat);
            lemma_pow10_big((p2 - d.len()) as nat);
            lemma_mul_ge(v, a, 10000000000);
            lemma_mul_ge(v, b, 10000000000);
        } else {
            assert(v * a == 0 && v * b == 0) by (nonlinear_arith)
                requires
                    v == 0,
            ;
        }
    }
}

proof fn lemma_digits_push(s: Seq<char>, from: int, i: int)
    requires
        0 <= from <= i < s.len(),
    ensures
        digits_value(s.subrange(from, i + 1)) == digits_value(s.subrange(from, i)) * 10 + ((
        s[i] as u32) - ('0' as u32)) as nat,
{
    assert(s.subrange(from, i + 1).drop_last() =~= s.subrange(from, i));
}

/// `min(digits_value(s[from..to]), cap)`.
fn digits_capped(s: &[char], from: usize, to: usize, cap: u128) -> (r: u128)
    requires
        from <= to <= s@.len(),
        all_digits(s@.subrange(from as int, to as int)),
        cap <= exp_cap(),
    ensures
        r as int == if digits_value(s@.subrange(from as int, to as int)) > cap {
            cap as int
        } else {
            digits_value(s@.subrange(from as int, to as int)) as int
        },
{
    let mut v: u128 = 0;
    let mut i = from;
    while i < to
        invariant
            from <= i <= to <= s@.len(),
            all_digits(s@.subrange(from as int, to as int)),
            cap <= exp_cap(),
            v as int == if digits_value(s@.subrange(from as int, i as int)) > cap {
                cap as int
            } else {
                digits_value(s@.subrange(from as int, i as int)) as int
            },
        decreases to - i,
    {
        assert(s@.subrange(from as int, to as int)[i - from] == s@[i as int]);
        let dig = (s[i] as u32 - '0' as u32) as u128;
        proof {
            lemma_digits_push(s@, from as int, i as int);
        }
        if v < cap {
            let t = v * 10 + dig;
            v = if t > cap {
                cap
            } else {
                t
            };
        }
        i += 1;
    }
    v
}

fn any_nonzero_range(s: &[char], from: usize, to: usize) -> (r: bool)
    requires
        from <= to <= s@.len(),
    ensures
        r == any_nonzero(s@.subrange(from as int, to as int)),
{
    let mut i = from;
    while i < to
        invariant
            from <= i <= to <= s@.len(),
            forall|j: int| from <= j < i ==> s@[j] == '0',
        decreases to - i,
    {
        if s[i] != '0' {
            assert(s@.subrange(from as int, to as int)[i - from] == s@[i as int]);
            return true;
        }
        i += 1;
    }
    assert forall|j: int| 0 <= j < to - from implies s@.subrange(from as int, to as int)[j]
        == '0' by {
        assert(s@.subrange(from as int, to as int)[j] == s@[from + j]);
    }
    false
}

/// `cap32(ceil_shifted(d, p))`.
fn ceil_capped(d: &[char], p: i128) -> (r: u64)
    requires
        all_digits(d@),
        -exp_cap() - 0x10000000000000000int <= p <= exp_cap() + 0x10000000000000000int,
    ensures
        r as int == cap32(ceil_shifted(d@, p as int)),
{
    let n = d.len();
    assert(d@.subrange(0, n as int) =~= d@);
    if p <= 0 {
        return if any_nonzero_range(d, 0, n) {
            1
        } else {
            0
        };
    }
    let cap: u128 = 4294967296;
    if p >= n as i128 {
        let ghost dv = digits_value(d@);
        let mut v: u128 = digits_capped(d, 0, n, cap);
        let shift: u128 = (p - n as i128) as u128;
        let mut k: u128 = 0;
        proof {
            assert(pow10(0) == 1);
            assert(dv * 1 == dv);
        }
        while k < shift && v != 0 && v < cap
            invariant
                k <= shift,
                shift == p - n,
                cap == 4294967296,
                v as int == cap32((dv * pow10(k as nat)) as int),
            decreases shift - k,
        {
            proof {
                assert(pow10((k + 1) as nat) == 10 * pow10(k as nat));
                assert(dv * pow10((k + 1) as nat) == (dv * pow10(k as nat)) * 10) by (nonlinear_arith)
                    requires
                        pow10((k + 1) as nat) == 10 * pow10(k as nat),
                ;
            }
            let t = v * 10;
            v = if t > cap {
                cap
            } else {
                t
            };
            k += 1;
        }
        proof {
            if k < shift {
                if v == 0 {
                    assert(dv * pow10(k as nat) == 0);
                    lemma_pow10_pos(k as nat);
                    assert(dv == 0) by (nonlinear_arith)
                        requires
                            dv * pow10(k as nat) == 0,
                            pow10(k as nat) >= 1,
                            dv >= 0,
                    ;
                    assert(dv * pow10(shift as nat) == 0) by (nonlinear_arith)
                        requires
                            dv == 0,
                    ;
                } else {
                    lemma_pow10_mono(k as nat, shift as nat);
                    lemma_mul_mono(dv as int, pow10(shift as nat) as int, pow10(k as nat) as int);
                }
            }
        }
        return v as u64;
    }
    let pu = p as usize;
    let ip = digits_capped(d, 0, pu, cap);
    assert(d@.subrange(0, pu as int) =~= d@.take(pu as int));
    assert(d@.subrange(pu as int, n as int) =~= d@.skip(pu as int));
    let frac = any_nonzero_range(d, pu, n);
    let total = ip + if frac {
        1
    } else {
        0
    };
    if total > cap {
        cap as u64
    } else {
        total as u64
    }
}

/// The mantissa `b[start..e]` of a decimal number: its digits without the
/// point, and how many come before the point.
fn mantissa_parts(d: &[char], start: usize, e: usize) -> (r: (Vec<char>, usize))
    requires
        start <= e <= d@.len(),
        mantissa_ok(d@.subrange(start as int, e as int)),
    ensures
        r.0@ == mantissa_digits(d@.subrange(start as int, e as int)),
        r.1 as int == int_digit_count(d@.subrange(start as int, e as int)),
        r.1 <= e - start,
        all_digits(r.0@),
{
    let ghost m = d@.subrange(start as int, e as int);
    let mut dot = start;
    while dot < e && d[dot] != '.'
        invariant
            start <= dot <= e <= d@.len(),
            forall|j: int| start <= j < dot ==> d@[j] != '.',
        decreases e - dot,
    {
        dot += 1;
    }
    proof {
        crate::text::lemma_find_single_pub(m, '.');
    }
    if dot == e {
        proof {
            if let Some(k) = find(m, seq!['.']) {
                assert(m[k] == d@[start + k]);
            }
        }
        let md = crate::text::copy_range(d, start, e);
        assert(md@ =~= mantissa_digits(m));
        (md, e - start)
    } else {
        proof {
            assert(m[dot - start] == '.');
            if let Some(k) = find(m, seq!['.']) {
                assert(m[k] == d@[start + k]);
                assert(k == dot - start);
            }
        }
        let mut md = crate::text::copy_range(d, start, dot);
        let mut tail = crate::text::copy_range(d, dot + 1, e);
        let ghost h = md@;
        let ghost t = tail@;
        md.append(&mut tail);
        assert(m.take(dot - start) =~= h);
        assert(m.skip(dot - start + 1) =~= t);
        assert(md@ =~= mantissa_digits(m));
        proof {
            assert forall|j: int| 0 <= j < md@.len() implies is_digit(md@[j]) by {
                if j < dot - start {
                    assert(md@[j] == m.take(dot - start)[j]);
                } else {
                    assert(md@[j] == m.skip(dot - start + 1)[j - (dot - start)]);
                }
            }
        }
        (md, dot - start)
    }
}

/// The exponent `x = d[e+1..]` of a number, with its magnitude capped.
fn exponent_capped(d: &[char], e: usize) -> (r: i128)
    requires
        e < d@.len(),
        exponent_ok(d@.skip(e + 1)),
    ensures
        -exp_cap() <= r <= exp_cap(),
        r == exponent_value(d@.skip(e + 1)) || (r == exp_cap() && exponent_value(d@.skip(e + 1))
            > exp_cap()) || (r == -exp_cap() && exponent_value(d@.skip(e + 1)) < -exp_cap()),
{
    let n = d.len();
    let ghost x = d@.skip(e + 1);
    let neg = e + 1 < n && d[e + 1] == '-';
    let xs: usize = if e + 1 < n && (d[e + 1] == '+' || d[e + 1] == '-') {
        e + 2
    } else {
        e + 1
    };
    assert(unsigned_part(x) =~= d@.subrange(xs as int, n as int));
    let cap: u128 = 0x10000000000000000000000000;
    let v = digits_capped(d, xs, n, cap);
    if neg {
        -(v as i128)
    } else {
        v as i128
    }
}

/// Whole seconds of a duration literal: its exact decimal value rounded up,
/// at least zero and at most `u32::MAX`; `inf` and `infinity` give
/// `u32::MAX`, `nan` and negative values zero. The rounding is of the
/// decimal value itself, not of its nearest `f32`.
pub fn duration_secs_exec(d: &[char]) -> (r: u32)
    requires
        f32_literal(d@),
    ensures
        r as int == duration_secs(d@),
{
    let n = d.len();
    if n > 0 && d[0] == '-' {
        return 0;
    }
    let start: usize = if n > 0 && d[0] == '+' {
        1
    } else {
        0
    };
    let ghost b = unsigned_part(d@);
    assert(b =~= d@.skip(start as int));
    let inf = vec!['i', 'n', 'f'];
    let infinity = vec!['i', 'n', 'f', 'i', 'n', 'i', 't', 'y'];
    let nan = vec!['n', 'a', 'n'];
    assert(inf@ =~= seq!['i', 'n', 'f']);
    assert(infinity@ =~= seq!['i', 'n', 'f', 'i', 'n', 'i', 't', 'y']);
    assert(nan@ =~= seq!['n', 'a', 'n']);
    if lower_eq(d, start, nan.as_slice()) {
        return 0;
    }
    if lower_eq(d, start, inf.as_slice()) || lower_eq(d, start, infinity.as_slice()) {
        return u32::MAX;
    }
    assert(decimal_number(b));
    let mut e = start;
    proof {
        lemma_exp_pos(b);
    }
    while e < n && d[e] != 'e' && d[e] != 'E'
        invariant
            start <= e <= d@.len() == n,
            b == d@.skip(start as int),
            e - start <= exp_pos(b),
            forall|j: int| 0 <= j < exp_pos(b) ==> b[j] != 'e' && b[j] != 'E',
            exp_pos(b) <= b.len(),
            exp_pos(b) < b.len() ==> (b[exp_pos(b) as int] == 'e' || b[exp_pos(b) as int] == 'E'),
        decreases n - e,
    {
        e += 1;
    }
    assert(e - start == exp_pos(b)) by {
        if e - start < exp_pos(b) {
            assert(b[e - start] == d@[e as int]);
        }
    }
    let ghost m = b.take(e - start);
    assert(m =~= d@.subrange(start as int, e as int));
    let (md, idc) = mantissa_parts(d, start, e);
    let exp: i128 = if e == n {
        0
    } else {
        assert(b.skip(e - start + 1) =~= d@.skip(e + 1));
        exponent_capped(d, e)
    };
    let p: i128 = idc as i128 + exp;
    let ml = md.len();
    let c = ceil_capped(md.as_slice(), p);
    proof {
        assert(ml as int == md@.len());
        assert(ml <= usize::MAX);
        assert(usize::MAX <= 0xffff_ffff_ffff_ffffint);
        let exp_true: int = if e < n {
            exponent_value(b.skip(e - start + 1))
        } else {
            0
        };
        if e < n {
            assert(b.skip(e - start + 1) =~= d@.skip(e + 1));
        }
        let p_true = int_digit_count(m) + exp_true;
        assert(number_ceil(b) == ceil_shifted(mantissa_digits(m), p_true));
        if p != p_true {
            lemma_ceil_far(md@, p as int, p_true);
        }
    }
    if c > 4294967295 {
        u32::MAX
    } else {
        c as u32
    }
}

} // verus!
