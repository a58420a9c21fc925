//! Decimal strings as fixed-point integers.
//!
//! Prices and quantities arrive from the exchange as decimal strings such as
//! `"27123.45000000"`. The library holds them as unsigned integers counting
//! units of 10^-8 (the exchange's own precision): `"1.5"` is `150_000_000`.
//! Digits past the eighth decimal place are truncated.
use vstd::prelude::*;

verus! {

/// Number of fixed-point units in one whole unit (10^8).
pub const SCALE: u64 = 100_000_000;

/// Smallest integer part whose scaled value no longer fits in a `u64`.
pub const INT_CAP: u64 = 184_467_440_738;

pub open spec fn is_digit(c: char) -> bool {
    '0' <= c && c <= '9'
}

pub open spec fn digit_of(c: char) -> nat {
    ((c as u32) - ('0' as u32)) as nat
}

/// The value of a run of decimal digits, most significant first.
pub open spec fn digits_value(s: Seq<char>) -> nat
    decreases s.len(),
{
    if s.len() == 0 {
        0
    } else {
        digits_value(s.drop_last()) * 10 + digit_of(s.last())
    }
}

pub open spec fn pow10(n: nat) -> nat
    decreases n,
{
    if n == 0 {
        1
    } else {
        10 * pow10((n - 1) as nat)
    }
}

/// First index at or after `from` that does not hold a digit (or the length).
pub open spec fn digit_run_end(s: Seq<char>, from: int) -> int
    decreases s.len() - from,
{
    if from < 0 || from >= s.len() || !is_digit(s[from]) {
        from
    } else {
        digit_run_end(s, from + 1)
    }
}

/// The fixed-point units of a fractional part: its first eight digits,
/// padded on the right with zeros.
pub open spec fn frac_units(f: Seq<char>) -> nat {
    if f.len() >= 8 {
        digits_value(f.take(8))
    } else {
        digits_value(f) * pow10((8 - f.len()) as nat)
    }
}

/// What a decimal string denotes, in units of 10^-8: digits, then optionally a
/// point and more digits, with at least one digit in all; no sign, no exponent.
pub open spec fn decimal_units(s: Seq<char>) -> Option<nat> {
    let p = digit_run_end(s, 0);
    if p == s.len() {
        if p > 0 {
            Some(digits_value(s) * (SCALE as nat))
        } else {
            None
        }
    } else if s[p] == '.' && digit_run_end(s, p + 1) == s.len() && s.len() > 1 {
        Some(digits_value(s.take(p)) * (SCALE as nat) + frac_units(s.skip(p + 1)))
    } else {
        None
    }
}

/// The parsed value when it denotes a number that fits in a `u64`.
pub open spec fn parse_units_spec(s: Seq<char>) -> Option<u64> {
    match decimal_units(s) {
        Some(v) => if v <= u64::MAX {
            Some(v as u64)
        } else {
            None
        },
        None => None,
    }
}

/// The parsed value, or 0 when the text is not a decimal number that fits.
pub open spec fn units_or_zero(s: Seq<char>) -> u64 {
    match parse_units_spec(s) {
        Some(v) => v,
        None => 0,
    }
}

proof fn lemma_run_end_bounds(s: Seq<char>, from: int)
    requires
        0 <= from <= s.len(),
    ensures
        from <= digit_run_end(s, from) <= s.len(),
        forall|j: int| from <= j < digit_run_end(s, from) ==> is_digit(#[trigger] s[j]),
        digit_run_end(s, from) < s.len() ==> !is_digit(s[digit_run_end(s, from)]),
    decreases s.len() - from,
{
    if from < s.len() && is_digit(s[from]) {
        lemma_run_end_bounds(s, from + 1);
    }
}

proof fn lemma_run_end_step(s: Seq<char>, from: int, i: int)
    requires
        0 <= from <= i <= s.len(),
        forall|j: int| from <= j < i ==> is_digit(#[trigger] s[j]),
    ensures
        digit_run_end(s, from) == digit_run_end(s, i),
    decreases i - from,
{
    if from < i {
        lemma_run_end_step(s, from + 1, i);
    }
}

proof fn lemma_digits_push(s: Seq<char>, i: int)
    requires
        0 <= i < s.len(),
    ensures
        digits_value(s.take(i + 1)) == digits_value(s.take(i)) * 10 + digit_of(s[i]),
{
    assert(s.take(i + 1).drop_last() =~= s.take(i));
}

/// Reads the run of digits of `s` from `from` up to `to`, saturating at `INT_CAP`.
fn read_digits(s: &str, from: usize, to: usize) -> (acc: u64)
    requires
        from <= to <= s@.len(),
        forall|j: int| from <= j < to ==> is_digit(#[trigger] s@[j]),
    ensures
        acc as nat == if digits_value(s@.subrange(from as int, to as int)) < INT_CAP as nat {
            digits_value(s@.subrange(from as int, to as int))
        } else {
            INT_CAP as nat
        },
{
    let ghost t = s@.subrange(from as int, to as int);
    let mut acc: u64 = 0;
    let mut i: usize = from;
    assert(t.take(0) =~= Seq::<char>::empty());
    while i < to
        invariant
            from <= i <= to,
            to <= s@.len(),
            t == s@.subrange(from as int, to as int),
            forall|j: int| from <= j < to ==> is_digit(#[trigger] s@[j]),
            acc as nat == if digits_value(t.take(i - from)) < INT_CAP as nat {
                digits_value(t.take(i - from))
            } else {
                INT_CAP as nat
            },
        decreases to - i,
    {
        let c = s.get_char(i);
        assert(is_digit(s@[i as int]));
        let d: u64 = (c as u32 - '0' as u32) as u64;
        proof {
            lemma_digits_push(t, i - from);
            assert(t[i - from] == s@[i as int]);
        }
        let next: u64 = acc * 10 + d;
        acc = if next < INT_CAP {
            next
        } else {
            INT_CAP
        };
        i = i + 1;
    }
    assert(t.take(to - from) =~= t);
    acc
}

/// Parses a decimal string into units of 10^-8, truncating digits past the
/// eighth decimal place. `None` when the text is not of the form
/// `digits[.digits]` or its value does not fit in a `u64`.
pub fn parse_units(s: &str) -> (r: Option<u64>)
    ensures
        r == parse_units_spec(s@),
{
    let n = s.unicode_len();
    let ghost q = s@;
    let mut p: usize = 0;
    while p < n && is_digit_char(s.get_char(p))
        invariant
            p <= n,
            n == q.len(),
            q == s@,
            forall|j: int| 0 <= j < p ==> is_digit(#[trigger] q[j]),
        decreases n - p,
    {
        p = p + 1;
    }
    proof {
        lemma_run_end_step(q, 0, p as int);
        lemma_run_end_bounds(q, p as int);
        if p < n {
            assert(!is_digit(q[p as int]));
        }
        assert(digit_run_end(q, p as int) == p as int);
    }
    let int_part = read_digits(s, 0, p);
    assert(q.subrange(0, p as int) =~= q.take(p as int));
    if int_part >= INT_CAP {
        proof {
            assert(digits_value(q.take(p as int)) * (SCALE as nat) > u64::MAX) by (nonlinear_arith)
                requires digits_value(q.take(p as int)) >= INT_CAP as nat;
            if p == n {
                assert(q.take(p as int) =~= q);
            }
        }
        return None;
    }
    let whole: u64 = int_part * SCALE;
    if p == n {
        assert(q.take(p as int) =~= q);
        if p == 0 {
            return None;
        }
        return Some(whole);
    }
    if s.get_char(p) != '.' || n <= 1 {
        return None;
    }
    let mut e: usize = p + 1;
    while e < n && is_digit_char(s.get_char(e))
        invariant
            p + 1 <= e <= n,
            n == q.len(),
            q == s@,
            forall|j: int| p + 1 <= j < e ==> is_digit(#[trigger] q[j]),
        decreases n - e,
    {
        e = e + 1;
    }
    proof {
        lemma_run_end_step(q, p + 1, e as int);
        lemma_run_end_bounds(q, e as int);
        if e < n {
            assert(!is_digit(q[e as int]));
        }
        assert(digit_run_end(q, e as int) == e as int);
    }
    if e < n {
        return None;
    }
    let ghost f = q.skip(p + 1);
    let kept: usize = if n - (p + 1) >= 8 {
        8
    } else {
        n - (p + 1)
    };
    let frac_digits = read_digits(s, p + 1, p + 1 + kept);
    proof {
        assert(q.subrange(p + 1, p + 1 + kept) =~= f.take(kept as int));
        if kept < 8 {
            assert(f.take(kept as int) =~= f);
        }
        assert forall|j: int| 0 <= j < f.len() implies is_digit(#[trigger] f[j]) by {
            assert(f[j] == q[p + 1 + j]);
        }
        let t = f.take(kept as int);
        assert forall|j: int| 0 <= j < t.len() implies is_digit(#[trigger] t[j]) by {
            assert(t[j] == f[j]);
        }
        lemma_digits_below_pow10(t);
        lemma_pow10_mono(kept as nat, 8);
        reveal_with_fuel(pow10, 9);
        assert(pow10(8) == 100_000_000);
        assert(f.len() == n - (p + 1));
        assert(t.len() == kept);
        assert(digits_value(t) < 100_000_000);
        assert(frac_digits as nat == digits_value(t));
        assert(pow10(0) == 1);
    }
    let mut frac: u64 = frac_digits;
    let mut k: usize = kept;
    proof {
        let t = f.take(kept as int);
        assert(pow10((k - kept) as nat) == 1);
        assert(digits_value(t) * 1 == digits_value(t));
        assert(frac as nat == digits_value(f.take(kept as int)) * pow10((k - kept) as nat));
    }
    while k < 8
        invariant
            kept <= k <= 8,
            frac as nat == digits_value(f.take(kept as int)) * pow10((k - kept) as nat),
            frac < pow10(k as nat),
        decreases 8 - k,
    {
        proof {
            lemma_pow10_mono((k + 1) as nat, 8);
            reveal_with_fuel(pow10, 9);
            assert(pow10(8) == 100_000_000);
            assert(pow10((k + 1) as nat) == 10 * pow10(k as nat));
            assert(pow10((k - kept + 1) as nat) == 10 * pow10((k - kept) as nat));
            assert(digits_value(f.take(kept as int)) * pow10((k - kept + 1) as nat)
                == digits_value(f.take(kept as int)) * pow10((k - kept) as nat) * 10) by (nonlinear_arith)
                requires pow10((k - kept + 1) as nat) == 10 * pow10((k - kept) as nat);
        }
        frac = frac * 10;
        k = k + 1;
    }
    proof {
        if f.len() >= 8 {
            assert(kept == 8);
        } else {
            assert(kept as nat == f.len());
        }
        assert(frac as nat == frac_units(f));
        lemma_frac_below_scale(f);
        assert(q.take(p as int) =~= q.subrange(0, p as int));
    }
    assert(frac < SCALE);
    if whole > u64::MAX - frac {
        return None;
    }
    Some(whole + frac)
}

/// Parses a decimal string into units of 10^-8, falling back to 0 on text that
/// is not a decimal number that fits.
pub fn parse_units_or_zero(s: &str) -> (r: u64)
    ensures
        r == units_or_zero(s@),
{
    match parse_units(s) {
        Some(v) => v,
        None => 0,
    }
}

fn is_digit_char(c: char) -> (r: bool)
    ensures
        r == is_digit(c),
{
    '0' <= c && c <= '9'
}

proof fn lemma_digits_below_pow10(s: Seq<char>)
    requires
        forall|j: int| 0 <= j < s.len() ==> is_digit(#[trigger] s[j]),
    ensures
        digits_value(s) < pow10(s.len()),
    decreases s.len(),
{
    if s.len() > 0 {
        let t = s.drop_last();
        assert forall|j: int| 0 <= j < t.len() implies is_digit(#[trigger] t[j]) by {
            assert(t[j] == s[j]);
        }
        lemma_digits_below_pow10(t);
        assert(is_digit(s[s.len() - 1]));
        assert(digit_of(s.last()) <= 9);
        assert(pow10(s.len()) == 10 * pow10(t.len()));
        assert(digits_value(t) * 10 + digit_of(s.last()) < 10 * pow10(t.len())) by (nonlinear_arith)
            requires digits_value(t) < pow10(t.len()), digit_of(s.last()) <= 9;
    }
}

proof fn lemma_pow10_bound(a: nat, b: nat)
    ensures
        pow10(b) > 0,
        pow10(a) > 0,
        pow10(a + b) == pow10(a) * pow10(b),
    decreases b,
{
    lemma_pow10_zero_pos(a);
    lemma_pow10_zero_pos(b);
    if b > 0 {
        let b1 = (b - 1) as nat;
        lemma_pow10_bound(a, b1);
        let x = pow10(a);
        let y = pow10(b1);
        assert(a + b == (a + b1) + 1);
        assert(pow10(a + b) == 10 * pow10(a + b1));
        assert(pow10(b) == 10 * y);
        assert(x * (10 * y) == 10 * (x * y)) by (nonlinear_arith);
        assert(pow10(a) * pow10(b) == x * (10 * y));
    } else {
        assert(a + b == a);
        assert(pow10(b) == 1);
        assert(pow10(a) * 1 == pow10(a));
    }
}

proof fn lemma_pow10_mono(a: nat, b: nat)
    requires
        a <= b,
    ensures
        pow10(a) <= pow10(b),
    decreases b,
{
    if a < b {
        lemma_pow10_mono(a, (b - 1) as nat);
    }
}

proof fn lemma_pow10_zero_pos(a: nat)
    ensures
        pow10(a) > 0,
    decreases a,
{
    if a > 0 {
        lemma_pow10_zero_pos((a - 1) as nat);
    }
}

proof fn lemma_frac_below_scale(f: Seq<char>)
    requires
        forall|j: int| 0 <= j < f.len() ==> is_digit(#[trigger] f[j]),
    ensures
        frac_units(f) < SCALE as nat,
{
    reveal_with_fuel(pow10, 9);
            assert(pow10(8) == 100_000_000);
    if f.len() >= 8 {
        let t = f.take(8);
        assert forall|j: int| 0 <= j < t.len() implies is_digit(#[trigger] t[j]) by {
            assert(t[j] == f[j]);
        }
        lemma_digits_below_pow10(t);
    } else {
        lemma_digits_below_pow10(f);
        lemma_pow10_bound(f.len(), (8 - f.len()) as nat);
        assert(f.len() + (8 - f.len()) as nat == 8);
        assert(digits_value(f) * pow10((8 - f.len()) as nat) < pow10(f.len()) * pow10((8 - f.len()) as nat)) by (nonlinear_arith)
            requires digits_value(f) < pow10(f.len()), pow10((8 - f.len()) as nat) > 0;
    }
}

} // verus!
