use vstd::prelude::*;

verus! {

/// A decimal reading, `(-1)^negative * mantissa * 10^exponent`.
///
/// Readings made by `read_decimal` carry no trailing zero in the mantissa,
/// and zero is written `(false, 0, 0)`, so equal values are equal readings.
#[derive(Clone, Copy, Debug, PartialEq, Eq, Structural)]
pub struct Decimal {
    pub negative: bool,
    pub mantissa: u128,
    pub exponent: i64,
}

/// The largest exponent, and the largest count of fraction digits, that a
/// reading's text may have.
pub const EXPONENT_LIMIT: u64 = 1_000_000_000;

pub open spec fn is_digit(c: char) -> bool {
    '0' <= c && c <= '9'
}

pub open spec fn digit_value(c: char) -> int {
    c as int - '0' as int
}

/// The digits of `s`, in order, written after those of the number `acc`.
pub open spec fn digits_onto(acc: int, s: Seq<char>) -> int
    decreases s.len(),
{
    if s.len() == 0 {
        acc
    } else {
        digits_onto(acc, s.drop_last()) * 10 + digit_value(s.last())
    }
}

/// How many digits stand in `s` from position `i` on, before another character.
pub open spec fn digit_run(s: Seq<char>, i: int) -> int
    decreases s.len() - i,
{
    if 0 <= i < s.len() && is_digit(s[i]) {
        1 + digit_run(s, i + 1)
    } else {
        0
    }
}

/// `m * 10^e` with the trailing zeros of `m` moved into the exponent.
pub open spec fn strip_zeros(m: nat, e: int) -> (nat, int)
    decreases m,
{
    if m > 0 && m % 10 == 0 {
        strip_zeros(m / 10, e + 1)
    } else {
        (m, e)
    }
}

/// The reading written in `s`: an optional sign, digits with at most one
/// decimal point and at least one digit, then optionally `e` or `E`, an
/// optional sign and at least one digit. `None` where `s` is written
/// otherwise, where its digits make a mantissa beyond `u128`, or where its
/// exponent or its count of fraction digits exceeds `EXPONENT_LIMIT`.
pub open spec fn decimal_of(s: Seq<char>) -> Option<Decimal> {
    let signed = s.len() > 0 && (s[0] == '+' || s[0] == '-');
    let i0: int = if signed { 1 } else { 0 };
    let i1 = i0 + digit_run(s, i0);
    let dot = i1 < s.len() && s[i1] == '.';
    let i2 = if dot { i1 + 1 } else { i1 };
    let i3 = i2 + digit_run(s, i2);
    let frac = i3 - i2;
    let mantissa = digits_onto(digits_onto(0, s.subrange(i0, i1)), s.subrange(i2, i3));
    let has_exp = i3 < s.len() && (s[i3] == 'e' || s[i3] == 'E');
    let i4 = i3 + 1;
    let exp_signed = has_exp && i4 < s.len() && (s[i4] == '+' || s[i4] == '-');
    let i5 = if exp_signed { i4 + 1 } else { i4 };
    let i6 = i5 + digit_run(s, i5);
    let exp_abs = digits_onto(0, s.subrange(i5, i6));
    let exp = if !has_exp { 0 } else if exp_signed && s[i4] == '-' { -exp_abs } else { exp_abs };
    let well_formed = (i1 - i0) + frac > 0 && if has_exp {
        i6 > i5 && i6 == s.len()
    } else {
        i3 == s.len()
    };
    if !well_formed || mantissa > u128::MAX || frac > EXPONENT_LIMIT || (has_exp
        && exp_abs > EXPONENT_LIMIT) {
        None
    } else if mantissa == 0 {
        Some(Decimal { negative: false, mantissa: 0, exponent: 0 })
    } else {
        let (m, e) = strip_zeros(mantissa as nat, exp - frac);
        Some(Decimal { negative: signed && s[0] == '-', mantissa: m as u128, exponent: e as i64 })
    }
}

/// A run of digits stays inside `s` and holds digits alone.
proof fn lemma_run_digits(s: Seq<char>, i: int)
    requires
        0 <= i <= s.len(),
    ensures
        0 <= digit_run(s, i),
        i + digit_run(s, i) <= s.len(),
        forall|k: int| i <= k < i + digit_run(s, i) ==> is_digit(#[trigger] s[k]),
    decreases s.len() - i,
{
    if i < s.len() && is_digit(s[i]) {
        lemma_run_digits(s, i + 1);
    }
}

/// Writing more digits after a number never makes it smaller.
pub proof fn lemma_onto_grows(acc: int, s: Seq<char>, k: int)
    requires
        acc >= 0,
        0 <= k <= s.len(),
        forall|j: int| 0 <= j < s.len() ==> is_digit(#[trigger] s[j]),
    ensures
        acc <= digits_onto(acc, s.subrange(0, k)) <= digits_onto(acc, s),
    decreases s.len(),
{
    if s.len() == 0 {
        assert(s.subrange(0, k) =~= s);
    } else {
        let t = s.drop_last();
        if k == s.len() {
            assert(s.subrange(0, k) =~= s);
            lemma_onto_grows(acc, t, t.len() as int);
            assert(t.subrange(0, t.len() as int) =~= t);
        } else {
            lemma_onto_grows(acc, t, k);
            assert(t.subrange(0, k) =~= s.subrange(0, k));
            lemma_onto_grows(acc, t, t.len() as int);
            assert(t.subrange(0, t.len() as int) =~= t);
        }
    }
}

/// The length of the run of digits that starts at `i`.
fn digits_from(s: &str, n: usize, i: usize) -> (r: usize)
    requires
        n == s@.len(),
        i <= n,
    ensures
        r == digit_run(s@, i as int),
        i + r <= n,
{
    let mut j: usize = i;
    while j < n && is_digit_char(s.get_char(j))
        invariant
            n == s@.len(),
            i <= j <= n,
            digit_run(s@, i as int) == (j - i) + digit_run(s@, j as int),
        decreases n - j,
    {
        j = j + 1;
    }
    j - i
}

fn is_digit_char(c: char) -> (r: bool)
    ensures
        r == is_digit(c),
{
    '0' <= c && c <= '9'
}

/// The digits of `s` from `lo` to `hi` written after those of `acc`, or
/// `None` where the number passes `u128`.
fn accumulate(s: &str, lo: usize, hi: usize, acc: u128) -> (r: Option<u128>)
    requires
        lo <= hi <= s@.len(),
        forall|k: int| lo <= k < hi ==> is_digit(#[trigger] s@[k]),
    ensures
        r is Some ==> r->0 == digits_onto(acc as int, s@.subrange(lo as int, hi as int)),
        r is None ==> digits_onto(acc as int, s@.subrange(lo as int, hi as int)) > u128::MAX,
{
    let ghost whole = s@.subrange(lo as int, hi as int);
    let mut m: u128 = acc;
    let mut j: usize = lo;
    assert(s@.subrange(lo as int, lo as int) =~= Seq::<char>::empty());
    while j < hi
        invariant
            lo <= j <= hi <= s@.len(),
            whole == s@.subrange(lo as int, hi as int),
            forall|k: int| lo <= k < hi ==> is_digit(#[trigger] s@[k]),
            m == digits_onto(acc as int, s@.subrange(lo as int, j as int)),
        decreases hi - j,
    {
        let c = s.get_char(j);
        let d = (c as u32 - '0' as u32) as u128;
        let ghost next = s@.subrange(lo as int, j + 1);
        assert(next.drop_last() =~= s@.subrange(lo as int, j as int));
        assert(next.last() == c);
        let grown = match m.checked_mul(10) {
            Some(t) => t.checked_add(d),
            None => None,
        };
        if grown.is_none() {
            proof {
                assert forall|k: int| 0 <= k < whole.len() implies is_digit(#[trigger] whole[k]) by {
                    assert(whole[k] == s@[lo + k]);
                }
                lemma_onto_grows(acc as int, whole, j + 1 - lo);
                assert(whole.subrange(0, j + 1 - lo) =~= next);
            }
            return None;
        }
        m = grown.unwrap();
        j = j + 1;
    }
    Some(m)
}

/// Reads the decimal written in `s` (see `decimal_of`).
#[verifier::rlimit(60)]
pub fn read_decimal(s: &str) -> (r: Option<Decimal>)
    ensures
        r == decimal_of(s@),
{
    let n = s.unicode_len();
    let signed = n > 0 && (s.get_char(0) == '+' || s.get_char(0) == '-');
    let negative = signed && s.get_char(0) == '-';
    let i0: usize = if signed { 1 } else { 0 };
    let i1 = i0 + digits_from(s, n, i0);
    let dot = i1 < n && s.get_char(i1) == '.';
    let i2 = if dot { i1 + 1 } else { i1 };
    let i3 = i2 + digits_from(s, n, i2);
    let frac = i3 - i2;
    proof {
        lemma_run_digits(s@, i0 as int);
        lemma_run_digits(s@, i2 as int);
    }
    if i1 - i0 + frac == 0 {
        return None;
    }
    let has_exp = i3 < n && (s.get_char(i3) == 'e' || s.get_char(i3) == 'E');
    let mut exp_abs: u64 = 0;
    let mut exp_negative = false;
    if has_exp {
        let i4 = i3 + 1;
        let exp_signed = i4 < n && (s.get_char(i4) == '+' || s.get_char(i4) == '-');
        exp_negative = exp_signed && s.get_char(i4) == '-';
        let i5 = if exp_signed { i4 + 1 } else { i4 };
        let run = digits_from(s, n, i5);
        if run == 0 || i5 + run != n {
            return None;
        }
        proof {
            lemma_run_digits(s@, i5 as int);
        }
        match accumulate(s, i5, n, 0) {
            Some(x) => {
                if x > EXPONENT_LIMIT as u128 {
                    return None;
                }
                exp_abs = x as u64;
            },
            None => {
                return None;
            },
        }
    } else if i3 != n {
        return None;
    }
    if frac as u64 > EXPONENT_LIMIT {
        return None;
    }
    let m = match accumulate(s, i0, i1, 0) {
        Some(m1) => accumulate(s, i2, i3, m1),
        None => {
            proof {
                let whole = s@.subrange(i2 as int, i3 as int);
                let first = digits_onto(0, s@.subrange(i0 as int, i1 as int));
                assert forall|k: int| 0 <= k < whole.len() implies is_digit(#[trigger] whole[k]) by {
                    assert(whole[k] == s@[i2 + k]);
                }
                lemma_onto_grows(first, whole, 0);
            }
            None
        },
    };
    let m = match m {
        Some(m) => m,
        None => {
            return None;
        },
    };
    if m == 0 {
        return Some(Decimal { negative: false, mantissa: 0, exponent: 0 });
    }
    let e0: i64 = if exp_negative {
        -(exp_abs as i64)
    } else {
        exp_abs as i64
    } - frac as i64;
    let (mm, e) = strip_trailing_zeros(m, e0);
    Some(Decimal { negative, mantissa: mm, exponent: e })
}

/// `10^k`.
pub open spec fn pow10(k: nat) -> int
    decreases k,
{
    if k == 0 {
        1
    } else {
        10 * pow10((k - 1) as nat)
    }
}

proof fn lemma_pow10_grows(a: nat, b: nat)
    requires
        a <= b,
    ensures
        1 <= pow10(a) <= pow10(b),
    decreases b,
{
    if b > a {
        lemma_pow10_grows(a, (b - 1) as nat);
    } else if a > 0 {
        lemma_pow10_grows((a - 1) as nat, (a - 1) as nat);
    }
}

fn strip_trailing_zeros(m: u128, e0: i64) -> (r: (u128, i64))
    requires
        m > 0,
        -2_000_000_000 <= e0 <= 1_000_000_000,
    ensures
        strip_zeros(m as nat, e0 as int) == (r.0 as nat, r.1 as int),
{
    let mut mm: u128 = m;
    let mut e: i64 = e0;
    let ghost mut k: nat = 0;
    proof {
        reveal_with_fuel(pow10, 40);
        assert(pow10(39) > u128::MAX);
    }
    while mm % 10 == 0
        invariant
            mm > 0,
            -2_000_000_000 <= e0 <= 1_000_000_000,
            e == e0 + k,
            k <= 38,
            mm * pow10(k) == m,
            pow10(39) > u128::MAX,
            strip_zeros(mm as nat, e as int) == strip_zeros(m as nat, e0 as int),
        decreases mm,
    {
        proof {
            let p = pow10(k);
            let q = mm / 10;
            lemma_pow10_grows(k, k);
            assert(q * 10 == mm);
            assert(pow10(k + 1) == 10 * p);
            assert(q * (10 * p) == (q * 10) * p) by (nonlinear_arith);
            assert(q >= 1);
            assert(10 * p <= q * (10 * p)) by (nonlinear_arith)
                requires
                    q >= 1,
                    p >= 1,
            ;
            if k + 1 > 38 {
                lemma_pow10_grows(39, k + 1);
            }
        }
        mm = mm / 10;
        e = e + 1;
        proof {
            k = k + 1;
        }
    }
    (mm, e)
}

} // verus!
