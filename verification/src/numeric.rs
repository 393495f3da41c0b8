//! Decimal text and fixed-point arithmetic primitives.
//!
//! Quantities are carried as integers in micro units (one millionth).  This
//! module renders and parses decimal numerals, parses fixed-point decimals
//! into micro units, and provides the integer square root and the truncating
//! signed division that the slippage sentinel's statistics are defined with.

use vstd::prelude::*;
use vstd::arithmetic::div_mod::lemma_fundamental_div_mod;

verus! {

/// One micro unit per whole unit: the fixed scaling factor of the library.
pub const MICRO: u64 = 1_000_000;

/// ASCII decimal digit.
pub open spec fn spec_is_digit(b: u8) -> bool {
    48 <= b <= 57
}

/// The decimal numeral of `n`, most significant digit first.
pub open spec fn spec_dec_digits(n: nat) -> Seq<u8>
    decreases n,
{
    if n < 10 {
        seq![(48 + n) as u8]
    } else {
        spec_dec_digits(n / 10).push((48 + n % 10) as u8)
    }
}

/// Decimal numerals are never empty.
pub proof fn lemma_dec_digits_nonempty(n: nat)
    ensures
        spec_dec_digits(n).len() >= 1,
    decreases n,
{
    if n >= 10 {
        lemma_dec_digits_nonempty(n / 10);
    }
}

/// Decimal numerals hold digits only.
pub proof fn lemma_dec_digits_all_digits(n: nat)
    ensures
        forall|i: int| 0 <= i < spec_dec_digits(n).len() ==> spec_is_digit(
            #[trigger] spec_dec_digits(n)[i],
        ),
    decreases n,
{
    if n < 10 {
        assert(spec_dec_digits(n)[0] == (48 + n) as u8);
    } else {
        lemma_dec_digits_all_digits(n / 10);
        let s0 = spec_dec_digits(n / 10);
        assert forall|i: int| 0 <= i < spec_dec_digits(n).len() implies spec_is_digit(
            #[trigger] spec_dec_digits(n)[i],
        ) by {
            if i < s0.len() {
                assert(spec_dec_digits(n)[i] == s0[i]);
            } else {
                assert(spec_dec_digits(n)[i] == (48 + n % 10) as u8);
            }
        }
    }
}

/// Renders `n` as its decimal numeral.
pub fn u64_to_dec(n: u64) -> (r: Vec<u8>)
    ensures
        r@ == spec_dec_digits(n as nat),
    decreases n,
{
    if n < 10 {
        let mut out: Vec<u8> = Vec::new();
        out.push(48 + (n as u8));
        proof {
            assert(out@ =~= spec_dec_digits(n as nat));
        }
        out
    } else {
        let mut out = u64_to_dec(n / 10);
        out.push(48 + ((n % 10) as u8));
        out
    }
}

/// The decimal numeral of a signed value: a minus sign before the magnitude.
pub open spec fn spec_i64_dec(v: i64) -> Seq<u8> {
    if v >= 0 {
        spec_dec_digits(v as nat)
    } else {
        seq![45u8] + spec_dec_digits((-v) as nat)
    }
}

/// Renders a signed value as its decimal numeral.
pub fn i64_to_dec(v: i64) -> (r: Vec<u8>)
    ensures
        r@ == spec_i64_dec(v),
{
    if v >= 0 {
        u64_to_dec(v as u64)
    } else {
        let m: u64 = (-(v as i128)) as u64;
        let mut out: Vec<u8> = Vec::new();
        out.push(45);
        let mut digits = u64_to_dec(m);
        out.append(&mut digits);
        proof {
            assert(out@ =~= spec_i64_dec(v));
        }
        out
    }
}

/// One step of decimal accumulation: `None` once the text stopped being a
/// numeral or the value left `u64`.
pub open spec fn spec_parse_step(a: Option<u64>, b: u8) -> Option<u64> {
    match a {
        Some(x) => if spec_is_digit(b) && x * 10 + (b - 48) <= u64::MAX {
            Some((x * 10 + (b - 48)) as u64)
        } else {
            None
        },
        None => None,
    }
}

/// Decimal accumulation over a byte string, starting from `a`.
pub open spec fn spec_parse_loop(s: Seq<u8>, a: Option<u64>) -> Option<u64>
    decreases s.len(),
{
    if s.len() == 0 {
        a
    } else {
        spec_parse_loop(s.drop_first(), spec_parse_step(a, s.first()))
    }
}

/// The value of a decimal numeral: `None` on an empty string, a non-digit, or
/// overflow of `u64`.
pub open spec fn spec_parse_u64(s: Seq<u8>) -> Option<u64> {
    if s.len() == 0 {
        None
    } else {
        spec_parse_loop(s, Some(0))
    }
}

/// A failed accumulation stays failed.
pub proof fn lemma_parse_loop_none(s: Seq<u8>)
    ensures
        spec_parse_loop(s, None) is None,
    decreases s.len(),
{
    if s.len() > 0 {
        lemma_parse_loop_none(s.drop_first());
    }
}

/// Accumulating over `s.push(b)` is accumulating over `s`, then one step on
/// `b`.
pub proof fn lemma_parse_loop_push(s: Seq<u8>, a: Option<u64>, b: u8)
    ensures
        spec_parse_loop(s.push(b), a) == spec_parse_step(spec_parse_loop(s, a), b),
    decreases s.len(),
{
    if s.len() == 0 {
        assert(s.push(b).drop_first() =~= Seq::<u8>::empty());
        assert(s.push(b).first() == b);
        assert(spec_parse_loop(Seq::<u8>::empty(), spec_parse_step(a, b)) == spec_parse_step(
            a,
            b,
        ));
        assert(spec_parse_loop(s, a) == a);
    } else {
        assert(s.push(b).drop_first() =~= s.drop_first().push(b));
        assert(s.push(b).first() == s.first());
        lemma_parse_loop_push(s.drop_first(), spec_parse_step(a, s.first()), b);
        assert(spec_parse_loop(s.push(b), a) == spec_parse_loop(
            s.drop_first().push(b),
            spec_parse_step(a, s.first()),
        ));
        assert(spec_parse_loop(s, a) == spec_parse_loop(
            s.drop_first(),
            spec_parse_step(a, s.first()),
        ));
    }
}

/// Parsing the decimal numeral of `n` yields `n` back.
pub proof fn lemma_parse_dec_digits(n: u64)
    ensures
        spec_parse_u64(spec_dec_digits(n as nat)) == Some(n),
    decreases n,
{
    lemma_dec_digits_nonempty(n as nat);
    if n < 10 {
        let s = spec_dec_digits(n as nat);
        assert(s =~= seq![(48 + n) as u8]);
        assert(s.drop_first() =~= Seq::<u8>::empty());
        assert(s.first() == (48 + n) as u8);
        assert(spec_parse_loop(s, Some(0)) == spec_parse_loop(
            s.drop_first(),
            spec_parse_step(Some(0), s.first()),
        ));
        assert(spec_parse_step(Some(0), (48 + n) as u8) == Some(n));
    } else {
        let q = n / 10;
        let b = (48 + n % 10) as u8;
        let s0 = spec_dec_digits(q as nat);
        lemma_parse_dec_digits(q);
        lemma_parse_loop_push(s0, Some(0), b);
        lemma_fundamental_div_mod(n as int, 10);
        assert(spec_dec_digits(n as nat) == s0.push(b));
        assert(spec_parse_loop(s0, Some(0)) == Some(q));
        assert(spec_parse_step(Some(q), b) == Some(n));
    }
}

/// Parses a decimal numeral; `None` on an empty string, any non-digit byte, or
/// a value above `u64::MAX`.
pub fn parse_u64_dec(s: &[u8]) -> (r: Option<u64>)
    ensures
        r == spec_parse_u64(s@),
{
    if s.len() == 0 {
        return None;
    }
    let mut acc: u64 = 0;
    let mut i: usize = 0;
    proof {
        assert(s@.skip(0) =~= s@);
    }
    while i < s.len()
        invariant
            0 <= i <= s@.len(),
            spec_parse_loop(s@, Some(0)) == spec_parse_loop(s@.skip(i as int), Some(acc)),
        decreases s@.len() - i,
    {
        let b = s[i];
        proof {
            assert(s@.skip(i as int).first() == s@[i as int]);
            assert(s@.skip(i as int).drop_first() =~= s@.skip(i + 1));
        }
        if b < 48 || b > 57 {
            proof {
                lemma_parse_loop_none(s@.skip(i + 1));
            }
            return None;
        }
        let d = (b - 48) as u64;
        let wide: u128 = (acc as u128) * 10 + (d as u128);
        if wide > u64::MAX as u128 {
            proof {
                lemma_parse_loop_none(s@.skip(i + 1));
            }
            return None;
        }
        acc = wide as u64;
        i += 1;
    }
    proof {
        assert(s@.skip(s@.len() as int) =~= Seq::<u8>::empty());
    }
    Some(acc)
}

/// Ten to the `k`.
pub open spec fn spec_pow10(k: nat) -> nat
    decreases k,
{
    if k == 0 {
        1
    } else {
        10 * spec_pow10((k - 1) as nat)
    }
}

/// Ten to the `k`, for the six fractional places of a micro quantity.
pub fn pow10(k: usize) -> (r: u64)
    requires
        k <= 6,
    ensures
        r == spec_pow10(k as nat),
        r <= 1_000_000,
{
    proof {
        assert(spec_pow10(0) == 1);
        assert(spec_pow10(1) == 10);
        assert(spec_pow10(2) == 100);
        assert(spec_pow10(3) == 1000);
        assert(spec_pow10(4) == 10000);
        assert(spec_pow10(5) == 100000);
        assert(spec_pow10(6) == 1000000);
    }
    if k == 0 {
        1
    } else if k == 1 {
        10
    } else if k == 2 {
        100
    } else if k == 3 {
        1000
    } else if k == 4 {
        10000
    } else if k == 5 {
        100000
    } else {
        1000000
    }
}

/// The micro-unit value of a decimal with an optional fractional part of one
/// to six places: `None` when the text is not such a decimal or the value
/// does not fit.
pub open spec fn spec_parse_decimal_micro(s: Seq<u8>) -> Option<u64> {
    match crate::text::spec_find_byte_from(s, 0, 46) {
        None => match spec_parse_u64(s) {
            Some(v) => if v * MICRO <= u64::MAX {
                Some((v * MICRO) as u64)
            } else {
                None
            },
            None => None,
        },
        Some(k) => {
            let whole = s.take(k);
            let frac = s.skip(k + 1);
            if 1 <= frac.len() <= 6 {
                match (spec_parse_u64(whole), spec_parse_u64(frac)) {
                    (Some(w), Some(f)) => {
                        let v = w * MICRO + f * spec_pow10((6 - frac.len()) as nat);
                        if v <= u64::MAX {
                            Some(v as u64)
                        } else {
                            None
                        }
                    },
                    _ => None,
                }
            } else {
                None
            }
        },
    }
}

/// Parses a decimal such as `2`, `0.5` or `1.25` into micro units.
pub fn parse_decimal_micro(s: &[u8]) -> (r: Option<u64>)
    ensures
        r == spec_parse_decimal_micro(s@),
{
    proof {
        crate::text::lemma_find_byte_from_correct(s@, 0, 46);
    }
    assert(s@.len() == s.len());
    match crate::text::find_byte_from(s, 0, 46) {
        None => {
            match parse_u64_dec(s) {
                Some(v) => {
                    if v <= u64::MAX / MICRO {
                        Some(v * MICRO)
                    } else {
                        proof {
                            lemma_fundamental_div_mod(u64::MAX as int, MICRO as int);
                        }
                        None
                    }
                },
                None => None,
            }
        },
        Some(k) => {
            let whole = vstd::slice::slice_subrange(s, 0, k);
            let frac = vstd::slice::slice_subrange(s, k + 1, s.len());
            proof {
                assert(whole@ =~= s@.take(k as int));
                assert(frac@ =~= s@.skip(k + 1));
            }
            if frac.len() < 1 || frac.len() > 6 {
                return None;
            }
            match (parse_u64_dec(whole), parse_u64_dec(frac)) {
                (Some(w), Some(f)) => {
                    let scale = pow10(6 - frac.len());
                    proof {
                        assert((w as int) * (MICRO as int) + (f as int) * (scale as int)
                            <= u128::MAX) by (nonlinear_arith)
                            requires
                                w <= u64::MAX,
                                f <= u64::MAX,
                                scale <= 1_000_000,
                                MICRO == 1_000_000,
                        ;
                    }
                    let v: u128 = (w as u128) * (MICRO as u128) + (f as u128) * (scale as u128);
                    if v <= u64::MAX as u128 {
                        Some(v as u64)
                    } else {
                        None
                    }
                },
                _ => None,
            }
        },
    }
}

/// The integer square root: the largest `r` with `r * r <= n`.
pub fn isqrt_u128(n: u128) -> (r: u64)
    ensures
        (r as int) * (r as int) <= n as int,
        (n as int) < (r as int + 1) * (r as int + 1),
{
    let mut lo: u128 = 0;
    let mut hi: u128 = 0x1_0000_0000_0000_0000;
    proof {
        assert((hi as int) * (hi as int) > n as int) by (nonlinear_arith)
            requires
                hi == 0x1_0000_0000_0000_0000u128,
                n <= u128::MAX,
        ;
    }
    while lo + 1 < hi
        invariant
            0 <= lo < hi <= 0x1_0000_0000_0000_0000u128,
            (lo as int) * (lo as int) <= n as int,
            (n as int) < (hi as int) * (hi as int),
        decreases hi - lo,
    {
        let mid = lo + (hi - lo) / 2;
        assert(lo < mid < hi);
        proof {
            assert((mid as int) * (mid as int) <= u128::MAX) by (nonlinear_arith)
                requires
                    0 <= mid < 0x1_0000_0000_0000_0000u128,
            ;
        }
        if mid * mid <= n {
            lo = mid;
        } else {
            hi = mid;
        }
    }
    lo as u64
}

/// The integer square root as a mathematical function.
pub open spec fn spec_isqrt(n: nat) -> nat
    decreases n,
{
    if n == 0 {
        0
    } else {
        let r = spec_isqrt((n - 1) as nat);
        if (r + 1) * (r + 1) <= n {
            r + 1
        } else {
            r
        }
    }
}

/// `spec_isqrt(n)` is the largest root not exceeding `n`.
pub proof fn lemma_isqrt_bounds(n: nat)
    ensures
        spec_isqrt(n) * spec_isqrt(n) <= n,
        n < (spec_isqrt(n) + 1) * (spec_isqrt(n) + 1),
    decreases n,
{
    if n == 0 {
        let r0 = spec_isqrt(n);
        assert(r0 == 0);
        assert(r0 * r0 <= n) by (nonlinear_arith)
            requires
                r0 == 0,
                n == 0,
        ;
        assert(n < (r0 + 1) * (r0 + 1)) by (nonlinear_arith)
            requires
                r0 == 0,
                n == 0,
        ;
    } else {
        lemma_isqrt_bounds((n - 1) as nat);
        let r = spec_isqrt((n - 1) as nat);
        if (r + 1) * (r + 1) <= n {
            assert(spec_isqrt(n) == r + 1);
            assert(n < (r + 2) * (r + 2)) by (nonlinear_arith)
                requires
                    n <= (r + 1) * (r + 1),
                    r >= 0,
            ;
            assert(spec_isqrt(n) * spec_isqrt(n) <= n);
            assert(n < (spec_isqrt(n) + 1) * (spec_isqrt(n) + 1));
        } else {
            assert(spec_isqrt(n) == r);
            assert(r * r <= (n - 1) as nat);
            assert(spec_isqrt(n) * spec_isqrt(n) <= n);
            assert(n < (spec_isqrt(n) + 1) * (spec_isqrt(n) + 1));
        }
    }
}

/// Two integers that both bracket `n` as a square root are equal.
pub proof fn lemma_isqrt_unique(n: int, a: int, b: int)
    requires
        a >= 0,
        b >= 0,
        a * a <= n < (a + 1) * (a + 1),
        b * b <= n < (b + 1) * (b + 1),
    ensures
        a == b,
{
    if a < b {
        assert((a + 1) * (a + 1) <= b * b) by (nonlinear_arith)
            requires
                0 <= a + 1 <= b,
        ;
    }
    if b < a {
        assert((b + 1) * (b + 1) <= a * a) by (nonlinear_arith)
            requires
                0 <= b + 1 <= a,
        ;
    }
}

/// A truncating quotient is bounded whenever the dividend is bounded by the
/// corresponding multiple of the divisor.
pub proof fn lemma_div_trunc_bound(x: int, d: int, b: int)
    requires
        d >= 1,
        b >= 0,
        -(d * b) <= x <= d * b,
    ensures
        -b <= spec_div_trunc(x, d) <= b,
{
    if x >= 0 {
        vstd::arithmetic::div_mod::lemma_div_is_ordered(x, d * b, d);
        vstd::arithmetic::div_mod::lemma_div_multiples_vanish(b, d);
        vstd::arithmetic::div_mod::lemma_div_is_ordered(0, x, d);
        assert((d * b) / d == b);
        assert(0int / d == 0) by (nonlinear_arith)
            requires
                d >= 1,
        ;
    } else {
        let m = -x;
        vstd::arithmetic::div_mod::lemma_div_is_ordered(m, d * b, d);
        vstd::arithmetic::div_mod::lemma_div_multiples_vanish(b, d);
        vstd::arithmetic::div_mod::lemma_div_is_ordered(0, m, d);
        assert((d * b) / d == b);
        assert(0int / d == 0) by (nonlinear_arith)
            requires
                d >= 1,
        ;
    }
}

/// Division truncating toward zero, as the sentinel's update rule is defined
/// with.
pub open spec fn spec_div_trunc(x: int, d: int) -> int {
    if x >= 0 {
        x / d
    } else {
        -((-x) / d)
    }
}

/// Quotient of `x` and `d`, truncated toward zero.
pub fn div_trunc(x: i64, d: u64) -> (r: i64)
    requires
        d > 0,
        x > i64::MIN,
    ensures
        r == spec_div_trunc(x as int, d as int),
{
    if x >= 0 {
        let q = (x as u64) / d;
        proof {
            assert((x as u64) as int == x as int);
            assert(q == (x as int) / (d as int));
            lemma_fundamental_div_mod(x as int, d as int);
            vstd::arithmetic::div_mod::lemma_mod_bound(x as int, d as int);
            assert((d as int) * ((x as int) / (d as int)) <= x as int);
            assert(q * (d as int) <= x as int);
            assert(q <= q * (d as int)) by (nonlinear_arith)
                requires
                    q >= 0,
                    d >= 1,
            ;
        }
        q as i64
    } else {
        let m = (-x) as u64;
        let q = m / d;
        proof {
            assert(q == (m as int) / (d as int));
            lemma_fundamental_div_mod(m as int, d as int);
            vstd::arithmetic::div_mod::lemma_mod_bound(m as int, d as int);
            assert((d as int) * ((m as int) / (d as int)) <= m as int);
            assert(q * (d as int) <= m as int);
            assert(q <= q * (d as int)) by (nonlinear_arith)
                requires
                    q >= 0,
                    d >= 1,
            ;
        }
        -(q as i64)
    }
}

} // verus!
