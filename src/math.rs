use vstd::prelude::*;
use crate::error::ErrorCode;

verus! {

/// Ten to the power `e`.
pub open spec fn pow10(e: nat) -> nat
    decreases e,
{
    if e == 0 {
        1
    } else {
        10 * pow10((e - 1) as nat)
    }
}

/// `a / b` rounded up.
pub open spec fn ceil_div(a: int, b: int) -> int {
    (a + b - 1) / b
}

proof fn lemma_pow10_positive(e: nat)
    ensures
        pow10(e) >= 1,
    decreases e,
{
    if e > 0 {
        lemma_pow10_positive((e - 1) as nat);
    }
}

/// `a / b` rounded up; zero stays zero.
pub fn ceil_div_u64(a: u64, b: u64) -> (r: u64)
    requires
        b > 0,
    ensures
        r == ceil_div(a as int, b as int),
{
    if a == 0 {
        assert((b - 1) / (b as int) == 0) by (nonlinear_arith)
            requires
                b >= 1,
        ;
        return 0;
    }
    let q: u128 = (a as u128 + b as u128 - 1) / b as u128;
    assert(q <= a) by (nonlinear_arith)
        requires
            q == (a + b - 1) / (b as int),
            a >= 1,
            b >= 1,
    ;
    q as u64
}

} // verus!

verus! {

proof fn lemma_pow10_monotone(a: nat, b: nat)
    requires
        a <= b,
    ensures
        pow10(a) <= pow10(b),
    decreases b - a,
{
    if a < b {
        lemma_pow10_monotone(a, (b - 1) as nat);
        lemma_pow10_positive((b - 1) as nat);
    }
}

proof fn lemma_pow10_bounds()
    ensures
        pow10(9) == 1_000_000_000,
        pow10(20) == 100_000_000_000_000_000_000,
        pow10(38) == 100_000_000_000_000_000_000_000_000_000_000_000_000,
{
    reveal_with_fuel(pow10, 39);
}

/// Ten to the power `p`, for every power that fits in 128 bits.
pub fn ten_pow_u128(p: u32) -> (r: u128)
    requires
        p <= 38,
    ensures
        r == pow10(p as nat),
{
    let mut r: u128 = 1;
    let mut i: u32 = 0;
    while i < p
        invariant
            i <= p <= 38,
            r == pow10(i as nat),
        decreases p - i,
    {
        proof {
            lemma_pow10_monotone(i as nat, 37);
            lemma_pow10_bounds();
            assert(pow10(37) * 10 == pow10(38));
        }
        r = r * 10;
        i = i + 1;
    }
    r
}

/// Narrows to 64 bits, failing where the value does not fit.
pub fn u128_to_u64(x: u128) -> (r: Result<u64, ErrorCode>)
    ensures
        x <= u64::MAX ==> r == Ok::<u64, ErrorCode>(x as u64),
        x > u64::MAX ==> r == Err::<u64, ErrorCode>(ErrorCode::MathOverflow),
{
    if x <= u64::MAX as u128 {
        Ok(x as u64)
    } else {
        Err(ErrorCode::MathOverflow)
    }
}

/// An amount of an asset with `decimals` fractional digits, brought to nine
/// fractional digits: scaled up, or divided down and rounded toward zero.
pub open spec fn normalized(amount: u64, decimals: u8) -> int {
    if decimals <= 9 {
        amount * pow10((9 - decimals) as nat)
    } else {
        amount as int / pow10((decimals - 9) as nat) as int
    }
}

/// Brings `amount`, given with `decimals` fractional digits, to nine.
pub fn normalize_amount(amount: u64, decimals: u8) -> (r: u128)
    ensures
        r == normalized(amount, decimals),
{
    proof {
        lemma_pow10_bounds();
    }
    if decimals <= 9 {
        let f = ten_pow_u128((9 - decimals) as u32);
        proof {
            lemma_pow10_monotone((9 - decimals) as nat, 9);
            assert(amount * f <= u64::MAX * 1_000_000_000) by (nonlinear_arith)
                requires
                    f <= 1_000_000_000,
            ;
        }
        amount as u128 * f
    } else if decimals - 9 <= 38 {
        let f = ten_pow_u128((decimals - 9) as u32);
        proof {
            lemma_pow10_positive((decimals - 9) as nat);
        }
        amount as u128 / f
    } else {
        proof {
            let f = pow10((decimals - 9) as nat);
            lemma_pow10_monotone(20, (decimals - 9) as nat);
            assert(amount as int / f as int == 0) by (nonlinear_arith)
                requires
                    0 <= amount < f,
            ;
        }
        0
    }
}

} // verus!
