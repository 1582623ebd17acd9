//! The spot price of the base token in the quote token, in fixed point with
//! six decimal places.

use vstd::prelude::*;
use vstd::arithmetic::div_mod::lemma_div_multiples_vanish_quotient;
use crate::error::ErrorCode;

verus! {

/// Decimal places of a normalized price.
pub const PRICE_DECIMALS: u8 = 6;

/// Ten to the power `e`.
pub open spec fn pow10(e: nat) -> nat
    decreases e,
{
    if e == 0 {
        1
    } else {
        10 * pow10((e - 1) as nat)
    }
}

/// The power of ten by which the ratio of the raw reserves is scaled: the
/// six places of the result, plus the places of the base token, minus those
/// of the quote token. It is negative where the quote token has over six
/// places more than the base token.
pub open spec fn scale_exponent(base_decimals: u8, quote_decimals: u8) -> int {
    PRICE_DECIMALS as int + base_decimals as int - quote_decimals as int
}

/// The normalized price as a mathematical integer, whatever its size.
///
/// With no base reserve there is no price, and the result is zero. Otherwise
/// it is the quote reserve times ten to the scale exponent, divided by the
/// base reserve and rounded down. A negative exponent divides instead of
/// multiplying.
pub open spec fn normalized_price(
    reserve_base: u64,
    reserve_quote: u64,
    base_decimals: u8,
    quote_decimals: u8,
) -> int {
    let e = scale_exponent(base_decimals, quote_decimals);
    if reserve_base == 0 {
        0
    } else if e >= 0 {
        (reserve_quote as int * pow10(e as nat) as int) / (reserve_base as int)
    } else {
        (reserve_quote as int) / (reserve_base as int * pow10((-e) as nat) as int)
    }
}

/// Powers of ten are positive and grow with the exponent.
proof fn lemma_pow10_monotonic(a: nat, b: nat)
    requires
        a <= b,
    ensures
        1 <= pow10(a) <= pow10(b),
    decreases b,
{
    if b == 0 {
    } else if a == b {
        lemma_pow10_monotonic((a - 1) as nat, (b - 1) as nat);
    } else {
        lemma_pow10_monotonic(a, (b - 1) as nat);
    }
}

/// The powers of ten next to the limits of 64 and of 128 bits.
proof fn lemma_pow10_values()
    ensures
        pow10(19) == 10_000_000_000_000_000_000,
        pow10(20) == 100_000_000_000_000_000_000,
        pow10(38) == 100_000_000_000_000_000_000_000_000_000_000_000_000,
        pow10(39) == 1_000_000_000_000_000_000_000_000_000_000_000_000_000,
{
    reveal_with_fuel(pow10, 40);
}

/// Exponents add where powers multiply.
proof fn lemma_pow10_adds(a: nat, b: nat)
    ensures
        pow10(a + b) == pow10(a) * pow10(b),
    decreases b,
{
    if b == 0 {
        assert(pow10(a) * pow10(0) == pow10(a)) by (nonlinear_arith)
            requires
                pow10(0) == 1,
        ;
    } else {
        lemma_pow10_adds(a, (b - 1) as nat);
        assert(pow10(a + b) == 10 * pow10((a + b - 1) as nat));
        assert(10 * (pow10(a) * pow10((b - 1) as nat)) == pow10(a) * (10 * pow10((b - 1) as nat)))
            by (nonlinear_arith);
    }
}

/// The price is one ratio, whatever the sign of the scale exponent: the
/// quote reserve scaled by six places and the places of the base token, over
/// the base reserve scaled by the places of the quote token, rounded down.
pub proof fn lemma_price_is_scaled_ratio(
    reserve_base: u64,
    reserve_quote: u64,
    base_decimals: u8,
    quote_decimals: u8,
)
    requires
        reserve_base > 0,
    ensures
        normalized_price(reserve_base, reserve_quote, base_decimals, quote_decimals)
            == (reserve_quote * pow10((PRICE_DECIMALS + base_decimals) as nat))
            / (reserve_base * pow10(quote_decimals as nat)),
{
    let rb = reserve_base as int;
    let rq = reserve_quote as int;
    let up = (PRICE_DECIMALS + base_decimals) as nat;
    let down = quote_decimals as nat;
    let e = scale_exponent(base_decimals, quote_decimals);
    lemma_pow10_monotonic(0, up);
    lemma_pow10_monotonic(0, down);
    let scale_up = pow10(up) as int;
    let scale_down = pow10(down) as int;
    if e >= 0 {
        let scale = pow10(e as nat) as int;
        lemma_pow10_adds(e as nat, down);
        lemma_pow10_monotonic(0, e as nat);
        assert(rq * scale >= 0) by (nonlinear_arith)
            requires
                rq >= 0,
                scale >= 0,
        ;
        lemma_div_multiples_vanish_quotient(scale_down, rq * scale, rb);
        assert(scale_down * (rq * scale) == rq * scale_up) by (nonlinear_arith)
            requires
                scale_up == scale * scale_down,
        ;
        assert(scale_down * rb == rb * scale_down) by (nonlinear_arith);
    } else {
        let scale = pow10((-e) as nat) as int;
        lemma_pow10_adds(up, (-e) as nat);
        lemma_pow10_monotonic(0, (-e) as nat);
        assert(rb * scale > 0) by (nonlinear_arith)
            requires
                rb > 0,
                scale > 0,
        ;
        lemma_div_multiples_vanish_quotient(scale_up, rq, rb * scale);
        assert(scale_up * rq == rq * scale_up) by (nonlinear_arith);
        assert(scale_up * (rb * scale) == rb * scale_down) by (nonlinear_arith)
            requires
                scale_down == scale_up * scale,
        ;
    }
}

/// Ten to the power `e`, for an `e` whose power fits in 128 bits.
fn pow10_u128(e: u16) -> (r: u128)
    requires
        e <= 38,
    ensures
        r == pow10(e as nat),
{
    let mut r: u128 = 1;
    let mut i: u16 = 0;
    while i < e
        invariant
            i <= e <= 38,
            r == pow10(i as nat),
        decreases e - i,
    {
        proof {
            lemma_pow10_monotonic((i + 1) as nat, 38);
            lemma_pow10_values();
        }
        r = r * 10;
        i = i + 1;
    }
    r
}

/// The normalized price of the base token.
///
/// Returns the price where it fits in 64 bits, and
/// [`ErrorCode::ArithmeticFault`] where it does not; nothing else fails.
/// With no base reserve the price is zero, whatever the other arguments.
pub fn compute_normalized_price(
    reserve_base: u64,
    reserve_quote: u64,
    base_decimals: u8,
    quote_decimals: u8,
) -> (r: Result<u64, ErrorCode>)
    ensures
        match r {
            Ok(price) => price == normalized_price(
                reserve_base,
                reserve_quote,
                base_decimals,
                quote_decimals,
            ),
            Err(e) => e == ErrorCode::ArithmeticFault && normalized_price(
                reserve_base,
                reserve_quote,
                base_decimals,
                quote_decimals,
            ) > u64::MAX,
        },
        reserve_base == 0 ==> r == Ok::<u64, ErrorCode>(0),
{
    if reserve_base == 0 {
        return Ok(0);
    }
    let up: u16 = PRICE_DECIMALS as u16 + base_decimals as u16;
    let down: u16 = quote_decimals as u16;
    let ghost rb = reserve_base as int;
    let ghost rq = reserve_quote as int;
    if up >= down {
        let e: u16 = up - down;
        let ghost scale = pow10(e as nat) as int;
        if reserve_quote == 0 {
            assert((0 * scale) / rb == 0) by (nonlinear_arith)
                requires
                    rb > 0,
            ;
            return Ok(0);
        }
        if e > 38 {
            proof {
                lemma_pow10_monotonic(39, e as nat);
                lemma_pow10_values();
                assert((rq * scale) / rb > u64::MAX) by (nonlinear_arith)
                    requires
                        1 <= rq,
                        0 < rb <= u64::MAX,
                        scale >= 1_000_000_000_000_000_000_000_000_000_000_000_000_000,
                ;
            }
            return Err(ErrorCode::ArithmeticFault);
        }
        let factor: u128 = pow10_u128(e);
        match (reserve_quote as u128).checked_mul(factor) {
            None => {
                proof {
                    assert((rq * scale) / rb > u64::MAX) by (nonlinear_arith)
                        requires
                            0 < rb <= u64::MAX,
                            rq * scale > u128::MAX,
                    ;
                }
                Err(ErrorCode::ArithmeticFault)
            },
            Some(product) => {
                let quotient: u128 = product / (reserve_base as u128);
                if quotient > u64::MAX as u128 {
                    Err(ErrorCode::ArithmeticFault)
                } else {
                    Ok(quotient as u64)
                }
            },
        }
    } else {
        let k: u16 = down - up;
        let ghost scale = pow10(k as nat) as int;
        if k > 19 {
            proof {
                lemma_pow10_monotonic(20, k as nat);
                lemma_pow10_values();
                assert(rq / (rb * scale) == 0) by (nonlinear_arith)
                    requires
                        0 <= rq <= u64::MAX,
                        1 <= rb,
                        scale >= 100_000_000_000_000_000_000,
                ;
            }
            return Ok(0);
        }
        let factor: u128 = pow10_u128(k);
        proof {
            lemma_pow10_monotonic(k as nat, 19);
            lemma_pow10_values();
            assert(1 <= rb * scale <= u128::MAX) by (nonlinear_arith)
                requires
                    1 <= rb <= u64::MAX,
                    1 <= scale <= 10_000_000_000_000_000_000,
            ;
        }
        let divisor: u128 = reserve_base as u128 * factor;
        let quotient: u128 = reserve_quote as u128 / divisor;
        proof {
            assert(rq / (rb * scale) <= rq) by (nonlinear_arith)
                requires
                    0 <= rq,
                    1 <= rb * scale,
            ;
        }
        Ok(quotient as u64)
    }
}

} // verus!
