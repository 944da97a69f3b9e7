//! Rounded products of amounts with prices and ratios.
//!
//! The products themselves are computed by `sp_arithmetic`; this module
//! states what they are and holds the arithmetic facts the engine rests on.

use crate::primitives::{Price, Ratio, PRICE_SCALE, RATIO_SCALE};
use sp_arithmetic::{FixedPointNumber, FixedU128, PerThing, Permill, Perquintill};
use vstd::prelude::*;

verus! {

/// One part in this many is the resolution of a matching share.
pub const SHARE_SCALE: u64 = 1_000_000_000_000_000_000;

/// Magnitude of a signed amount.
pub open spec fn magnitude(a: int) -> nat {
    if a < 0 {
        (-a) as nat
    } else {
        a as nat
    }
}

/// The product of a price, given by its raw representation, and a whole
/// number. A product of the two raw numbers that fits 128 bits is divided
/// by the scale rounding down; a wider one is rounded to the nearest whole
/// number, an exact half down.
pub open spec fn price_product(inner: nat, n: nat) -> nat {
    let wide = inner * n;
    let down = wide / (PRICE_SCALE as nat);
    if wide > u128::MAX && wide % (PRICE_SCALE as nat) > PRICE_SCALE / 2 {
        down + 1
    } else {
        down
    }
}

/// `parts` millionths of `x`, rounded up.
pub open spec fn ceil_millionths(parts: nat, x: nat) -> nat {
    (x * parts + (RATIO_SCALE - 1)) as nat / (RATIO_SCALE as nat)
}

/// `parts` shares of `x`, rounded down.
pub open spec fn floor_share(parts: nat, x: nat) -> nat {
    x * parts / (SHARE_SCALE as nat)
}

/// The share that approximates `p / q` from the two numbers reduced to the
/// resolution of a share: `q` is taken as at least 1 and `p` as at most `q`,
/// both are divided by the least factor that brings `q` within the scale, and
/// the quotient of the reduced numbers is rounded down.
pub open spec fn approximate_share(p: nat, q: nat) -> nat {
    let den = if q == 0 { 1 } else { q };
    let num = if p > den { den } else { p };
    let scale = SHARE_SCALE as nat;
    let up = (den + scale - 1) as nat / scale;
    let factor = if up == 0 { 1 } else { up };
    (num / factor) * scale / (den / factor)
}

/// A share of a number is at most the number.
pub proof fn lemma_floor_share_bounded(parts: nat, x: nat)
    requires
        parts <= SHARE_SCALE,
    ensures
        floor_share(parts, x) <= x,
{
    let scale = SHARE_SCALE as nat;
    assert(x * parts / scale <= x) by (nonlinear_arith)
        requires
            parts <= scale,
            scale > 0,
    ;
}

/// The share that approximates a quotient is at most the whole.
pub proof fn lemma_approximate_share_bounded(p: nat, q: nat)
    ensures
        approximate_share(p, q) <= SHARE_SCALE,
{
    let den = if q == 0 { 1 } else { q };
    let num = if p > den { den } else { p };
    let scale = SHARE_SCALE as nat;
    let up = (den + scale - 1) as nat / scale;
    let factor = if up == 0 { 1 } else { up };
    assert(up <= den) by (nonlinear_arith)
        requires
            up == (den + scale - 1) as nat / scale,
            scale >= 1,
            den >= 1,
    ;
    let a = num / factor;
    let b = den / factor;
    assert(a <= b && b >= 1) by (nonlinear_arith)
        requires
            a == num / factor,
            b == den / factor,
            num <= den,
            1 <= factor <= den,
    ;
    assert(a * scale / b <= scale) by (nonlinear_arith)
        requires
            a <= b,
            b >= 1,
    ;
}

/// Within the resolution of a share, the share that approximates `p / q`
/// is the quotient rounded down: times `q` it is at most `p` wholes.
pub proof fn lemma_approximate_share_below(p: nat, q: nat)
    requires
        p <= q,
        0 < q <= SHARE_SCALE,
    ensures
        approximate_share(p, q) == p * (SHARE_SCALE as nat) / q,
        approximate_share(p, q) * q <= p * SHARE_SCALE,
{
    let scale = SHARE_SCALE as nat;
    let up = (q + scale - 1) as nat / scale;
    assert(up == 1) by (nonlinear_arith)
        requires
            up == (q + scale - 1) as nat / scale,
            0 < q <= scale,
    ;
    assert(p / 1 == p && q / 1 == q);
    assert((p * scale / q) * q <= p * scale) by (nonlinear_arith)
        requires
            q > 0,
    ;
}

/// The share that approximates `p / q` is all of it where `p` is `q`.
pub proof fn lemma_approximate_share_whole(q: nat)
    requires
        q > 0,
    ensures
        approximate_share(q, q) == SHARE_SCALE,
{
    let scale = SHARE_SCALE as nat;
    let up = (q + scale - 1) as nat / scale;
    let factor = if up == 0 { 1 } else { up };
    assert(up <= q) by (nonlinear_arith)
        requires
            up == (q + scale - 1) as nat / scale,
            scale >= 1,
            q >= 1,
    ;
    let b = q / factor;
    assert(b >= 1) by (nonlinear_arith)
        requires
            b == q / factor,
            1 <= factor <= q,
    ;
    assert(b * scale / b == scale) by (nonlinear_arith)
        requires
            b >= 1,
    ;
}

/// Magnitude of a signed amount, exact on the whole range.
pub fn unsigned_abs(a: i128) -> (r: u128)
    ensures
        r == magnitude(a as int),
{
    if a == i128::MIN {
        170141183460469231731687303715884105728u128
    } else if a < 0 {
        (-a) as u128
    } else {
        a as u128
    }
}

/// `FixedU128::checked_mul_int` on an unsigned number: the product of the
/// price and `n`, or `None` where it does not fit.
#[verifier::external_body]
pub(crate) fn price_checked_mul(price: Price, n: u128) -> (r: Option<u128>)
    ensures
        r == (if price_product(price.inner as nat, n as nat) <= u128::MAX {
            Some(price_product(price.inner as nat, n as nat) as u128)
        } else {
            None
        }),
{
    FixedU128::from_inner(price.inner).checked_mul_int(n)
}

/// `FixedU128::checked_mul_int` on a signed number: the product of the price
/// and the magnitude of `n`, with the sign of `n`, or `None` where it does
/// not fit.
#[verifier::external_body]
pub(crate) fn price_checked_mul_signed(price: Price, n: i128) -> (r: Option<i128>)
    ensures
        r == (if n < 0 {
            if price_product(price.inner as nat, magnitude(n as int)) <= -(i128::MIN as int) {
                Some((-(price_product(price.inner as nat, magnitude(n as int)) as int)) as i128)
            } else {
                None
            }
        } else {
            if price_product(price.inner as nat, n as nat) <= i128::MAX {
                Some(price_product(price.inner as nat, n as nat) as i128)
            } else {
                None
            }
        }),
{
    FixedU128::from_inner(price.inner).checked_mul_int(n)
}

/// `FixedU128::saturating_mul_int` on an unsigned number: the product of the
/// price and `n`, or the largest number where it does not fit.
#[verifier::external_body]
pub(crate) fn price_saturating_mul(price: Price, n: u128) -> (r: u128)
    ensures
        r == (if price_product(price.inner as nat, n as nat) <= u128::MAX {
            price_product(price.inner as nat, n as nat)
        } else {
            u128::MAX as nat
        }),
{
    FixedU128::from_inner(price.inner).saturating_mul_int(n)
}

/// `FixedU128::saturating_mul_int` on a signed number: the product of the
/// price and the magnitude of `n`, with the sign of `n`, or the bound on
/// that side where it does not fit.
#[verifier::external_body]
pub(crate) fn price_saturating_mul_signed(price: Price, n: i128) -> (r: i128)
    ensures
        r == (if n < 0 {
            if price_product(price.inner as nat, magnitude(n as int)) <= -(i128::MIN as int) {
                -(price_product(price.inner as nat, magnitude(n as int)) as int)
            } else {
                i128::MIN as int
            }
        } else {
            if price_product(price.inner as nat, n as nat) <= i128::MAX {
                price_product(price.inner as nat, n as nat) as int
            } else {
                i128::MAX as int
            }
        }),
{
    FixedU128::from_inner(price.inner).saturating_mul_int(n)
}

/// `Permill::mul_ceil`: the ratio's share of `x`, rounded up.
#[verifier::external_body]
pub(crate) fn ratio_mul_ceil(ratio: Ratio, x: u128) -> (r: u128)
    ensures
        r == ceil_millionths(ratio.parts(), x as nat),
{
    Permill::from_parts(ratio.deconstruct()).mul_ceil(x)
}

/// `Perquintill::from_rational_approximation`: the share, in parts of
/// `SHARE_SCALE`, that approximates `p / q`.
#[verifier::external_body]
pub(crate) fn share_of(p: u128, q: u128) -> (parts: u64)
    ensures
        parts == approximate_share(p as nat, q as nat),
{
    Perquintill::from_rational_approximation(p, q).deconstruct()
}

/// `Perquintill::mul_floor`: `parts` shares of `x`, rounded down.
#[verifier::external_body]
pub(crate) fn share_mul_floor(parts: u64, x: u128) -> (r: u128)
    requires
        parts <= SHARE_SCALE,
    ensures
        r == floor_share(parts as nat, x as nat),
{
    Perquintill::from_parts(parts).mul_floor(x)
}

} // verus!
