//! Fixed-point conversion of bridged-chain balances.
//!
//! A conversion rate is a non-negative fixed-point scalar with eighteen
//! decimal places. Converting a balance multiplies it by the rate, rounds
//! down, and saturates to the largest representable value on overflow:
//! overestimating a cost is safe, silently wrapping is not.

use vstd::prelude::*;
use vstd::arithmetic::div_mod::{
    lemma_fundamental_div_mod, lemma_fundamental_div_mod_converse, lemma_div_is_ordered,
    lemma_div_pos_is_pos,
};
use vstd::arithmetic::mul::{lemma_mul_upper_bound, lemma_mul_inequality, lemma_mul_nonnegative};

verus! {

/// Denominator of the fixed-point representation: a rate with inner value
/// `FIXED_POINT_DIV` is exactly one.
pub const FIXED_POINT_DIV: u128 = 1_000_000_000_000_000_000;

/// One limb of 64 bits, used to split 128-bit values for exact arithmetic.
const LIMB: u128 = 0x1_0000_0000_0000_0000;

/// Exact mathematical value of multiplying a balance `b` by a rate with
/// inner value `a`, rounded down.
pub open spec fn rate_mul_floor(a: int, b: int) -> int {
    (a * b) / (FIXED_POINT_DIV as int)
}

/// The same, saturated to the largest 128-bit balance.
pub open spec fn rate_mul_saturating(a: int, b: int) -> int {
    if rate_mul_floor(a, b) > u128::MAX as int {
        u128::MAX as int
    } else {
        rate_mul_floor(a, b)
    }
}

/// A non-negative fixed-point scalar with eighteen decimal places.
#[derive(Clone, Copy, Debug)]
pub struct FixedU128 {
    pub inner: u128,
}

impl FixedU128 {
    /// Builds a rate directly from its fixed-point representation.
    pub fn from_inner(inner: u128) -> (r: FixedU128)
        ensures
            r.inner == inner,
    {
        FixedU128 { inner }
    }

    pub fn into_inner(self) -> (r: u128)
        ensures
            r == self.inner,
    {
        self.inner
    }

    /// The rate that maps every balance to itself.
    pub fn one() -> (r: FixedU128)
        ensures
            r.inner == FIXED_POINT_DIV,
    {
        FixedU128 { inner: FIXED_POINT_DIV }
    }

    /// Multiplies the balance `b` by this rate, rounding down and saturating
    /// on overflow.
    pub fn saturating_mul_int(self, b: u128) -> (r: u128)
        ensures
            r as int == rate_mul_saturating(self.inner as int, b as int),
    {
        mul_rate_floor_saturating(self.inner, b)
    }

    /// The reciprocal rate, rounded down; `None` for the zero rate.
    pub fn reciprocal(self) -> (r: Option<FixedU128>)
        ensures
            match r {
                Some(x) => self.inner > 0 && x.inner as int == (FIXED_POINT_DIV as int
                    * FIXED_POINT_DIV as int) / self.inner as int,
                None => self.inner == 0,
            },
    {
        if self.inner == 0 {
            None
        } else {
            Some(FixedU128 { inner: (FIXED_POINT_DIV * FIXED_POINT_DIV) / self.inner })
        }
    }
}

/// Law: converting a balance by a rate and back by the rate's reciprocal
/// never gains value, and loses at most the fixed-point rounding error of
/// the two divisions. Writing `d` for the fixed-point denominator, `a` for
/// the rate's inner value, `binv` for the reciprocal's inner value, and `y`
/// for the balance after the round trip, the loss `x - y` scaled by `d * d`
/// is bounded by `binv * (d - 1) + x * (a - 1) + (d - 1) * d`: for a rate
/// near one this is at most a few units of the balance's smallest digit.
pub proof fn lemma_convert_round_trip(x: u128, rate: FixedU128)
    requires
        rate.inner >= 1,
    ensures
        ({
            let d = FIXED_POINT_DIV as int;
            let a = rate.inner as int;
            let binv = (d * d) / a;
            let y = rate_mul_floor(binv, rate_mul_floor(a, x as int));
            &&& y <= x
            &&& (x - y) * d * d <= binv * (d - 1) + x * (a - 1) + (d - 1) * d
        }),
{
    let d = FIXED_POINT_DIV as int;
    let a = rate.inner as int;
    let xi = x as int;
    let binv = (d * d) / a;
    let c = (a * xi) / d;
    let y = (binv * c) / d;
    let r1 = (a * xi) % d;
    let r2 = (binv * c) % d;
    let r3 = (d * d) % a;
    lemma_mul_nonnegative(a, xi);
    lemma_fundamental_div_mod(a * xi, d);
    lemma_div_pos_is_pos(a * xi, d);
    lemma_fundamental_div_mod(d * d, a);
    lemma_div_pos_is_pos(d * d, a);
    lemma_mul_nonnegative(binv, c);
    lemma_fundamental_div_mod(binv * c, d);
    lemma_div_pos_is_pos(binv * c, d);
    // the exact accounting of both divisions, one rewriting step at a time
    assert(xi * d * d == xi * (a * binv) + xi * r3) by (nonlinear_arith)
        requires
            d * d == a * binv + r3;
    assert(xi * (a * binv) == (a * xi) * binv) by (nonlinear_arith);
    assert((a * xi) * binv == (d * c) * binv + r1 * binv) by (nonlinear_arith)
        requires
            a * xi == d * c + r1;
    assert((d * c) * binv == d * (binv * c)) by (nonlinear_arith);
    assert(d * (binv * c) == d * (d * y) + d * r2) by (nonlinear_arith)
        requires
            binv * c == d * y + r2;
    assert(d * (d * y) == y * d * d) by (nonlinear_arith);
    assert(xi * d * d == y * d * d + binv * r1 + xi * r3 + r2 * d) by (nonlinear_arith)
        requires
            xi * d * d == xi * (a * binv) + xi * r3,
            xi * (a * binv) == (a * xi) * binv,
            (a * xi) * binv == (d * c) * binv + r1 * binv,
            (d * c) * binv == d * (binv * c),
            d * (binv * c) == d * (d * y) + d * r2,
            d * (d * y) == y * d * d;
    // each rounding term is non-negative and bounded
    lemma_mul_nonnegative(binv, r1);
    lemma_mul_nonnegative(xi, r3);
    lemma_mul_inequality(r1, d - 1, binv);
    lemma_mul_inequality(r3, a - 1, xi);
    assert(binv * r1 == r1 * binv) by (nonlinear_arith);
    assert(xi * r3 == r3 * xi) by (nonlinear_arith);
    assert(r2 * d <= (d - 1) * d);
}

/// The zero rate maps every balance to zero.
pub proof fn lemma_zero_rate(b: int)
    requires
        b >= 0,
    ensures
        rate_mul_saturating(0, b) == 0,
{
    assert(0 * b == 0) by (nonlinear_arith);
}

/// Chain-resident bridge parameters that the message-lane pallet lets a
/// governance call update. The conversion rate is read from here before each
/// pricing decision, never cached.
#[derive(Clone, Copy, Debug)]
pub struct MillauBridgeParameters {
    pub template_to_millau_conversion_rate: FixedU128,
}

/// A parameter update for the lane from this chain to the bridged one.
#[derive(Clone, Copy, Debug)]
pub enum MillauToTemplateMessagesParameter {
    /// The conversion formula in use is
    /// `this-chain tokens = bridged-chain tokens * conversion rate`.
    TemplateToMillauConversionRate(FixedU128),
}

impl MillauToTemplateMessagesParameter {
    /// Writes the parameter into the chain-resident parameter storage.
    pub fn save(&self, params: &mut MillauBridgeParameters)
        ensures
            final(params).template_to_millau_conversion_rate == match *self {
                MillauToTemplateMessagesParameter::TemplateToMillauConversionRate(rate) => rate,
            },
    {
        match *self {
            MillauToTemplateMessagesParameter::TemplateToMillauConversionRate(rate) => {
                params.template_to_millau_conversion_rate = rate;
            },
        }
    }
}

/// Computes `a * b / FIXED_POINT_DIV` exactly, rounding down and saturating
/// to `u128::MAX`, by splitting the 256-bit product into 64-bit limbs and
/// dividing limb by limb.
fn mul_rate_floor_saturating(a: u128, b: u128) -> (r: u128)
    ensures
        r as int == rate_mul_saturating(a as int, b as int),
{
    let a0 = a % LIMB;
    let a1 = a / LIMB;
    let b0 = b % LIMB;
    let b1 = b / LIMB;
    proof {
        lemma_fundamental_div_mod(a as int, LIMB as int);
        lemma_fundamental_div_mod(b as int, LIMB as int);
        lemma_div_is_ordered(a as int, u128::MAX as int, LIMB as int);
        lemma_div_is_ordered(b as int, u128::MAX as int, LIMB as int);
        lemma_mul_upper_bound(a0 as int, LIMB as int - 1, b0 as int, LIMB as int - 1);
        lemma_mul_upper_bound(a0 as int, LIMB as int - 1, b1 as int, LIMB as int - 1);
        lemma_mul_upper_bound(a1 as int, LIMB as int - 1, b0 as int, LIMB as int - 1);
        lemma_mul_upper_bound(a1 as int, LIMB as int - 1, b1 as int, LIMB as int - 1);
    }
    let ll = a0 * b0;
    let lh = a0 * b1;
    let hl = a1 * b0;
    let hh = a1 * b1;

    let p0 = ll % LIMB;
    let cll = ll / LIMB;
    let rlh = lh % LIMB;
    let qlh = lh / LIMB;
    let rhl = hl % LIMB;
    let qhl = hl / LIMB;
    let mid = cll + rlh + rhl;
    let p1 = mid % LIMB;
    let qmid = mid / LIMB;
    proof {
        lemma_div_is_ordered(lh as int, (LIMB as int - 1) * (LIMB as int - 1), LIMB as int);
        lemma_div_is_ordered(hl as int, (LIMB as int - 1) * (LIMB as int - 1), LIMB as int);
        lemma_div_is_ordered(ll as int, (LIMB as int - 1) * (LIMB as int - 1), LIMB as int);
    }
    let high = hh + qlh + qhl + qmid;
    proof {
        let li = LIMB as int;
        // the 256-bit product, expanded over the four partial products
        assert((a1 as int * li + a0 as int) * (b1 as int * li + b0 as int) == a1 as int * b1 as int
            * li * li + (a0 as int * b1 as int + a1 as int * b0 as int) * li + a0 as int
            * b0 as int) by (nonlinear_arith);
        lemma_fundamental_div_mod(ll as int, li);
        lemma_fundamental_div_mod(lh as int, li);
        lemma_fundamental_div_mod(hl as int, li);
        lemma_fundamental_div_mod(mid as int, li);
        assert(a as int * b as int == high as int * li * li + p1 as int * li + p0 as int);
    }
    // divide the limbs (high, p1, p0) by the fixed-point denominator,
    // most significant first, carrying the remainder
    let d = FIXED_POINT_DIV;
    let h1 = high / LIMB;
    let h0 = high % LIMB;
    proof {
        lemma_fundamental_div_mod(high as int, LIMB as int);
        lemma_div_is_ordered(high as int, u128::MAX as int, LIMB as int);
    }
    let q3 = h1 / d;
    let r1 = h1 % d;
    let c2 = r1 * LIMB + h0;
    let q2 = c2 / d;
    let r2 = c2 % d;
    let c3 = r2 * LIMB + p1;
    let q1 = c3 / d;
    let r3 = c3 % d;
    let c4 = r3 * LIMB + p0;
    let q0 = c4 / d;
    let r4 = c4 % d;
    proof {
        let li = LIMB as int;
        let di = d as int;
        let prod = a as int * b as int;
        let quot = ((q3 as int * li + q2 as int) * li + q1 as int) * li + q0 as int;
        lemma_fundamental_div_mod(h1 as int, di);
        lemma_fundamental_div_mod(c2 as int, di);
        lemma_fundamental_div_mod(c3 as int, di);
        lemma_fundamental_div_mod(c4 as int, di);
        assert(prod == quot * di + r4 as int);
        lemma_fundamental_div_mod_converse(prod, di, quot, r4 as int);
        // bounds on the low quotient limbs
        lemma_div_is_ordered(c3 as int, di * li - 1, di);
        lemma_div_is_ordered(c4 as int, di * li - 1, di);
    }
    if q3 > 0 || q2 > 0 {
        u128::MAX
    } else {
        q1 * LIMB + q0
    }
}

} // verus!
