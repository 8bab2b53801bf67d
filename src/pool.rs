//! Pool accounting: swap pricing, share issuance and share redemption, as
//! pure functions of the pool's reserves and the fee rates.
use vstd::prelude::*;
use vstd::arithmetic::div_mod::{lemma_fundamental_div_mod, lemma_mod_bound};

use cosmwasm_std::Isqrt;

use crate::error::ContractError;

verus! {

/// A rate is kept as its number of atomics: `rate = atomics / DECIMAL_FRACTIONAL`.
pub const DECIMAL_FRACTIONAL: u128 = 1_000_000_000_000_000_000;

/// `floor(a * n / d)` over the integers.
pub open spec fn mul_div_floor_spec(a: int, n: int, d: int) -> int {
    (a * n) / d
}

/// `ceil(a * n / d)` over the integers.
pub open spec fn mul_div_ceil_spec(a: int, n: int, d: int) -> int {
    (a * n + d - 1) / d
}

/// The atomics of the decimal that a string spells, if it spells one.
pub uninterp spec fn decimal_atomics(s: Seq<char>) -> Option<u128>;

/// Relies on `Uint128::checked_mul_floor` of cosmwasm-std: the product is taken
/// in 256 bits, then divided; it fails on a zero divisor or a quotient over
/// the 128-bit range.
#[verifier::external_body]
fn mul_div_floor(a: u128, n: u128, d: u128) -> (r: Option<u128>)
    ensures
        d == 0 ==> r is None,
        d != 0 ==> (r is Some <==> mul_div_floor_spec(a as int, n as int, d as int) <= u128::MAX),
        r matches Some(v) ==> v == mul_div_floor_spec(a as int, n as int, d as int),
{
    cosmwasm_std::Uint128::new(a).checked_mul_floor((n, d)).ok().map(|v| v.u128())
}

/// Relies on `Uint128::checked_mul_ceil` of cosmwasm-std: as the floor variant,
/// rounded up when the division leaves a remainder.
#[verifier::external_body]
fn mul_div_ceil(a: u128, n: u128, d: u128) -> (r: Option<u128>)
    ensures
        d == 0 ==> r is None,
        d != 0 ==> (r is Some <==> mul_div_ceil_spec(a as int, n as int, d as int) <= u128::MAX),
        r matches Some(v) ==> v == mul_div_ceil_spec(a as int, n as int, d as int),
{
    cosmwasm_std::Uint128::new(a).checked_mul_ceil((n, d)).ok().map(|v| v.u128())
}

/// Relies on `Uint128::full_mul` and `Isqrt::isqrt` of cosmwasm-std: the integer
/// square root of the 256-bit product, which always fits in 128 bits.
#[verifier::external_body]
fn isqrt_of_product(a: u128, b: u128) -> (r: Option<u128>)
    ensures
        r is Some,
        r matches Some(v) ==> v * v <= a * b && a * b < (v + 1) * (v + 1),
{
    let root = cosmwasm_std::Uint128::new(a).full_mul(b).isqrt();
    cosmwasm_std::Uint128::try_from(root).ok().map(|v| v.u128())
}

/// Relies on `Decimal::from_str` of cosmwasm-std: the atomics of the parsed
/// decimal, which depend on the text alone.
#[verifier::external_body]
pub fn parse_decimal(s: &str) -> (r: Option<u128>)
    ensures
        r == decimal_atomics(s@),
{
    <cosmwasm_std::Decimal as std::str::FromStr>::from_str(s).ok().map(|d| d.atomics().u128())
}

/// `floor(a * n / d)`, or an overflow error where the quotient leaves the
/// 128-bit range.
pub fn checked_mul_div(a: u128, n: u128, d: u128) -> (r: Result<u128, ContractError>)
    requires
        d > 0,
    ensures
        r matches Ok(v) ==> v == mul_div_floor_spec(a as int, n as int, d as int),
        r is Err ==> r == Err::<u128, ContractError>(ContractError::OverflowError),
        r is Ok <==> mul_div_floor_spec(a as int, n as int, d as int) <= u128::MAX,
{
    match mul_div_floor(a, n, d) {
        Some(v) => Ok(v),
        None => Err(ContractError::OverflowError),
    }
}

/// `amount * rate`, rounded down.
pub open spec fn apply_rate(amount: int, rate_atomics: int) -> int {
    mul_div_floor_spec(amount, rate_atomics, DECIMAL_FRACTIONAL as int)
}

/// What one swap pays out and keeps back.
#[derive(Clone, Copy, Debug, PartialEq, Eq)]
pub struct SwapAmounts {
    /// What the trader receives.
    pub return_amount: u128,
    /// The shortfall against the pool's price before the trade.
    pub spread_amount: u128,
    /// The fee that stays with the pool.
    pub commission_amount: u128,
    /// The fee paid to the pair's operator.
    pub operator_fee_amount: u128,
}

/// The part of the ask reserve that stays in the pool after `offer_amount`
/// enters: the constant-product quotient, rounded up in the pool's favour.
pub open spec fn ask_remaining(offer_pool: int, ask_pool: int, offer_amount: int) -> int {
    mul_div_ceil_spec(ask_pool, offer_pool, offer_pool + offer_amount)
}

/// The gross output of a trade before fees:
/// `ask_pool - ask_pool * offer_pool / (offer_pool + offer_amount)`.
pub open spec fn gross_return(offer_pool: int, ask_pool: int, offer_amount: int) -> int {
    ask_pool - ask_remaining(offer_pool, ask_pool, offer_amount)
}

/// What the offer would buy at the pool's price before the trade.
pub open spec fn ideal_return(offer_pool: int, ask_pool: int, offer_amount: int) -> int {
    mul_div_floor_spec(offer_amount, ask_pool, offer_pool)
}

/// The outcome of a swap of `offer_amount` against reserves
/// `(offer_pool, ask_pool)`, with the commission and operator fee each taken
/// as a rounded-down fraction of the gross output.
pub open spec fn swap_spec(
    offer_pool: u128,
    ask_pool: u128,
    offer_amount: u128,
    commission_rate: u128,
    operator_fee_rate: u128,
) -> Result<SwapAmounts, ContractError> {
    let o = offer_pool as int;
    let a = ask_pool as int;
    let x = offer_amount as int;
    if offer_pool == 0 {
        Err(ContractError::OfferPoolIsZero)
    } else if o + x > u128::MAX {
        Err(ContractError::OverflowError)
    } else if ideal_return(o, a, x) > u128::MAX {
        Err(ContractError::OverflowError)
    } else {
        let g = gross_return(o, a, x);
        let c = apply_rate(g, commission_rate as int);
        let f = apply_rate(g, operator_fee_rate as int);
        if c > u128::MAX || f > u128::MAX || c + f > g {
            Err(ContractError::OverflowError)
        } else {
            Ok(
                SwapAmounts {
                    return_amount: (g - c - f) as u128,
                    spread_amount: (ideal_return(o, a, x) - g) as u128,
                    commission_amount: c as u128,
                    operator_fee_amount: f as u128,
                },
            )
        }
    }
}

proof fn lemma_div_bounds(n: int, d: int)
    requires
        n >= 0,
        d > 0,
    ensures
        (n / d) * d <= n,
        n < (n / d) * d + d,
        n / d >= 0,
{
    lemma_fundamental_div_mod(n, d);
    lemma_mod_bound(n, d);
    assert(n / d >= 0) by (nonlinear_arith)
        requires
            n == d * (n / d) + n % d,
            0 <= n % d < d,
            d > 0,
            n >= 0,
    ;
    assert((n / d) * d == d * (n / d)) by (nonlinear_arith);
}

/// Where `q * d <= n` the quotient is at least `q`; where `n < q * d` it is below `q`.
proof fn lemma_div_compare(n: int, d: int, q: int)
    requires
        n >= 0,
        d > 0,
    ensures
        q * d <= n ==> q <= n / d,
        n < q * d ==> n / d < q,
{
    lemma_div_bounds(n, d);
    let k = n / d;
    if q * d <= n {
        assert(q <= k) by (nonlinear_arith)
            requires
                q * d <= n,
                n < k * d + d,
                d > 0,
        ;
    }
    if n < q * d {
        assert(k < q) by (nonlinear_arith)
            requires
                n < q * d,
                k * d <= n,
                d > 0,
        ;
    }
}

/// The remaining ask reserve never exceeds the old one and keeps the product.
proof fn lemma_ask_remaining(o: int, a: int, x: int)
    requires
        o > 0,
        a >= 0,
        x >= 0,
    ensures
        0 <= ask_remaining(o, a, x) <= a,
        ask_remaining(o, a, x) * (o + x) >= a * o,
        a > 0 ==> ask_remaining(o, a, x) > 0,
{
    let d = o + x;
    let n = a * o + d - 1;
    assert(a * o >= 0) by (nonlinear_arith)
        requires
            a >= 0,
            o > 0,
    ;
    lemma_div_bounds(n, d);
    let q = n / d;
    assert(a * d >= a * o) by (nonlinear_arith)
        requires
            a >= 0,
            d == o + x,
            x >= 0,
    ;
    lemma_div_compare(n, d, a + 1);
    assert(n < (a + 1) * d) by (nonlinear_arith)
        requires
            n == a * o + d - 1,
            a * d >= a * o,
    ;
    if a > 0 {
        lemma_div_compare(n, d, 1);
        assert(1 * d <= n) by (nonlinear_arith)
            requires
                n == a * o + d - 1,
                a > 0,
                o > 0,
        ;
    }
}

/// The ideal output is at least the gross output.
proof fn lemma_ideal_covers_gross(o: int, a: int, x: int)
    requires
        o > 0,
        a >= 0,
        x >= 0,
    ensures
        gross_return(o, a, x) <= ideal_return(o, a, x),
        0 <= gross_return(o, a, x),
{
    lemma_ask_remaining(o, a, x);
    let g = gross_return(o, a, x);
    let r = ask_remaining(o, a, x);
    // g * o <= x * a, because (a - r) * o <= a * o - a * o * o / (o + x) = a * x * o / (o + x)
    assert(g * o <= x * a) by (nonlinear_arith)
        requires
            g == a - r,
            r * (o + x) >= a * o,
            o > 0,
            x >= 0,
            a >= 0,
            r <= a,
            r >= 0,
    ;
    assert(x * a >= 0) by (nonlinear_arith)
        requires
            x >= 0,
            a >= 0,
    ;
    lemma_div_compare(x * a, o, g);
}

/// Computes the swap of `offer_amount` against reserves `(offer_pool, ask_pool)`.
pub fn compute_swap(
    offer_pool: u128,
    ask_pool: u128,
    offer_amount: u128,
    commission_rate: u128,
    operator_fee_rate: u128,
) -> (r: Result<SwapAmounts, ContractError>)
    ensures
        r == swap_spec(offer_pool, ask_pool, offer_amount, commission_rate, operator_fee_rate),
{
    if offer_pool == 0 {
        return Err(ContractError::OfferPoolIsZero);
    }
    let new_offer_pool = match offer_pool.checked_add(offer_amount) {
        Some(v) => v,
        None => return Err(ContractError::OverflowError),
    };
    let ideal = match mul_div_floor(offer_amount, ask_pool, offer_pool) {
        Some(v) => v,
        None => return Err(ContractError::OverflowError),
    };
    proof {
        lemma_ask_remaining(offer_pool as int, ask_pool as int, offer_amount as int);
        lemma_ideal_covers_gross(offer_pool as int, ask_pool as int, offer_amount as int);
    }
    let remaining = match mul_div_ceil(ask_pool, offer_pool, new_offer_pool) {
        Some(v) => v,
        None => return Err(ContractError::OverflowError),
    };
    let gross = ask_pool - remaining;
    let commission = match mul_div_floor(gross, commission_rate, DECIMAL_FRACTIONAL) {
        Some(v) => v,
        None => return Err(ContractError::OverflowError),
    };
    let operator_fee = match mul_div_floor(gross, operator_fee_rate, DECIMAL_FRACTIONAL) {
        Some(v) => v,
        None => return Err(ContractError::OverflowError),
    };
    if commission > gross || operator_fee > gross - commission {
        return Err(ContractError::OverflowError);
    }
    Ok(
        SwapAmounts {
            return_amount: gross - commission - operator_fee,
            spread_amount: ideal - gross,
            commission_amount: commission,
            operator_fee_amount: operator_fee,
        },
    )
}


/// The constant product of the reserves never falls under a swap: the gross
/// output, at most `ask - ask * offer / (offer + amount)` rounded down,
/// splits exactly into what the trader, the pool and the operator get,
/// and the reserves after the trade, with or without the commission kept in
/// the pool, multiply to at least the product before it.
pub proof fn lemma_swap_keeps_product(
    offer_pool: u128,
    ask_pool: u128,
    offer_amount: u128,
    commission_rate: u128,
    operator_fee_rate: u128,
)
    requires
        offer_pool > 0,
        ask_pool > 0,
        swap_spec(offer_pool, ask_pool, offer_amount, commission_rate, operator_fee_rate) is Ok,
    ensures
        ({
            let s = swap_spec(offer_pool, ask_pool, offer_amount, commission_rate, operator_fee_rate)->Ok_0;
            let o = offer_pool as int;
            let a = ask_pool as int;
            let x = offer_amount as int;
            &&& s.return_amount + s.commission_amount + s.operator_fee_amount == gross_return(o, a, x)
            &&& gross_return(o, a, x) <= a - (a * o) / (o + x)
            &&& gross_return(o, a, x) <= a
            &&& (o + x) * (a - gross_return(o, a, x)) >= o * a
            &&& (o + x) * (a - s.return_amount - s.operator_fee_amount) >= o * a
        }),
{
    let o = offer_pool as int;
    let a = ask_pool as int;
    let x = offer_amount as int;
    let s = swap_spec(offer_pool, ask_pool, offer_amount, commission_rate, operator_fee_rate)->Ok_0;
    lemma_ask_remaining(o, a, x);
    let r = ask_remaining(o, a, x);
    let rest = a - s.return_amount - s.operator_fee_amount;
    assert(rest >= r);
    assert(a * o >= 0) by (nonlinear_arith)
        requires
            a > 0,
            o > 0,
    ;
    lemma_div_bounds(a * o, o + x);
    lemma_div_compare(a * o + (o + x) - 1, o + x, (a * o) / (o + x));
    assert((o + x) * rest >= (o + x) * r) by (nonlinear_arith)
        requires
            rest >= r,
            o + x > 0,
    ;
}

/// What one deposit earns: the shares minted and the part of each requested
/// amount that the pool's ratio accepts. What is requested beyond that stays
/// in the pool as a donation to every holder.
#[derive(Clone, Copy, Debug, PartialEq, Eq)]
pub struct ProvideAmounts {
    pub share: u128,
    pub accepted0: u128,
    pub accepted1: u128,
}

pub open spec fn min_int(a: int, b: int) -> int {
    if a <= b {
        a
    } else {
        b
    }
}

/// `r` is the integer square root of `n`.
pub open spec fn is_isqrt(r: int, n: int) -> bool {
    r >= 0 && r * r <= n && n < (r + 1) * (r + 1)
}

/// The integer square root of `n`.
pub open spec fn isqrt_spec(n: int) -> int {
    choose|r: int| is_isqrt(r, n)
}

/// The shares that a deposit on one side earns in a non-empty pool.
pub open spec fn side_share(deposit: int, total: int, reserve: int) -> int {
    mul_div_floor_spec(deposit, total, reserve)
}

/// The least part of a requested amount that a slippage tolerance lets the
/// pool accept: `requested * (1 - tolerance)`, rounded up.
pub open spec fn slippage_floor(requested: int, tolerance: int) -> int {
    mul_div_ceil_spec(requested, DECIMAL_FRACTIONAL - tolerance, DECIMAL_FRACTIONAL as int)
}

/// Shares and accepted amounts of a deposit into a non-empty pool: the side
/// that earns fewer shares binds, and the other side is accepted only up to
/// the amount that the reserves' ratio implies.
pub open spec fn proportional_split(d0: int, d1: int, r0: int, r1: int, total: int) -> (int, int, int) {
    let s0 = side_share(d0, total, r0);
    let s1 = side_share(d1, total, r1);
    if s0 <= s1 {
        (s0, d0, min_int(d1, mul_div_floor_spec(d0, r1, r0)))
    } else {
        (s1, min_int(d0, mul_div_floor_spec(d1, r0, r1)), d1)
    }
}

/// Shares and accepted amounts of a deposit: into an empty pool, the square
/// root of the product of the two amounts, all accepted.
pub open spec fn provide_amounts(d0: int, d1: int, r0: int, r1: int, total: int) -> (int, int, int) {
    if total == 0 {
        (isqrt_spec(d0 * d1), d0, d1)
    } else {
        proportional_split(d0, d1, r0, r1, total)
    }
}

/// The error, if any, that a deposit of `(d0, d1)` meets.
pub open spec fn provide_error(
    d0: u128,
    d1: u128,
    r0: u128,
    r1: u128,
    total: u128,
    slippage: Option<u128>,
) -> Option<ContractError> {
    let p = provide_amounts(d0 as int, d1 as int, r0 as int, r1 as int, total as int);
    if d0 == 0 || d1 == 0 {
        Some(ContractError::InvalidZeroAmount)
    } else if slippage matches Some(t) && t > DECIMAL_FRACTIONAL {
        Some(ContractError::InvalidExceedOneSlippage)
    } else if total == 0 {
        None
    } else if side_share(d0 as int, total as int, r0 as int) > u128::MAX || side_share(
        d1 as int,
        total as int,
        r1 as int,
    ) > u128::MAX {
        Some(ContractError::OverflowError)
    } else if slippage matches Some(t) && (p.1 < slippage_floor(d0 as int, t as int) || p.2
        < slippage_floor(d1 as int, t as int)) {
        Some(ContractError::InvalidExceedOneSlippage)
    } else if p.0 == 0 {
        Some(ContractError::InvalidZeroAmount)
    } else {
        None
    }
}

proof fn lemma_isqrt_exists(n: int)
    requires
        n >= 0,
    ensures
        is_isqrt(isqrt_spec(n), n),
    decreases n,
{
    if n == 0 {
        assert(is_isqrt(0, 0));
    } else {
        lemma_isqrt_exists(n - 1);
        let r = isqrt_spec(n - 1);
        if (r + 1) * (r + 1) <= n {
            assert(n < (r + 2) * (r + 2)) by (nonlinear_arith)
                requires
                    n - 1 < (r + 1) * (r + 1),
                    r >= 0,
            ;
            assert(is_isqrt(r + 1, n));
        } else {
            assert(is_isqrt(r, n));
        }
    }
}

proof fn lemma_isqrt_unique(v: int, n: int)
    requires
        is_isqrt(v, n),
    ensures
        isqrt_spec(n) == v,
{
    let r = isqrt_spec(n);
    assert(is_isqrt(r, n));
    if r < v {
        assert(false) by (nonlinear_arith)
            requires
                r >= 0,
                r < v,
                v * v <= n,
                n < (r + 1) * (r + 1),
        ;
    }
    if v < r {
        assert(false) by (nonlinear_arith)
            requires
                v >= 0,
                v < r,
                r * r <= n,
                n < (v + 1) * (v + 1),
        ;
    }
}

/// The amount accepted under a tolerance never exceeds the request.
proof fn lemma_slippage_floor(requested: int, tolerance: int)
    requires
        requested >= 0,
        0 <= tolerance <= DECIMAL_FRACTIONAL,
    ensures
        0 <= slippage_floor(requested, tolerance) <= requested,
{
    let sf = DECIMAL_FRACTIONAL as int;
    let n = requested * (sf - tolerance) + sf - 1;
    assert(requested * (sf - tolerance) >= 0) by (nonlinear_arith)
        requires
            requested >= 0,
            sf - tolerance >= 0,
    ;
    assert(n < (requested + 1) * sf) by (nonlinear_arith)
        requires
            n == requested * (sf - tolerance) + sf - 1,
            tolerance >= 0,
            requested >= 0,
    ;
    lemma_div_compare(n, sf, requested + 1);
    lemma_div_bounds(n, sf);
}

/// Computes the shares and accepted amounts of a deposit of `(d0, d1)` into a
/// pool with reserves `(r0, r1)` and `total` shares.
pub fn compute_provide(
    d0: u128,
    d1: u128,
    r0: u128,
    r1: u128,
    total: u128,
    slippage: Option<u128>,
) -> (r: Result<ProvideAmounts, ContractError>)
    requires
        total > 0 ==> r0 > 0 && r1 > 0,
    ensures
        match r {
            Ok(p) => {
                &&& provide_error(d0, d1, r0, r1, total, slippage) is None
                &&& provide_amounts(d0 as int, d1 as int, r0 as int, r1 as int, total as int) == (
                    p.share as int,
                    p.accepted0 as int,
                    p.accepted1 as int,
                )
            },
            Err(e) => provide_error(d0, d1, r0, r1, total, slippage) == Some(e),
        },
{
    if d0 == 0 || d1 == 0 {
        return Err(ContractError::InvalidZeroAmount);
    }
    if let Some(t) = slippage {
        if t > DECIMAL_FRACTIONAL {
            return Err(ContractError::InvalidExceedOneSlippage);
        }
    }
    if total == 0 {
        let share = match isqrt_of_product(d0, d1) {
            Some(v) => v,
            None => return Err(ContractError::OverflowError),
        };
        proof {
            lemma_isqrt_unique(share as int, d0 as int * d1 as int);
        }
        return Ok(ProvideAmounts { share, accepted0: d0, accepted1: d1 });
    }
    let s0 = match mul_div_floor(d0, total, r0) {
        Some(v) => v,
        None => return Err(ContractError::OverflowError),
    };
    let s1 = match mul_div_floor(d1, total, r1) {
        Some(v) => v,
        None => return Err(ContractError::OverflowError),
    };
    let share: u128;
    let accepted0: u128;
    let accepted1: u128;
    if s0 <= s1 {
        share = s0;
        accepted0 = d0;
        accepted1 = match mul_div_floor(d0, r1, r0) {
            Some(v) => if v < d1 {
                v
            } else {
                d1
            },
            None => d1,
        };
    } else {
        share = s1;
        accepted1 = d1;
        accepted0 = match mul_div_floor(d1, r0, r1) {
            Some(v) => if v < d0 {
                v
            } else {
                d0
            },
            None => d0,
        };
    }
    if let Some(t) = slippage {
        proof {
            lemma_slippage_floor(d0 as int, t as int);
            lemma_slippage_floor(d1 as int, t as int);
        }
        let least0 = match mul_div_ceil(d0, DECIMAL_FRACTIONAL - t, DECIMAL_FRACTIONAL) {
            Some(v) => v,
            None => return Err(ContractError::OverflowError),
        };
        let least1 = match mul_div_ceil(d1, DECIMAL_FRACTIONAL - t, DECIMAL_FRACTIONAL) {
            Some(v) => v,
            None => return Err(ContractError::OverflowError),
        };
        if accepted0 < least0 || accepted1 < least1 {
            return Err(ContractError::InvalidExceedOneSlippage);
        }
    }
    if share == 0 {
        return Err(ContractError::InvalidZeroAmount);
    }
    Ok(ProvideAmounts { share, accepted0, accepted1 })
}

/// What a withdrawal refunds on each side.
#[derive(Clone, Copy, Debug, PartialEq, Eq)]
pub struct WithdrawAmounts {
    pub refund0: u128,
    pub refund1: u128,
}

/// Burning `burn` of `total` shares refunds `reserve * burn / total` on each
/// side, rounded down; a burn of nothing, or one whose refund rounds to
/// nothing on a side, is refused.
pub open spec fn withdraw_spec(burn: u128, total: u128, r0: u128, r1: u128) -> Result<
    WithdrawAmounts,
    ContractError,
> {
    if burn == 0 {
        Err(ContractError::InvalidZeroRatio)
    } else if burn > total {
        Err(ContractError::OverflowError)
    } else {
        let f0 = mul_div_floor_spec(r0 as int, burn as int, total as int);
        let f1 = mul_div_floor_spec(r1 as int, burn as int, total as int);
        if f0 == 0 || f1 == 0 {
            Err(ContractError::InvalidZeroRatio)
        } else {
            Ok(WithdrawAmounts { refund0: f0 as u128, refund1: f1 as u128 })
        }
    }
}

/// A refund never exceeds the reserve, and takes all of it only when every
/// share is burnt.
proof fn lemma_refund_bounds(r: int, burn: int, total: int)
    requires
        r >= 0,
        0 < burn <= total,
    ensures
        0 <= mul_div_floor_spec(r, burn, total) <= r,
        burn == total ==> mul_div_floor_spec(r, burn, total) == r,
        burn < total && r > 0 ==> mul_div_floor_spec(r, burn, total) < r,
{
    assert(r * burn >= 0) by (nonlinear_arith)
        requires
            r >= 0,
            burn > 0,
    ;
    lemma_div_bounds(r * burn, total);
    assert(r * burn < (r + 1) * total) by (nonlinear_arith)
        requires
            r >= 0,
            0 < burn <= total,
    ;
    lemma_div_compare(r * burn, total, r + 1);
    if burn == total {
        assert(r * total / total == r) by (nonlinear_arith)
            requires
                total > 0,
        ;
    }
    if burn < total && r > 0 {
        assert(r * burn < r * total) by (nonlinear_arith)
            requires
                r > 0,
                burn < total,
        ;
        lemma_div_compare(r * burn, total, r);
    }
}

/// Computes the refunds of burning `burn` of `total` shares.
pub fn compute_withdraw(burn: u128, total: u128, r0: u128, r1: u128) -> (r: Result<
    WithdrawAmounts,
    ContractError,
>)
    ensures
        r == withdraw_spec(burn, total, r0, r1),
{
    if burn == 0 {
        return Err(ContractError::InvalidZeroRatio);
    }
    if burn > total {
        return Err(ContractError::OverflowError);
    }
    proof {
        lemma_refund_bounds(r0 as int, burn as int, total as int);
        lemma_refund_bounds(r1 as int, burn as int, total as int);
    }
    let refund0 = match mul_div_floor(r0, burn, total) {
        Some(v) => v,
        None => return Err(ContractError::OverflowError),
    };
    let refund1 = match mul_div_floor(r1, burn, total) {
        Some(v) => v,
        None => return Err(ContractError::OverflowError),
    };
    if refund0 == 0 || refund1 == 0 {
        return Err(ContractError::InvalidZeroRatio);
    }
    Ok(WithdrawAmounts { refund0, refund1 })
}


/// The reserves of a pool and the shares issued against them.
#[derive(Clone, Copy, Debug, PartialEq, Eq)]
pub struct PoolState {
    pub reserve0: u128,
    pub reserve1: u128,
    pub total_share: u128,
}

/// The error, if any, that a deposit into `pool` meets, counting the growth
/// of the reserves and of the share supply.
pub open spec fn pool_provide_error(pool: PoolState, d0: u128, d1: u128, slippage: Option<u128>) -> Option<
    ContractError,
> {
    let e = provide_error(d0, d1, pool.reserve0, pool.reserve1, pool.total_share, slippage);
    let p = provide_amounts(
        d0 as int,
        d1 as int,
        pool.reserve0 as int,
        pool.reserve1 as int,
        pool.total_share as int,
    );
    if e is Some {
        e
    } else if pool.reserve0 + d0 > u128::MAX || pool.reserve1 + d1 > u128::MAX
        || pool.total_share + p.0 > u128::MAX {
        Some(ContractError::OverflowError)
    } else {
        None
    }
}

impl PoolState {
    /// Shares are outstanding exactly when both reserves hold something.
    pub open spec fn wf(&self) -> bool {
        ||| (self.total_share == 0 && self.reserve0 == 0 && self.reserve1 == 0)
        ||| (self.total_share > 0 && self.reserve0 > 0 && self.reserve1 > 0)
    }

    /// An empty pool.
    pub fn new() -> (r: PoolState)
        ensures
            r == (PoolState { reserve0: 0, reserve1: 0, total_share: 0 }),
            r.wf(),
    {
        PoolState { reserve0: 0, reserve1: 0, total_share: 0 }
    }

    /// Deposits `(d0, d1)`: both requested amounts enter the reserves, and the
    /// shares that the accepted amounts earn are issued.
    pub fn provide(&mut self, d0: u128, d1: u128, slippage: Option<u128>) -> (r: Result<
        ProvideAmounts,
        ContractError,
    >)
        requires
            old(self).wf(),
        ensures
            final(self).wf(),
            match r {
                Ok(p) => {
                    &&& pool_provide_error(*old(self), d0, d1, slippage) is None
                    &&& provide_amounts(
                        d0 as int,
                        d1 as int,
                        old(self).reserve0 as int,
                        old(self).reserve1 as int,
                        old(self).total_share as int,
                    ) == (p.share as int, p.accepted0 as int, p.accepted1 as int)
                    &&& final(self).reserve0 == old(self).reserve0 + d0
                    &&& final(self).reserve1 == old(self).reserve1 + d1
                    &&& final(self).total_share == old(self).total_share + p.share
                },
                Err(e) => {
                    &&& pool_provide_error(*old(self), d0, d1, slippage) == Some(e)
                    &&& *final(self) == *old(self)
                },
            },
    {
        let p = match compute_provide(
            d0,
            d1,
            self.reserve0,
            self.reserve1,
            self.total_share,
            slippage,
        ) {
            Ok(p) => p,
            Err(e) => return Err(e),
        };
        proof {
            if self.total_share == 0 {
                assert(d0 as int * d1 as int >= 0) by (nonlinear_arith)
                    requires
                        d0 >= 0,
                        d1 >= 0,
                ;
                lemma_isqrt_exists(d0 as int * d1 as int);
                if p.share == 0 {
                    assert(false) by (nonlinear_arith)
                        requires
                            d0 > 0,
                            d1 > 0,
                            (d0 as int) * (d1 as int) < (p.share + 1) * (p.share + 1),
                            p.share == 0,
                    ;
                }
            }
        }
        let reserve0 = match self.reserve0.checked_add(d0) {
            Some(v) => v,
            None => return Err(ContractError::OverflowError),
        };
        let reserve1 = match self.reserve1.checked_add(d1) {
            Some(v) => v,
            None => return Err(ContractError::OverflowError),
        };
        let total_share = match self.total_share.checked_add(p.share) {
            Some(v) => v,
            None => return Err(ContractError::OverflowError),
        };
        self.reserve0 = reserve0;
        self.reserve1 = reserve1;
        self.total_share = total_share;
        Ok(p)
    }

    /// Burns `burn` shares and takes their refunds out of the reserves.
    pub fn withdraw(&mut self, burn: u128) -> (r: Result<WithdrawAmounts, ContractError>)
        requires
            old(self).wf(),
        ensures
            final(self).wf(),
            r == withdraw_spec(burn, old(self).total_share, old(self).reserve0, old(self).reserve1),
            r matches Ok(w) ==> {
                &&& final(self).reserve0 == old(self).reserve0 - w.refund0
                &&& final(self).reserve1 == old(self).reserve1 - w.refund1
                &&& final(self).total_share == old(self).total_share - burn
            },
            r is Err ==> *final(self) == *old(self),
    {
        let w = match compute_withdraw(burn, self.total_share, self.reserve0, self.reserve1) {
            Ok(w) => w,
            Err(e) => return Err(e),
        };
        proof {
            lemma_refund_bounds(self.reserve0 as int, burn as int, self.total_share as int);
            lemma_refund_bounds(self.reserve1 as int, burn as int, self.total_share as int);
        }
        self.reserve0 = self.reserve0 - w.refund0;
        self.reserve1 = self.reserve1 - w.refund1;
        self.total_share = self.total_share - burn;
        Ok(w)
    }

    /// Swaps `offer_amount` of asset 0 (when `offer_first`) or asset 1 for the
    /// other: the offer joins its reserve, and the return and the operator fee
    /// leave the other; the commission stays in the pool.
    pub fn swap(
        &mut self,
        offer_first: bool,
        offer_amount: u128,
        commission_rate: u128,
        operator_fee_rate: u128,
    ) -> (r: Result<SwapAmounts, ContractError>)
        requires
            old(self).wf(),
        ensures
            final(self).wf(),
            r == (if offer_first {
                swap_spec(
                    old(self).reserve0,
                    old(self).reserve1,
                    offer_amount,
                    commission_rate,
                    operator_fee_rate,
                )
            } else {
                swap_spec(
                    old(self).reserve1,
                    old(self).reserve0,
                    offer_amount,
                    commission_rate,
                    operator_fee_rate,
                )
            }),
            r matches Ok(s) ==> {
                &&& final(self).total_share == old(self).total_share
                &&& offer_first ==> final(self).reserve0 == old(self).reserve0 + offer_amount
                    && final(self).reserve1 == old(self).reserve1 - s.return_amount
                    - s.operator_fee_amount
                &&& !offer_first ==> final(self).reserve1 == old(self).reserve1 + offer_amount
                    && final(self).reserve0 == old(self).reserve0 - s.return_amount
                    - s.operator_fee_amount
            },
            r is Err ==> *final(self) == *old(self),
    {
        let (offer_pool, ask_pool) = if offer_first {
            (self.reserve0, self.reserve1)
        } else {
            (self.reserve1, self.reserve0)
        };
        let s = match compute_swap(
            offer_pool,
            ask_pool,
            offer_amount,
            commission_rate,
            operator_fee_rate,
        ) {
            Ok(s) => s,
            Err(e) => return Err(e),
        };
        proof {
            lemma_swap_keeps_product(
                offer_pool,
                ask_pool,
                offer_amount,
                commission_rate,
                operator_fee_rate,
            );
            lemma_ask_remaining(offer_pool as int, ask_pool as int, offer_amount as int);
        }
        let new_ask = ask_pool - s.return_amount - s.operator_fee_amount;
        if offer_first {
            self.reserve0 = offer_pool + offer_amount;
            self.reserve1 = new_ask;
        } else {
            self.reserve1 = offer_pool + offer_amount;
            self.reserve0 = new_ask;
        }
        Ok(s)
    }
}

/// Depositing into a pool and at once burning every share that the deposit
/// minted never pays out more than was deposited on either side (a refund
/// that rounds to nothing is refused); from an empty pool the burn succeeds
/// and returns the deposit exactly. Into a non-empty pool, the side whose
/// ratio set the shares gets back its deposit short of less than one unit
/// plus the reserve that backs one share.
pub proof fn lemma_provide_withdraw_round_trip(
    pool: PoolState,
    d0: u128,
    d1: u128,
    slippage: Option<u128>,
)
    requires
        pool.wf(),
        pool_provide_error(pool, d0, d1, slippage) is None,
    ensures
        ({
            let p = provide_amounts(
                d0 as int,
                d1 as int,
                pool.reserve0 as int,
                pool.reserve1 as int,
                pool.total_share as int,
            );
            let after = PoolState {
                reserve0: (pool.reserve0 + d0) as u128,
                reserve1: (pool.reserve1 + d1) as u128,
                total_share: (pool.total_share + p.0) as u128,
            };
            let w = withdraw_spec(p.0 as u128, after.total_share, after.reserve0, after.reserve1);
            let t = pool.total_share as int;
            &&& w is Ok ==> w->Ok_0.refund0 <= d0 && w->Ok_0.refund1 <= d1
            &&& pool.total_share == 0 ==> w is Ok && w->Ok_0.refund0 == d0 && w->Ok_0.refund1 == d1
            &&& t > 0 && w is Ok && p.0 == side_share(d0 as int, t, pool.reserve0 as int) ==> (
            w->Ok_0.refund0 + 1) * (t + p.0) + pool.reserve0 > d0 * (t + p.0)
            &&& t > 0 && w is Ok && p.0 == side_share(d1 as int, t, pool.reserve1 as int) ==> (
            w->Ok_0.refund1 + 1) * (t + p.0) + pool.reserve1 > d1 * (t + p.0)
        }),
{
    let p = provide_amounts(
        d0 as int,
        d1 as int,
        pool.reserve0 as int,
        pool.reserve1 as int,
        pool.total_share as int,
    );
    let r0 = pool.reserve0 as int;
    let r1 = pool.reserve1 as int;
    let t = pool.total_share as int;
    let s = p.0;
    let n0 = r0 + d0;
    let n1 = r1 + d1;
    let nt = t + s;
    if t == 0 {
        assert(d0 as int * d1 as int >= 0) by (nonlinear_arith)
            requires
                d0 >= 0,
                d1 >= 0,
        ;
        lemma_isqrt_exists(d0 as int * d1 as int);
        assert(s > 0) by (nonlinear_arith)
            requires
                s >= 0,
                (d0 as int) * (d1 as int) < (s + 1) * (s + 1),
                d0 > 0,
                d1 > 0,
        ;
        lemma_refund_bounds(n0, s, nt);
        lemma_refund_bounds(n1, s, nt);
    } else {
        assert(s > 0);
        lemma_refund_bounds(n0, s, nt);
        lemma_refund_bounds(n1, s, nt);
        let s0 = side_share(d0 as int, t, r0);
        let s1 = side_share(d1 as int, t, r1);
        assert(s <= s0 && s <= s1);
        lemma_div_bounds(d0 as int * t, r0);
        lemma_div_bounds(d1 as int * t, r1);
        lemma_share_refund_le(r0, d0 as int, t, s, s0);
        lemma_share_refund_le(r1, d1 as int, t, s, s1);
        if s == s0 {
            lemma_share_refund_ge(r0, d0 as int, t, s);
        }
        if s == s1 {
            lemma_share_refund_ge(r1, d1 as int, t, s);
        }
    }
}

/// Where `s == floor(d * t / r)`, burning `s` of `t + s` shares from a
/// reserve of `r + d` refunds more than `d - 1 - r / (t + s)`.
proof fn lemma_share_refund_ge(r: int, d: int, t: int, s: int)
    requires
        r > 0,
        d > 0,
        t > 0,
        s > 0,
        s == side_share(d, t, r),
    ensures
        (mul_div_floor_spec(r + d, s, t + s) + 1) * (t + s) + r > d * (t + s),
{
    assert(d * t >= 0) by (nonlinear_arith)
        requires
            d > 0,
            t > 0,
    ;
    lemma_div_bounds(d * t, r);
    assert(s * r == r * s) by (nonlinear_arith);
    let x = (r + d) * s;
    assert(x + r > d * (t + s)) by (nonlinear_arith)
        requires
            x == (r + d) * s,
            d * t < s * r + r,
    ;
    assert(x >= 0) by (nonlinear_arith)
        requires
            x == (r + d) * s,
            r > 0,
            d > 0,
            s > 0,
    ;
    lemma_div_bounds(x, t + s);
    let q = x / (t + s);
    assert((q + 1) * (t + s) == q * (t + s) + (t + s)) by (nonlinear_arith);
}

/// Where `s <= floor(d * t / r)`, burning `s` of `t + s` shares from a reserve
/// of `r + d` refunds at most `d`.
proof fn lemma_share_refund_le(r: int, d: int, t: int, s: int, side: int)
    requires
        r > 0,
        d > 0,
        t > 0,
        s > 0,
        side == side_share(d, t, r),
        s <= side,
        side * r <= d * t,
    ensures
        mul_div_floor_spec(r + d, s, t + s) <= d,
{
    assert(s * r <= d * t) by (nonlinear_arith)
        requires
            s <= side,
            side * r <= d * t,
            r > 0,
    ;
    assert((r + d) * s < (d + 1) * (t + s)) by (nonlinear_arith)
        requires
            s * r <= d * t,
            t > 0,
            s > 0,
    ;
    assert((r + d) * s >= 0) by (nonlinear_arith)
        requires
            r > 0,
            d > 0,
            s > 0,
    ;
    lemma_div_compare((r + d) * s, t + s, d + 1);
}

/// A successful swap's return and spread sum to the ideal output, which
/// fits in 128 bits.
pub proof fn lemma_swap_keeps_spread_in_range(
    offer_pool: u128,
    ask_pool: u128,
    offer_amount: u128,
    commission_rate: u128,
    operator_fee_rate: u128,
)
    requires
        swap_spec(offer_pool, ask_pool, offer_amount, commission_rate, operator_fee_rate) is Ok,
    ensures
        ({
            let s = swap_spec(offer_pool, ask_pool, offer_amount, commission_rate, operator_fee_rate)->Ok_0;
            s.return_amount + s.spread_amount <= u128::MAX
        }),
{
    let o = offer_pool as int;
    let a = ask_pool as int;
    let x = offer_amount as int;
    lemma_ideal_covers_gross(o, a, x);
}

/// The gross output of a swap is never negative.
pub proof fn lemma_gross_return_nonneg(o: int, a: int, x: int)
    requires
        o > 0,
        a >= 0,
        x >= 0,
    ensures
        gross_return(o, a, x) >= 0,
{
    lemma_ask_remaining(o, a, x);
}

} // verus!
