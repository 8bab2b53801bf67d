use oraiswap::error::ContractError;
use oraiswap::pool::{
    compute_provide, compute_swap, compute_withdraw, parse_decimal, PoolState, ProvideAmounts,
    SwapAmounts, WithdrawAmounts, DECIMAL_FRACTIONAL,
};

const COMMISSION: u128 = 3_000_000_000_000_000;
const OPERATOR_FEE: u128 = 1_000_000_000_000_000;

#[test]
fn parse_default_rates() {
    assert_eq!(parse_decimal("0.003"), Some(COMMISSION));
    assert_eq!(parse_decimal("0.001"), Some(OPERATOR_FEE));
    assert_eq!(parse_decimal("1"), Some(DECIMAL_FRACTIONAL));
    assert_eq!(parse_decimal("abc"), None);
}

#[test]
fn swap_exact_amounts_without_operator() {
    let r = compute_swap(10_000_000, 10_000_000, 100_000, COMMISSION, 0).unwrap();
    assert_eq!(
        r,
        SwapAmounts {
            return_amount: 98_712,
            spread_amount: 991,
            commission_amount: 297,
            operator_fee_amount: 0,
        }
    );
}

#[test]
fn swap_exact_amounts_with_operator() {
    let r = compute_swap(10_000_000, 10_000_000, 100_000, COMMISSION, OPERATOR_FEE).unwrap();
    assert_eq!(
        r,
        SwapAmounts {
            return_amount: 98_613,
            spread_amount: 991,
            commission_amount: 297,
            operator_fee_amount: 99,
        }
    );
}

#[test]
fn swap_keeps_constant_product() {
    let cases: [(u128, u128, u128); 4] = [
        (1000, 1000, 100),
        (10_000_000, 10_000_000, 100_000),
        (7, 1_000_000_007, 3),
        (u64::MAX as u128, 12345, u64::MAX as u128),
    ];
    for (o, a, x) in cases {
        let s = compute_swap(o, a, x, COMMISSION, OPERATOR_FEE).unwrap();
        let gross = s.return_amount + s.commission_amount + s.operator_fee_amount;
        assert!(gross <= a);
        let before = (o as f64) * (a as f64);
        let after = ((o + x) as f64) * ((a - s.return_amount - s.operator_fee_amount) as f64);
        assert!(after >= before);
        // exact check where the product fits
        if let (Some(b), Some(c)) = (o.checked_mul(a), (o + x).checked_mul(a - gross)) {
            assert!(c >= b);
        }
    }
}

#[test]
fn swap_small_trade_rounds_for_the_pool() {
    let s = compute_swap(1000, 1000, 100, COMMISSION, OPERATOR_FEE).unwrap();
    assert_eq!(s.return_amount, 90);
    assert_eq!(s.spread_amount, 10);
    assert_eq!(s.commission_amount, 0);
    assert_eq!(s.operator_fee_amount, 0);
}

#[test]
fn swap_from_empty_offer_pool_fails() {
    assert_eq!(
        compute_swap(0, 100, 10, COMMISSION, 0),
        Err(ContractError::OfferPoolIsZero)
    );
}

#[test]
fn swap_overflow_is_an_error() {
    assert_eq!(
        compute_swap(u128::MAX, 100, 1, COMMISSION, 0),
        Err(ContractError::OverflowError)
    );
    // fees above the whole output cannot be paid
    assert_eq!(
        compute_swap(1000, 1000, 100, DECIMAL_FRACTIONAL, DECIMAL_FRACTIONAL),
        Err(ContractError::OverflowError)
    );
}

#[test]
fn first_deposit_mints_square_root() {
    let p = compute_provide(100, 100, 0, 0, 0, None).unwrap();
    assert_eq!(p, ProvideAmounts { share: 100, accepted0: 100, accepted1: 100 });
    let p = compute_provide(3, 5, 0, 0, 0, None).unwrap();
    assert_eq!(p.share, 3);
    let p = compute_provide(u128::MAX, u128::MAX, 0, 0, 0, None).unwrap();
    assert_eq!(p.share, u128::MAX);
}

#[test]
fn imbalanced_deposit_accepts_the_ratio() {
    // reserves (100, 100) with 100 shares; a request of (100, 200)
    let p = compute_provide(100, 200, 100, 100, 100, None).unwrap();
    assert_eq!(p, ProvideAmounts { share: 100, accepted0: 100, accepted1: 100 });
    let p = compute_provide(200, 100, 100, 100, 100, None).unwrap();
    assert_eq!(p, ProvideAmounts { share: 100, accepted0: 100, accepted1: 100 });
}

#[test]
fn provide_donation_scenario() {
    let mut pool = PoolState::new();
    let first = pool.provide(100, 100, None).unwrap();
    assert_eq!(first.share, 100);
    let second = pool.provide(100, 200, None).unwrap();
    assert_eq!(second, ProvideAmounts { share: 100, accepted0: 100, accepted1: 100 });
    // the 100 not accepted stays in the pool
    assert_eq!(pool, PoolState { reserve0: 200, reserve1: 300, total_share: 200 });
}

#[test]
fn zero_deposit_is_refused() {
    assert_eq!(compute_provide(0, 100, 0, 0, 0, None), Err(ContractError::InvalidZeroAmount));
    assert_eq!(compute_provide(100, 0, 10, 10, 10, None), Err(ContractError::InvalidZeroAmount));
    // a deposit too small for one share
    assert_eq!(compute_provide(1, 1, 1000, 1000, 10, None), Err(ContractError::InvalidZeroAmount));
}

#[test]
fn slippage_tolerance_is_checked() {
    assert_eq!(
        compute_provide(100, 100, 0, 0, 0, Some(DECIMAL_FRACTIONAL + 1)),
        Err(ContractError::InvalidExceedOneSlippage)
    );
    // half of the second request would be donated; a 10% tolerance refuses it
    assert_eq!(
        compute_provide(100, 200, 100, 100, 100, Some(DECIMAL_FRACTIONAL / 10)),
        Err(ContractError::InvalidExceedOneSlippage)
    );
    // a 50% tolerance accepts it
    assert!(compute_provide(100, 200, 100, 100, 100, Some(DECIMAL_FRACTIONAL / 2)).is_ok());
}

#[test]
fn withdraw_everything_empties_the_pool() {
    let w = compute_withdraw(100, 100, 100, 100).unwrap();
    assert_eq!(w, WithdrawAmounts { refund0: 100, refund1: 100 });
    let mut pool = PoolState { reserve0: 100, reserve1: 100, total_share: 100 };
    pool.withdraw(100).unwrap();
    assert_eq!(pool, PoolState { reserve0: 0, reserve1: 0, total_share: 0 });
}

#[test]
fn withdraw_part_rounds_down() {
    let w = compute_withdraw(1, 3, 100, 200).unwrap();
    assert_eq!(w, WithdrawAmounts { refund0: 33, refund1: 66 });
}

#[test]
fn withdraw_errors() {
    assert_eq!(compute_withdraw(0, 100, 100, 100), Err(ContractError::InvalidZeroRatio));
    assert_eq!(compute_withdraw(1, 1000, 100, 100), Err(ContractError::InvalidZeroRatio));
    assert_eq!(compute_withdraw(101, 100, 100, 100), Err(ContractError::OverflowError));
}

#[test]
fn provide_then_withdraw_round_trip() {
    let mut pool = PoolState::new();
    let p = pool.provide(1_000, 4_000, None).unwrap();
    let w = pool.withdraw(p.share).unwrap();
    assert_eq!(w, WithdrawAmounts { refund0: 1_000, refund1: 4_000 });
    assert_eq!(pool, PoolState::new());

    let mut pool = PoolState { reserve0: 1_000, reserve1: 1_000, total_share: 1_000 };
    let p = pool.provide(300, 500, None).unwrap();
    let w = pool.withdraw(p.share).unwrap();
    assert!(w.refund0 <= 300 && w.refund1 <= 500);
    assert!(pool.reserve0 >= 1_000 && pool.reserve1 >= 1_000);
}

#[test]
fn pool_swap_moves_reserves() {
    let mut pool = PoolState { reserve0: 10_000_000, reserve1: 10_000_000, total_share: 10_000_000 };
    let s = pool.swap(true, 100_000, COMMISSION, OPERATOR_FEE).unwrap();
    assert_eq!(pool.reserve0, 10_100_000);
    assert_eq!(pool.reserve1, 10_000_000 - s.return_amount - s.operator_fee_amount);
    let s2 = pool.swap(false, 50_000, COMMISSION, 0).unwrap();
    assert_eq!(pool.reserve1, 10_000_000 - s.return_amount - s.operator_fee_amount + 50_000);
    assert_eq!(s2.operator_fee_amount, 0);
}
