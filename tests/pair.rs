use oraiswap::asset::{Asset, AssetInfo, Coin};
use oraiswap::error::ContractError;
use oraiswap::pair::{
    Pair, PairExecuteMsg, PairInstantiateMsg, PairOutcome, DEFAULT_COMMISSION_RATE,
    DEFAULT_OPERATOR_FEE,
};
use oraiswap::pool::PoolState;

const MOCK_CONTRACT_ADDR: &str = "cosmos2contract";
const ORAI_DENOM: &str = "orai";
const ATOM_DENOM: &str = "ibc/1777D03C5392415FE659F0E8ECB2CE553C6550542A68E4707D5D46949116790B";
const PAIR_ADDR: &str = "pair0000";
const LP_TOKEN: &str = "liquidity_token0000";

fn native(denom: &str) -> AssetInfo {
    AssetInfo::NativeToken { denom: denom.to_string() }
}

fn token(addr: &str) -> AssetInfo {
    AssetInfo::Token { contract_addr: addr.to_string() }
}

fn asset(info: AssetInfo, amount: u128) -> Asset {
    Asset { info, amount }
}

fn coin(denom: &str, amount: u128) -> Vec<Coin> {
    vec![Coin { denom: denom.to_string(), amount }]
}

fn new_pair(asset_infos: [AssetInfo; 2], admin: Option<&str>) -> Pair {
    Pair::instantiate(
        PairInstantiateMsg {
            oracle_addr: "oracle0000".to_string(),
            asset_infos,
            token_code_id: 1,
            commission_rate: None,
            admin: admin.map(|a| a.to_string()),
            operator_fee: None,
            operator: None,
        },
        PAIR_ADDR.to_string(),
        LP_TOKEN.to_string(),
    )
    .unwrap()
}

#[test]
fn provide_liquidity_both_native() {
    let mut pair = new_pair([native(ORAI_DENOM), native(ATOM_DENOM)], None);
    let mut funds = coin(ORAI_DENOM, 100);
    funds.extend(coin(ATOM_DENOM, 100));
    let res = pair
        .provide_liquidity(
            MOCK_CONTRACT_ADDR.to_string(),
            [asset(native(ATOM_DENOM), 100), asset(native(ORAI_DENOM), 100)],
            funds,
            None,
            None,
        )
        .unwrap();
    println!("{:?}", res);
    assert_eq!(res.amounts.share, 100);
    assert!(res.token_pulls.is_empty());
    assert_eq!(res.receiver, MOCK_CONTRACT_ADDR.to_string());
}

#[test]
fn provide_liquidity() {
    let asset_addr = "asset0000";
    let mut pair = new_pair([native(ORAI_DENOM), token(asset_addr)], None);
    pair.provide_liquidity(
        MOCK_CONTRACT_ADDR.to_string(),
        [asset(token(asset_addr), 100), asset(native(ORAI_DENOM), 100)],
        coin(ORAI_DENOM, 100),
        None,
        None,
    )
    .unwrap();

    // a 1:2 request into a 1:1 pool: only 100 of each side earns shares,
    // the rest stays in the pool
    let res = pair
        .provide_liquidity(
            MOCK_CONTRACT_ADDR.to_string(),
            [asset(token(asset_addr), 100), asset(native(ORAI_DENOM), 200)],
            coin(ORAI_DENOM, 200),
            None,
            Some("staking0000".to_string()),
        )
        .unwrap();
    assert_eq!(res.receiver, "staking0000".to_string());
    assert_eq!(res.amounts.accepted0, 100);
    assert_eq!(res.amounts.accepted1, 100);
    assert_eq!(res.token_pulls, vec![asset(token(asset_addr), 100)]);

    // the declared amount differs from the funds sent
    let error = pair
        .provide_liquidity(
            MOCK_CONTRACT_ADDR.to_string(),
            [asset(token(asset_addr), 100), asset(native(ORAI_DENOM), 50)],
            coin(ORAI_DENOM, 100),
            None,
            None,
        )
        .unwrap_err();
    println!("provide_liquididty {}", error.message());
    assert_eq!(error, ContractError::InvalidFunds);
}

#[test]
fn withdraw_liquidity() {
    let liquidity_addr = "liquidity0000";
    let mut pair = new_pair([native(ORAI_DENOM), token(liquidity_addr)], None);
    pair.provide_liquidity(
        "addr0000".to_string(),
        [asset(token(liquidity_addr), 100), asset(native(ORAI_DENOM), 100)],
        coin(ORAI_DENOM, 100),
        None,
        Some(PAIR_ADDR.to_string()),
    )
    .unwrap();

    let info = pair.query_pair();
    let res = pair
        .withdraw_liquidity(info.liquidity_token, "addr0000".to_string(), 100)
        .unwrap();
    assert_eq!(res.burn_amount, 100);
    let log_refund_assets = format!(
        "{}{}, {}{}",
        res.refund_assets[0].amount,
        res.refund_assets[0].info.id(),
        res.refund_assets[1].amount,
        res.refund_assets[1].info.id()
    );
    assert_eq!(log_refund_assets, format!("100{}, 100{}", ORAI_DENOM, liquidity_addr));
    assert_eq!(pair.pool, PoolState { reserve0: 0, reserve1: 0, total_share: 0 });
}

#[test]
fn withdraw_only_through_share_token() {
    let mut pair = new_pair([native(ORAI_DENOM), native(ATOM_DENOM)], None);
    let mut funds = coin(ORAI_DENOM, 100);
    funds.extend(coin(ATOM_DENOM, 100));
    pair.provide_liquidity(
        "addr0000".to_string(),
        [asset(native(ORAI_DENOM), 100), asset(native(ATOM_DENOM), 100)],
        funds,
        None,
        None,
    )
    .unwrap();
    assert_eq!(
        pair.withdraw_liquidity("addr0000".to_string(), "addr0000".to_string(), 100),
        Err(ContractError::Unauthorized)
    );
    assert_eq!(
        pair.withdraw_liquidity(LP_TOKEN.to_string(), "addr0000".to_string(), 0),
        Err(ContractError::InvalidZeroRatio)
    );
}

#[test]
fn test_pool_whitelist_for_trader() {
    let asset_addr = "asset0000";
    let mut pair = new_pair([native(ORAI_DENOM), token(asset_addr)], Some("admin"));
    let deposit = [asset(token(asset_addr), 100), asset(native(ORAI_DENOM), 100)];

    // before enabling, everyone can use the pool
    pair.provide_liquidity(
        MOCK_CONTRACT_ADDR.to_string(),
        deposit.clone(),
        coin(ORAI_DENOM, 100),
        None,
        None,
    )
    .unwrap();

    let error = pair.enable_whitelist(&"addr000".to_string(), true).unwrap_err();
    assert!(error.message().contains("Unauthorized"));

    pair.enable_whitelist(&"admin".to_string(), true).unwrap();
    pair.register_trader(&"admin".to_string(), &vec![MOCK_CONTRACT_ADDR.to_string()])
        .unwrap();

    // after enabling, only registered traders can deposit
    let error = pair
        .provide_liquidity(
            "addr0000".to_string(),
            deposit.clone(),
            coin(ORAI_DENOM, 100),
            None,
            None,
        )
        .unwrap_err();
    assert_eq!(error, ContractError::PoolWhitelisted);

    pair.provide_liquidity(
        MOCK_CONTRACT_ADDR.to_string(),
        deposit.clone(),
        coin(ORAI_DENOM, 100),
        None,
        None,
    )
    .unwrap();

    let offer = asset(native(ORAI_DENOM), 100);
    let error = pair
        .swap("addr0000".to_string(), offer.clone(), coin(ORAI_DENOM, 100), None, None, None)
        .unwrap_err();
    assert_eq!(error, ContractError::PoolWhitelisted);

    pair.swap(MOCK_CONTRACT_ADDR.to_string(), offer, coin(ORAI_DENOM, 100), None, None, None)
        .unwrap();
}

#[test]
fn gated_calls_succeed_after_registration() {
    let mut pair = new_pair([native(ORAI_DENOM), native(ATOM_DENOM)], Some("admin"));
    let mut funds = coin(ORAI_DENOM, 1000);
    funds.extend(coin(ATOM_DENOM, 1000));
    let deposit = [asset(native(ORAI_DENOM), 1000), asset(native(ATOM_DENOM), 1000)];
    pair.enable_whitelist(&"admin".to_string(), true).unwrap();
    let user = "user0000".to_string();

    assert_eq!(
        pair.provide_liquidity(user.clone(), deposit.clone(), funds.clone(), None, None),
        Err(ContractError::PoolWhitelisted)
    );
    pair.register_trader(&"admin".to_string(), &vec![user.clone()]).unwrap();
    let minted = pair
        .provide_liquidity(user.clone(), deposit.clone(), funds.clone(), None, None)
        .unwrap();

    let offer = asset(native(ORAI_DENOM), 100);
    assert!(pair
        .swap(user.clone(), offer.clone(), coin(ORAI_DENOM, 100), None, None, None)
        .is_ok());

    assert_eq!(
        pair.withdraw_liquidity(LP_TOKEN.to_string(), user.clone(), minted.amounts.share),
        Err(ContractError::PoolWhitelisted)
    );
    pair.register_withdraw_lp(&"admin".to_string(), &vec![user.clone()]).unwrap();
    assert!(pair
        .withdraw_liquidity(LP_TOKEN.to_string(), user.clone(), minted.amounts.share)
        .is_ok());
}

#[test]
fn test_update_executor() {
    let mut pair = new_pair([native(ORAI_DENOM), token("asset0000")], Some("admin"));
    let operator = pair.query_operator();
    assert!(operator.is_empty());

    let error = pair
        .update_operator(&"addr".to_string(), Some("operator".to_string()))
        .unwrap_err();
    assert!(error.message().contains("Unauthorized"));

    pair.update_operator(&"admin".to_string(), Some("operator".to_string()))
        .unwrap();
    assert_eq!(pair.query_operator(), "operator".to_string());
}

#[test]
fn test_swap_with_operator_fee() {
    let asset_addr = "asset0000";
    let mut pair = new_pair([native(ORAI_DENOM), token(asset_addr)], Some("admin"));
    pair.provide_liquidity(
        MOCK_CONTRACT_ADDR.to_string(),
        [asset(token(asset_addr), 10000000), asset(native(ORAI_DENOM), 10000000)],
        coin(ORAI_DENOM, 10000000),
        None,
        None,
    )
    .unwrap();

    let info = pair.query_pair();
    assert_eq!(info.operator_fee, "0.001".to_string());
    assert_eq!(info.commission_rate, "0.003".to_string());

    // no operator yet: no operator fee
    let offer = asset(native(ORAI_DENOM), 100000);
    let res = pair
        .swap(MOCK_CONTRACT_ADDR.to_string(), offer.clone(), coin(ORAI_DENOM, 100000), None, None, None)
        .unwrap();
    assert_eq!(res.amounts.operator_fee_amount.to_string(), "0".to_string());
    assert_eq!(res.operator_payment, None);

    pair.update_operator(&"admin".to_string(), Some("operator".to_string()))
        .unwrap();

    let res = pair
        .swap(MOCK_CONTRACT_ADDR.to_string(), offer, coin(ORAI_DENOM, 100000), None, None, None)
        .unwrap();
    let operator_fee_amount = res.amounts.operator_fee_amount.to_string();
    assert_ne!(operator_fee_amount, "0".to_string());
    let (to, transfer_amount) = res.operator_payment.unwrap();
    assert_eq!(to, "operator".to_string());
    assert_eq!(transfer_amount.to_string(), operator_fee_amount);
    assert_eq!(res.amounts.operator_fee_amount, 97);
    assert_eq!(res.amounts.return_amount, 96683);
}

#[test]
fn operator_fee_scenario_on_fresh_pools() {
    let build = || {
        let mut pair = new_pair([native(ORAI_DENOM), native(ATOM_DENOM)], Some("admin"));
        let mut funds = coin(ORAI_DENOM, 10_000_000);
        funds.extend(coin(ATOM_DENOM, 10_000_000));
        pair.provide_liquidity(
            "lp".to_string(),
            [asset(native(ORAI_DENOM), 10_000_000), asset(native(ATOM_DENOM), 10_000_000)],
            funds,
            None,
            None,
        )
        .unwrap();
        pair
    };
    let offer = asset(native(ORAI_DENOM), 100_000);
    let mut without = build();
    let a = without
        .swap("t".to_string(), offer.clone(), coin(ORAI_DENOM, 100_000), None, None, None)
        .unwrap();
    assert_eq!(a.amounts.operator_fee_amount, 0);
    let mut with = build();
    with.update_operator(&"admin".to_string(), Some("operator".to_string())).unwrap();
    let b = with
        .swap("t".to_string(), offer, coin(ORAI_DENOM, 100_000), None, None, None)
        .unwrap();
    assert_eq!(b.amounts.operator_fee_amount, 99);
    assert_eq!(b.operator_payment, Some(("operator".to_string(), 99)));
}

#[test]
fn fee_terms_survive_admin_operations() {
    let mut pair = new_pair([native(ORAI_DENOM), token("asset0000")], Some("admin"));
    let before = pair.query_pair();
    pair.update_operator(&"admin".to_string(), Some("op".to_string())).unwrap();
    pair.enable_whitelist(&"admin".to_string(), true).unwrap();
    pair.register_trader(&"admin".to_string(), &vec!["x".to_string()]).unwrap();
    pair.update_operator(&"admin".to_string(), None).unwrap();
    let after = pair.query_pair();
    assert_eq!(after.commission_rate, before.commission_rate);
    assert_eq!(after.operator_fee, before.operator_fee);
    assert_eq!(after.commission_rate, DEFAULT_COMMISSION_RATE.to_string());
    assert_eq!(after.operator_fee, DEFAULT_OPERATOR_FEE.to_string());
}

#[test]
fn swap_errors() {
    let mut pair = new_pair([native(ORAI_DENOM), native(ATOM_DENOM)], None);
    let offer = asset(native(ORAI_DENOM), 100);
    // empty pool
    assert_eq!(
        pair.swap("t".to_string(), offer.clone(), coin(ORAI_DENOM, 100), None, None, None),
        Err(ContractError::OfferPoolIsZero)
    );
    // wrong asset
    assert_eq!(
        pair.swap("t".to_string(), asset(native("uusd"), 100), coin("uusd", 100), None, None, None),
        Err(ContractError::AssetMismatch)
    );
    // zero offer
    assert_eq!(
        pair.swap("t".to_string(), asset(native(ORAI_DENOM), 0), vec![], None, None, None),
        Err(ContractError::InvalidZeroAmount)
    );
    // funds do not back the offer
    assert_eq!(
        pair.swap("t".to_string(), offer.clone(), coin(ORAI_DENOM, 99), None, None, None),
        Err(ContractError::InvalidFunds)
    );
    // deposit with an asset the pair does not hold
    assert_eq!(
        pair.provide_liquidity(
            "t".to_string(),
            [asset(native(ORAI_DENOM), 100), asset(native("uusd"), 100)],
            {
                let mut f = coin(ORAI_DENOM, 100);
                f.extend(coin("uusd", 100));
                f
            },
            None,
            None
        ),
        Err(ContractError::AssetMismatch)
    );
}

#[test]
fn max_spread_is_enforced() {
    let mut pair = new_pair([native(ORAI_DENOM), native(ATOM_DENOM)], None);
    let mut funds = coin(ORAI_DENOM, 1000);
    funds.extend(coin(ATOM_DENOM, 1000));
    pair.provide_liquidity(
        "lp".to_string(),
        [asset(native(ORAI_DENOM), 1000), asset(native(ATOM_DENOM), 1000)],
        funds,
        None,
        None,
    )
    .unwrap();
    let offer = asset(native(ORAI_DENOM), 100);
    let one_percent: u128 = 10_000_000_000_000_000;
    let before = pair.pool;
    // a 100-for-1000 trade moves the price by about ten percent
    assert_eq!(
        pair.swap("t".to_string(), offer.clone(), coin(ORAI_DENOM, 100), None, Some(one_percent), None),
        Err(ContractError::MaxSpreadAssertion)
    );
    assert_eq!(pair.pool, before);
    // believing in a price of one, with a 20% bound, passes
    assert!(pair
        .swap(
            "t".to_string(),
            offer,
            coin(ORAI_DENOM, 100),
            Some(1_000_000_000_000_000_000),
            Some(20 * one_percent),
            Some("receiver".to_string())
        )
        .is_ok());
}

#[test]
fn instantiate_rates() {
    let pair = new_pair([native(ORAI_DENOM), token("asset0000")], None);
    assert_eq!(pair.info.commission_rate, DEFAULT_COMMISSION_RATE.to_string());
    assert_eq!(pair.info.operator_fee, DEFAULT_OPERATOR_FEE.to_string());
    let bad = Pair::instantiate(
        PairInstantiateMsg {
            oracle_addr: "oracle0000".to_string(),
            asset_infos: [native(ORAI_DENOM), token("asset0000")],
            token_code_id: 1,
            commission_rate: Some("not a rate".to_string()),
            admin: None,
            operator_fee: None,
            operator: None,
        },
        PAIR_ADDR.to_string(),
        LP_TOKEN.to_string(),
    );
    assert!(matches!(bad, Err(ContractError::Std { .. })));
}

#[test]
fn pair_dispatch() {
    let mut pair = new_pair([native(ORAI_DENOM), native(ATOM_DENOM)], Some("admin"));
    let mut funds = coin(ORAI_DENOM, 1000);
    funds.extend(coin(ATOM_DENOM, 1000));
    let out = pair
        .execute(
            "lp".to_string(),
            funds,
            PairExecuteMsg::ProvideLiquidity {
                assets: [asset(native(ORAI_DENOM), 1000), asset(native(ATOM_DENOM), 1000)],
                slippage_tolerance: None,
                receiver: None,
            },
        )
        .unwrap();
    assert!(matches!(out, PairOutcome::Provided(ref o) if o.amounts.share == 1000));
    assert_eq!(
        pair.execute("x".to_string(), vec![], PairExecuteMsg::EnableWhitelist { status: true }),
        Err(ContractError::Unauthorized)
    );
    assert_eq!(
        pair.execute("admin".to_string(), vec![], PairExecuteMsg::EnableWhitelist { status: true }),
        Ok(PairOutcome::Updated)
    );
    assert_eq!(
        pair.execute(
            "t".to_string(),
            coin(ORAI_DENOM, 100),
            PairExecuteMsg::Swap {
                offer_asset: asset(native(ORAI_DENOM), 100),
                belief_price: None,
                max_spread: None,
                to: None
            }
        ),
        Err(ContractError::PoolWhitelisted)
    );
    let out = pair
        .execute(
            LP_TOKEN.to_string(),
            vec![],
            PairExecuteMsg::WithdrawLiquidity { owner: "lp".to_string(), amount: 1000 },
        );
    assert_eq!(out, Err(ContractError::PoolWhitelisted));
}
