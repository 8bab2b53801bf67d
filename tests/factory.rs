use oraiswap::asset::{pair_key, Asset, AssetInfo, Coin};
use oraiswap::error::ContractError;
use oraiswap::factory::{
    reply_address, Factory, FactoryMsg, InstantiateMsg, ProvideLiquidityParams,
    INSTANTIATE_REPLY_ID,
};
use oraiswap::msg::{ExecuteMsg, QueryAnswer, QueryMsg};
use oraiswap::pair::{Pair, PairInfo, DEFAULT_COMMISSION_RATE, DEFAULT_OPERATOR_FEE};

const APP_OWNER: &str = "owner";
const FACTORY_ADDR: &str = "factory0000";
const ORACLE_ADDR: &str = "oracle0000";

fn token(addr: &str) -> AssetInfo {
    AssetInfo::Token { contract_addr: addr.to_string() }
}

fn native(denom: &str) -> AssetInfo {
    AssetInfo::NativeToken { denom: denom.to_string() }
}

fn new_factory() -> Factory {
    Factory::instantiate(
        APP_OWNER.to_string(),
        InstantiateMsg {
            pair_code_id: 2,
            token_code_id: 1,
            oracle_addr: ORACLE_ADDR.to_string(),
            commission_rate: None,
            operator_fee: None,
            operator: None,
        },
    )
}

/// The protobuf acknowledgement of an instantiation at `addr`.
fn instantiate_ack(addr: &str) -> Vec<u8> {
    let mut data = vec![0x0a, addr.len() as u8];
    data.extend_from_slice(addr.as_bytes());
    data
}

/// Creates a pair through the factory and completes the handshake; returns
/// the new pair.
fn create_and_register(
    factory: &mut Factory,
    sender: &str,
    asset_infos: [AssetInfo; 2],
    pair_addr: &str,
) -> Pair {
    let outcome = factory
        .execute_create_pair(
            sender.to_string(),
            FACTORY_ADDR.to_string(),
            asset_infos,
            None,
            None,
            vec![],
        )
        .unwrap();
    let msg = match outcome.instantiate {
        FactoryMsg::InstantiatePair { msg, reply_id, code_id, .. } => {
            assert_eq!(reply_id, INSTANTIATE_REPLY_ID);
            assert_eq!(code_id, 2);
            msg
        }
        other => panic!("unexpected message {:?}", other),
    };
    let pair = Pair::instantiate(msg, pair_addr.to_string(), format!("{}_lp", pair_addr)).unwrap();
    let addr = reply_address(INSTANTIATE_REPLY_ID, &instantiate_ack(pair_addr)).unwrap();
    assert_eq!(addr, pair_addr.to_string());
    let reported = pair.query_pair();
    factory
        .reply(addr, &reported.asset_infos, reported.liquidity_token)
        .unwrap();
    pair
}

#[test]
fn create_pair() {
    let mut factory = new_factory();
    let asset_infos = [token("assetC"), token("assetD")];

    let outcome = factory
        .execute_create_pair(
            APP_OWNER.to_string(),
            FACTORY_ADDR.to_string(),
            asset_infos.clone(),
            None,
            None,
            vec![],
        )
        .unwrap();
    assert!(outcome.messages.is_empty());
    // a deposit along with the creation: pulls, then the factory's own deposit
    let mut other = new_factory();
    let params = ProvideLiquidityParams {
        assets: [
            Asset { info: token("assetC"), amount: 1000000 },
            Asset { info: token("assetD"), amount: 1000000 },
        ],
        receiver: None,
    };
    let with_deposit = other
        .execute_create_pair(
            APP_OWNER.to_string(),
            FACTORY_ADDR.to_string(),
            asset_infos.clone(),
            None,
            Some(params.clone()),
            vec![],
        )
        .unwrap();
    assert_eq!(with_deposit.messages.len(), 3);
    assert_eq!(
        with_deposit.messages[0],
        FactoryMsg::TransferFrom {
            token: "assetC".to_string(),
            owner: APP_OWNER.to_string(),
            recipient: FACTORY_ADDR.to_string(),
            amount: 1000000,
        }
    );

    let msg = match outcome.instantiate {
        FactoryMsg::InstantiatePair { msg, .. } => msg,
        other => panic!("unexpected message {:?}", other),
    };
    let pair = Pair::instantiate(msg, "contract3".to_string(), "contract4".to_string()).unwrap();
    let contract_addr = reply_address(INSTANTIATE_REPLY_ID, &instantiate_ack("contract3")).unwrap();
    factory
        .reply(contract_addr.clone(), &pair.query_pair().asset_infos, pair.query_pair().liquidity_token)
        .unwrap();

    // the pair's operator is the factory's
    let config = pair.query_operator();
    let factory_config = factory.query_config();
    assert_eq!(config, factory_config.operator);

    // the fee terms never change once deployed
    let pair_res = factory.query_pair(&asset_infos).unwrap();
    assert_eq!(
        pair_res,
        PairInfo {
            oracle_addr: ORACLE_ADDR.to_string(),
            liquidity_token: pair.query_pair().liquidity_token,
            contract_addr,
            asset_infos,
            commission_rate: DEFAULT_COMMISSION_RATE.into(),
            operator_fee: DEFAULT_OPERATOR_FEE.to_string()
        }
    );
}

#[test]
fn create_pair_restricted() {
    let denom_1 = "factory/orai1token/token1";
    let denom_2 = "factory/orai1hehe/token2";
    let mut factory = new_factory();
    let asset_infos = [native(denom_1), native(denom_2)];

    factory
        .execute_restrict_asset(&APP_OWNER.to_string(), "factory/orai1token".to_string())
        .unwrap();
    let restrict_prefix = factory.query_restricted_assets();
    assert_eq!(restrict_prefix.len(), 1);

    // create pair failed
    factory
        .execute_create_pair(
            "user1".to_string(),
            FACTORY_ADDR.to_string(),
            asset_infos.clone(),
            None,
            None,
            vec![],
        )
        .unwrap_err();

    factory
        .add_creator(&APP_OWNER.to_string(), APP_OWNER.to_string())
        .unwrap();
    let creators = factory.get_creators();
    assert_eq!(creators.len(), 1);
    assert_eq!(creators[0].to_string(), APP_OWNER.to_string());

    let pair = create_and_register(&mut factory, APP_OWNER, asset_infos.clone(), "contract3");
    let config = pair.query_operator();
    let factory_config = factory.query_config();
    assert_eq!(config, factory_config.operator);

    let pair_res = factory.query_pair(&asset_infos).unwrap();
    assert_eq!(
        pair_res,
        PairInfo {
            oracle_addr: ORACLE_ADDR.to_string(),
            liquidity_token: pair.query_pair().liquidity_token,
            contract_addr: "contract3".to_string(),
            asset_infos,
            commission_rate: DEFAULT_COMMISSION_RATE.into(),
            operator_fee: DEFAULT_OPERATOR_FEE.to_string()
        }
    );
}

#[test]
fn add_pair() {
    let mut factory = new_factory();
    let asset_infos = [token("assetA"), token("assetB")];
    let pair_info = PairInfo {
        oracle_addr: ORACLE_ADDR.to_string(),
        liquidity_token: "liquidity_token".to_string(),
        contract_addr: "contract_addr".to_string(),
        asset_infos: asset_infos.clone(),
        commission_rate: DEFAULT_COMMISSION_RATE.into(),
        operator_fee: DEFAULT_OPERATOR_FEE.to_string(),
    };
    factory
        .execute_add_pair_manually(&APP_OWNER.to_string(), pair_info.clone())
        .unwrap();
    let pair_res = factory.query_pair(&asset_infos).unwrap();
    assert_eq!(pair_res, pair_info);
    assert_eq!(
        factory.execute_add_pair_manually(&"someone".to_string(), pair_info.clone()),
        Err(ContractError::Unauthorized)
    );
    assert_eq!(
        factory.execute_add_pair_manually(&APP_OWNER.to_string(), pair_info),
        Err(ContractError::PairExisted)
    );
}

#[test]
fn create_pair_twice_in_either_order() {
    let mut factory = new_factory();
    factory
        .execute_create_pair(
            "anyone".to_string(),
            FACTORY_ADDR.to_string(),
            [token("a"), native("b")],
            None,
            None,
            vec![],
        )
        .unwrap();
    for infos in [[token("a"), native("b")], [native("b"), token("a")]] {
        assert_eq!(
            factory.execute_create_pair(
                "anyone".to_string(),
                FACTORY_ADDR.to_string(),
                infos,
                None,
                None,
                vec![],
            ),
            Err(ContractError::PairExisted)
        );
    }
    assert_eq!(factory.pairs.len(), 1);
}

#[test]
fn pair_key_ignores_order() {
    let a = pair_key(&[token("asset1"), native("orai")]);
    let b = pair_key(&[native("orai"), token("asset1")]);
    assert_eq!(a, b);
    assert_eq!(a, b"asset1orai".to_vec());
}

#[test]
fn registration_is_write_once() {
    let mut factory = new_factory();
    let infos = [token("x"), token("y")];
    let pair = create_and_register(&mut factory, "anyone", infos.clone(), "contract7");
    let info = pair.query_pair();
    assert_eq!(
        factory.reply("contract8".to_string(), &info.asset_infos, info.liquidity_token.clone()),
        Err(ContractError::PairRegistered)
    );
    assert_eq!(
        factory.reply("contract9".to_string(), &[token("p"), token("q")], "lp".to_string()),
        Err(ContractError::NotFound)
    );
    assert_eq!(factory.query_pair(&infos).unwrap().contract_addr, "contract7".to_string());
}

#[test]
fn reply_needs_the_factory_tag_and_valid_data() {
    assert!(matches!(
        reply_address(7, &instantiate_ack("contract1")),
        Err(ContractError::Std { .. })
    ));
    assert!(matches!(
        reply_address(INSTANTIATE_REPLY_ID, &vec![0x12, 0x01, 0x41]),
        Err(ContractError::Std { .. })
    ));
    assert_eq!(
        reply_address(INSTANTIATE_REPLY_ID, &instantiate_ack("orai1pair")),
        Ok("orai1pair".to_string())
    );
}

#[test]
fn pending_pair_reports_no_address() {
    let mut factory = new_factory();
    let infos = [token("x"), native("y")];
    factory
        .execute_create_pair("c".to_string(), FACTORY_ADDR.to_string(), infos.clone(), None, None, vec![])
        .unwrap();
    let info = factory.query_pair(&infos).unwrap();
    assert!(info.contract_addr.is_empty());
    assert!(info.liquidity_token.is_empty());
    assert_eq!(factory.query_pair(&[token("x"), native("z")]), Err(ContractError::NotFound));
}

#[test]
fn creators_and_prefixes() {
    let mut factory = new_factory();
    let owner = APP_OWNER.to_string();
    assert_eq!(
        factory.add_creator(&"user".to_string(), "c1".to_string()),
        Err(ContractError::Unauthorized)
    );
    factory.add_creator(&owner, "c1".to_string()).unwrap();
    assert_eq!(
        factory.add_creator(&owner, "c1".to_string()),
        Err(ContractError::CreatorAlreadyExists)
    );
    factory.remove_creator(&owner, &"c1".to_string()).unwrap();
    assert!(factory.get_creators().is_empty());
    assert_eq!(
        factory.remove_creator(&owner, &"c1".to_string()),
        Err(ContractError::CreatorNotFound)
    );
    factory.execute_restrict_asset(&owner, "factory/abc".to_string()).unwrap();
    assert_eq!(
        factory.execute_restrict_asset(&owner, "factory/abc".to_string()),
        Err(ContractError::RestrictPrefixExisted)
    );
    // a denom under the prefix needs a creator; one with fewer segments does not
    assert_eq!(
        factory.execute_create_pair(
            "user".to_string(),
            FACTORY_ADDR.to_string(),
            [native("factory/abc/x"), native("orai")],
            None,
            None,
            vec![]
        ),
        Err(ContractError::Unauthorized)
    );
    assert!(factory
        .execute_create_pair(
            "user".to_string(),
            FACTORY_ADDR.to_string(),
            [native("factory/abc"), native("orai")],
            None,
            None,
            vec![]
        )
        .is_ok());
}

#[test]
fn pairs_are_listed_in_key_order() {
    let mut factory = new_factory();
    for (a, b) in [("d", "e"), ("a", "b"), ("c", "d"), ("b", "c")] {
        factory
            .execute_create_pair(
                "u".to_string(),
                FACTORY_ADDR.to_string(),
                [token(a), token(b)],
                None,
                None,
                vec![],
            )
            .unwrap();
    }
    let all = factory.query_pairs(None, None).pairs;
    let firsts: Vec<String> = all
        .iter()
        .map(|p| p.asset_infos[0].id().clone())
        .collect();
    assert_eq!(firsts, vec!["a", "b", "c", "d"]);
    let page = factory.query_pairs(Some([token("c"), token("b")]), Some(1)).pairs;
    assert_eq!(page.len(), 1);
    assert_eq!(page[0].asset_infos[0], token("c"));
    let rest = factory.query_pairs(Some([token("b"), token("c")]), Some(100)).pairs;
    assert_eq!(rest.len(), 2);
}

#[test]
fn config_is_owner_only() {
    let mut factory = new_factory();
    assert_eq!(
        factory.execute_update_config(&"x".to_string(), None, Some(5), None),
        Err(ContractError::Unauthorized)
    );
    factory
        .execute_update_config(&APP_OWNER.to_string(), Some("new".to_string()), Some(5), None)
        .unwrap();
    let c = factory.query_config();
    assert_eq!(c.owner, "new".to_string());
    assert_eq!(c.token_code_id, 5);
    assert_eq!(c.pair_code_id, 2);
    assert_eq!(
        factory.migrate_pair(&APP_OWNER.to_string(), "p".to_string(), 3, vec![]),
        Err(ContractError::Unauthorized)
    );
    assert_eq!(
        factory.migrate_pair(&"new".to_string(), "p".to_string(), 3, vec![1]),
        Ok(FactoryMsg::Migrate { contract_addr: "p".to_string(), new_code_id: 3, msg: vec![1] })
    );
}

#[test]
fn factory_deposit_passthrough() {
    let mut factory = new_factory();
    let infos = [native("orai"), token("asset0")];
    create_and_register(&mut factory, "u", infos.clone(), "contract3");
    let assets = [
        Asset { info: native("orai"), amount: 100 },
        Asset { info: token("asset0"), amount: 200 },
    ];
    assert_eq!(
        factory.execute_provide_liquidity(&"u".to_string(), &FACTORY_ADDR.to_string(), assets.clone(), "u".to_string()),
        Err(ContractError::Unauthorized)
    );
    let msgs = factory
        .execute_provide_liquidity(
            &FACTORY_ADDR.to_string(),
            &FACTORY_ADDR.to_string(),
            assets.clone(),
            "u".to_string(),
        )
        .unwrap();
    assert_eq!(
        msgs,
        vec![
            FactoryMsg::IncreaseAllowance {
                token: "asset0".to_string(),
                spender: "contract3".to_string(),
                amount: 200
            },
            FactoryMsg::PairProvideLiquidity {
                pair: "contract3".to_string(),
                assets,
                receiver: "u".to_string(),
                funds: vec![Coin { denom: "orai".to_string(), amount: 100 }],
            },
        ]
    );
}

#[test]
fn dispatch_and_queries() {
    let mut factory = new_factory();
    let out = factory
        .execute(
            "u".to_string(),
            FACTORY_ADDR.to_string(),
            vec![],
            ExecuteMsg::CreatePair {
                asset_infos: [token("m"), token("n")],
                pair_admin: Some("admin".to_string()),
                operator: None,
                provide_liquidity: None,
            },
        )
        .unwrap();
    assert_eq!(out.len(), 1);
    assert_eq!(
        factory.execute(
            "u".to_string(),
            FACTORY_ADDR.to_string(),
            vec![],
            ExecuteMsg::AddCreator { address: "u".to_string() }
        ),
        Err(ContractError::Unauthorized)
    );
    match factory.query(QueryMsg::Pairs { start_after: None, limit: None }).unwrap() {
        QueryAnswer::Pairs(p) => assert_eq!(p.pairs.len(), 1),
        other => panic!("unexpected answer {:?}", other),
    }
    assert_eq!(
        factory.query(QueryMsg::Pair { asset_infos: [token("x"), token("y")] }),
        Err(ContractError::NotFound)
    );
}

#[test]
fn default_rates_after_instantiate_and_migrate() {
    let mut factory = new_factory();
    let c = factory.query_config();
    assert_eq!(c.commission_rate, "0.003".to_string());
    assert_eq!(c.operator_fee, "0.001".to_string());
    assert_eq!(c.operator, APP_OWNER.to_string());
    factory.migrate(oraiswap::factory::MigrateMsg {
        owner: "o2".to_string(),
        pair_code_id: 9,
        token_code_id: 8,
        oracle_addr: "oracle2".to_string(),
        commission_rate: Some("0.01".to_string()),
        operator_fee: None,
        operator: "op2".to_string(),
    });
    let c = factory.query_config();
    assert_eq!(c.commission_rate, "0.01".to_string());
    assert_eq!(c.operator_fee, DEFAULT_OPERATOR_FEE.to_string());
    assert_eq!(c.owner, "o2".to_string());
    assert_eq!(c.pair_code_id, 9);
}

#[test]
fn add_then_remove_creator_restores_list() {
    let mut factory = new_factory();
    let owner = APP_OWNER.to_string();
    factory.add_creator(&owner, "c1".to_string()).unwrap();
    factory.add_creator(&owner, "c2".to_string()).unwrap();
    let before = factory.get_creators();
    factory.add_creator(&owner, "c3".to_string()).unwrap();
    factory.remove_creator(&owner, &"c3".to_string()).unwrap();
    assert_eq!(factory.get_creators(), before);
    factory.remove_creator(&owner, &"c1".to_string()).unwrap();
    assert_eq!(factory.get_creators(), vec!["c2".to_string()]);
}
