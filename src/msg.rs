//! The factory's messages, and their dispatch onto its operations.
use vstd::prelude::*;

use crate::asset::{Asset, AssetInfo, Coin};
use crate::error::ContractError;
use crate::factory::{
    add_creator_post, add_pair_post, config_reports, create_pair_post, migrate_pair_post,
    provide_passthrough_post, query_pair_post, query_pairs_post, remove_creator_post,
    restrict_asset_post, update_config_post, ConfigResponse, Factory, FactoryMsg, PairsResponse,
    ProvideLiquidityParams,
};
use crate::pair::PairInfo;

verus! {

/// An operation asked of the factory.
#[derive(Clone, Debug, PartialEq, Eq)]
pub enum ExecuteMsg {
    UpdateConfig { owner: Option<String>, token_code_id: Option<u64>, pair_code_id: Option<u64> },
    CreatePair {
        asset_infos: [AssetInfo; 2],
        pair_admin: Option<String>,
        operator: Option<String>,
        provide_liquidity: Option<ProvideLiquidityParams>,
    },
    AddPair { pair_info: PairInfo },
    MigrateContract { contract_addr: String, new_code_id: u64, msg: Vec<u8> },
    ProvideLiquidity { assets: [Asset; 2], receiver: String },
    RestrictAsset { prefix: String },
    AddCreator { address: String },
    RemoveCreator { address: String },
}

/// A question asked of the factory.
#[derive(Clone, Debug, PartialEq, Eq)]
pub enum QueryMsg {
    Config,
    Pair { asset_infos: [AssetInfo; 2] },
    Pairs { start_after: Option<[AssetInfo; 2]>, limit: Option<u32> },
    RestrictedAssets,
    GetCreators,
}

/// The factory's answer to a question.
#[derive(Clone, Debug, PartialEq, Eq)]
pub enum QueryAnswer {
    Config(ConfigResponse),
    Pair(PairInfo),
    Pairs(PairsResponse),
    RestrictedAssets(Vec<String>),
    Creators(Vec<String>),
}

/// The outcome of an operation that sends no message.
pub open spec fn unit_result(r: Result<Vec<FactoryMsg>, ContractError>) -> Result<(), ContractError> {
    match r {
        Ok(_) => Ok(()),
        Err(e) => Err(e),
    }
}

/// A successful operation sends no message.
pub open spec fn no_messages(r: Result<Vec<FactoryMsg>, ContractError>) -> bool {
    match r {
        Ok(v) => v@.len() == 0,
        Err(_) => true,
    }
}

/// What running `msg`, sent by `sender` with `funds` to the factory at
/// `contract_addr`, does: each message as the operation it names.
pub open spec fn execute_post(
    pre: Factory,
    post: Factory,
    sender: String,
    contract_addr: String,
    funds: Vec<Coin>,
    msg: ExecuteMsg,
    r: Result<Vec<FactoryMsg>, ContractError>,
) -> bool {
    match msg {
        ExecuteMsg::UpdateConfig { owner, token_code_id, pair_code_id } => update_config_post(
            pre,
            post,
            sender,
            owner,
            token_code_id,
            pair_code_id,
            unit_result(r),
        ) && no_messages(r),
        ExecuteMsg::CreatePair { asset_infos, pair_admin, provide_liquidity, .. } => {
            &&& create_pair_post(
                pre,
                post,
                sender,
                contract_addr,
                asset_infos,
                pair_admin,
                provide_liquidity,
                funds,
                match r {
                    Ok(v) => Ok((v@[0], v@.drop_first())),
                    Err(e) => Err(e),
                },
            )
            &&& (match r {
                Ok(v) => v@.len() >= 1,
                Err(_) => true,
            })
        },
        ExecuteMsg::AddPair { pair_info } => add_pair_post(pre, post, sender, pair_info, unit_result(r))
            && no_messages(r),
        ExecuteMsg::MigrateContract { contract_addr: target, new_code_id, msg: payload } => {
            &&& migrate_pair_post(
                pre,
                sender,
                target,
                new_code_id,
                payload,
                match r {
                    Ok(v) => Ok(v@[0]),
                    Err(e) => Err(e),
                },
            )
            &&& (match r {
                Ok(v) => v@.len() == 1,
                Err(_) => true,
            })
            &&& post == pre
        },
        ExecuteMsg::ProvideLiquidity { assets, receiver } => provide_passthrough_post(
            pre,
            sender,
            contract_addr,
            assets,
            receiver,
            r,
        ) && post == pre,
        ExecuteMsg::RestrictAsset { prefix } => restrict_asset_post(pre, post, sender, prefix, unit_result(r))
            && no_messages(r),
        ExecuteMsg::AddCreator { address } => add_creator_post(pre, post, sender, address, unit_result(r))
            && no_messages(r),
        ExecuteMsg::RemoveCreator { address } => remove_creator_post(
            pre,
            post,
            sender,
            address,
            unit_result(r),
        ) && no_messages(r),
    }
}

/// What the factory `f` answers to `msg`.
pub open spec fn query_answer_post(f: Factory, msg: QueryMsg, r: Result<QueryAnswer, ContractError>) -> bool {
    match msg {
        QueryMsg::Config => match r {
            Ok(QueryAnswer::Config(c)) => config_reports(f, c),
            _ => false,
        },
        QueryMsg::Pair { asset_infos } => match r {
            Ok(QueryAnswer::Pair(p)) => query_pair_post(f, asset_infos, Ok(p)),
            Err(e) => query_pair_post(f, asset_infos, Err(e)),
            _ => false,
        },
        QueryMsg::Pairs { start_after, limit } => match r {
            Ok(QueryAnswer::Pairs(p)) => query_pairs_post(f, start_after, limit, p),
            _ => false,
        },
        QueryMsg::RestrictedAssets => match r {
            Ok(QueryAnswer::RestrictedAssets(v)) => v@ == f.restricted_prefixes@,
            _ => false,
        },
        QueryMsg::GetCreators => match r {
            Ok(QueryAnswer::Creators(v)) => v@ == f.creators@,
            _ => false,
        },
    }
}

impl Factory {
    /// Runs `msg`, sent by `sender` with `funds` to the factory at
    /// `contract_addr`, and returns the messages it asks the chain to deliver.
    pub fn execute(&mut self, sender: String, contract_addr: String, funds: Vec<Coin>, msg: ExecuteMsg) -> (r:
        Result<Vec<FactoryMsg>, ContractError>)
        requires
            old(self).wf(),
        ensures
            final(self).wf(),
            r is Err ==> *final(self) == *old(self),
            execute_post(*old(self), *final(self), sender, contract_addr, funds, msg, r),
    {
        match msg {
            ExecuteMsg::UpdateConfig { owner, token_code_id, pair_code_id } => {
                match self.execute_update_config(&sender, owner, token_code_id, pair_code_id) {
                    Ok(()) => Ok(Vec::new()),
                    Err(e) => Err(e),
                }
            },
            ExecuteMsg::CreatePair { asset_infos, pair_admin, operator: _, provide_liquidity } => {
                match self.execute_create_pair(
                    sender,
                    contract_addr,
                    asset_infos,
                    pair_admin,
                    provide_liquidity,
                    funds,
                ) {
                    Ok(o) => {
                        let mut out: Vec<FactoryMsg> = Vec::new();
                        out.push(o.instantiate);
                        let mut rest = o.messages;
                        out.append(&mut rest);
                        assert(out@.drop_first() =~= o.messages@);
                        Ok(out)
                    },
                    Err(e) => Err(e),
                }
            },
            ExecuteMsg::AddPair { pair_info } => match self.execute_add_pair_manually(&sender, pair_info) {
                Ok(()) => Ok(Vec::new()),
                Err(e) => Err(e),
            },
            ExecuteMsg::MigrateContract { contract_addr: target, new_code_id, msg } => {
                match self.migrate_pair(&sender, target, new_code_id, msg) {
                    Ok(m) => {
                        let mut out: Vec<FactoryMsg> = Vec::new();
                        out.push(m);
                        Ok(out)
                    },
                    Err(e) => Err(e),
                }
            },
            ExecuteMsg::ProvideLiquidity { assets, receiver } => {
                self.execute_provide_liquidity(&sender, &contract_addr, assets, receiver)
            },
            ExecuteMsg::RestrictAsset { prefix } => match self.execute_restrict_asset(&sender, prefix) {
                Ok(()) => Ok(Vec::new()),
                Err(e) => Err(e),
            },
            ExecuteMsg::AddCreator { address } => match self.add_creator(&sender, address) {
                Ok(()) => Ok(Vec::new()),
                Err(e) => Err(e),
            },
            ExecuteMsg::RemoveCreator { address } => match self.remove_creator(&sender, &address) {
                Ok(()) => Ok(Vec::new()),
                Err(e) => Err(e),
            },
        }
    }

    /// Answers `msg`.
    pub fn query(&self, msg: QueryMsg) -> (r: Result<QueryAnswer, ContractError>)
        requires
            self.wf(),
        ensures
            query_answer_post(*self, msg, r),
    {
        match msg {
            QueryMsg::Config => Ok(QueryAnswer::Config(self.query_config())),
            QueryMsg::Pair { asset_infos } => match self.query_pair(&asset_infos) {
                Ok(info) => Ok(QueryAnswer::Pair(info)),
                Err(e) => Err(e),
            },
            QueryMsg::Pairs { start_after, limit } => Ok(
                QueryAnswer::Pairs(self.query_pairs(start_after, limit)),
            ),
            QueryMsg::RestrictedAssets => Ok(QueryAnswer::RestrictedAssets(self.query_restricted_assets())),
            QueryMsg::GetCreators => Ok(QueryAnswer::Creators(self.get_creators())),
        }
    }
}

} // verus!
