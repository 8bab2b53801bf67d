//! The pair engine: one pool of two assets, its fee terms, its admin and
//! operator, and its optional allow-lists.
use vstd::prelude::*;

use crate::asset::{Asset, AssetInfo, Coin};
use crate::error::ContractError;
use crate::names::{add_names, contains_name, holds};
use crate::pool::{
    apply_rate, decimal_atomics, parse_decimal, pool_provide_error, provide_amounts, swap_spec,
    withdraw_spec, PoolState, ProvideAmounts, SwapAmounts, WithdrawAmounts, DECIMAL_FRACTIONAL,
    mul_div_floor_spec, checked_mul_div,
};

verus! {

/// The commission rate of a pair whose creator names none.
pub const DEFAULT_COMMISSION_RATE: &'static str = "0.003";

/// The operator fee rate of a pair whose creator names none.
pub const DEFAULT_OPERATOR_FEE: &'static str = "0.001";

/// What a pair is, as the factory and the pair itself report it.
#[derive(Clone, Debug, PartialEq, Eq)]
pub struct PairInfo {
    pub asset_infos: [AssetInfo; 2],
    pub contract_addr: String,
    pub liquidity_token: String,
    pub oracle_addr: String,
    pub commission_rate: String,
    pub operator_fee: String,
}

/// What a new pair is made from.
#[derive(Clone, Debug, PartialEq, Eq)]
pub struct PairInstantiateMsg {
    pub oracle_addr: String,
    pub asset_infos: [AssetInfo; 2],
    pub token_code_id: u64,
    pub commission_rate: Option<String>,
    pub admin: Option<String>,
    pub operator_fee: Option<String>,
    pub operator: Option<String>,
}

/// A pair's state.
#[derive(Clone, Debug)]
pub struct Pair {
    pub info: PairInfo,
    pub admin: Option<String>,
    pub operator: Option<String>,
    /// The commission rate, in atomics, as parsed from `info.commission_rate`.
    pub commission_atomics: u128,
    /// The operator fee rate, in atomics, as parsed from `info.operator_fee`.
    pub operator_fee_atomics: u128,
    pub whitelist_enabled: bool,
    pub traders: Vec<String>,
    pub withdraw_providers: Vec<String>,
    pub pool: PoolState,
}

/// The result of a deposit: the accounting, and the token pulls it asks for.
#[derive(Clone, Debug, PartialEq, Eq)]
pub struct ProvideOutcome {
    pub amounts: ProvideAmounts,
    /// Who receives the minted shares.
    pub receiver: String,
    /// The token portions to pull from the depositor into the pair.
    pub token_pulls: Vec<Asset>,
}

/// The result of a withdrawal: the accounting, and what goes back to the owner.
#[derive(Clone, Debug, PartialEq, Eq)]
pub struct WithdrawOutcome {
    pub amounts: WithdrawAmounts,
    /// Who the refunds go to.
    pub recipient: String,
    /// The refunds, in the pair's asset order.
    pub refund_assets: Vec<Asset>,
    /// The shares to burn.
    pub burn_amount: u128,
}

/// The result of a swap: the accounting and where the outputs go.
#[derive(Clone, Debug, PartialEq, Eq)]
pub struct SwapOutcome {
    pub amounts: SwapAmounts,
    /// The asset paid out.
    pub ask_info: AssetInfo,
    /// Who receives the return.
    pub receiver: String,
    /// The operator and the fee paid to it; absent where the pair has no operator.
    pub operator_payment: Option<(String, u128)>,
}

/// The amount of the first coin of `denom` among `funds`, if any.
pub open spec fn sent_amount(funds: Seq<Coin>, denom: Seq<char>) -> Option<u128>
    decreases funds.len(),
{
    if funds.len() == 0 {
        None
    } else if funds[0].denom@ == denom {
        Some(funds[0].amount)
    } else {
        sent_amount(funds.drop_first(), denom)
    }
}

/// A native asset is backed by exactly its amount among the attached funds.
pub open spec fn funds_match(asset: Asset, funds: Seq<Coin>) -> bool {
    asset.info@.0 ==> match sent_amount(funds, asset.info@.1) {
        Some(a) => a == asset.amount,
        None => asset.amount == 0,
    }
}

/// The amount that `assets` offer of `info`, the first match winning.
pub open spec fn deposit_for(assets: Seq<Asset>, info: (bool, Seq<char>)) -> Option<u128> {
    if assets[0].info@ == info {
        Some(assets[0].amount)
    } else if assets[1].info@ == info {
        Some(assets[1].amount)
    } else {
        None
    }
}

/// The text of a rate that was given, or else of the default.
pub open spec fn rate_or_default(rate: Option<String>, default: Seq<char>) -> Seq<char> {
    match rate {
        Some(r) => r@,
        None => default,
    }
}

/// The asset, where it is a token that must be pulled from the depositor.
pub open spec fn token_part(a: Asset) -> Seq<Asset> {
    if a.info@.0 {
        seq![]
    } else {
        seq![a]
    }
}

/// `who` passes the allow-list `list`.
pub open spec fn allowed(enabled: bool, list: Seq<String>, who: Seq<char>) -> bool {
    !enabled || holds(list, who)
}

/// The quoted spread exceeds what the trader accepts. With a belief price,
/// the spread is measured against the return that price promises; without
/// one, against the return plus the pool's own spread.
pub open spec fn spread_violated(
    belief_price: Option<u128>,
    max_spread: Option<u128>,
    offer_amount: u128,
    return_amount: u128,
    spread_amount: u128,
) -> bool {
    match (max_spread, belief_price) {
        (Some(ms), Some(bp)) => {
            let expected = mul_div_floor_spec(
                offer_amount as int,
                DECIMAL_FRACTIONAL as int,
                bp as int,
            );
            bp == 0 || expected > u128::MAX || (return_amount < expected && mul_div_floor_spec(
                expected - return_amount,
                DECIMAL_FRACTIONAL as int,
                expected,
            ) > ms)
        },
        (Some(ms), None) => return_amount + spread_amount > 0 && mul_div_floor_spec(
            spread_amount as int,
            DECIMAL_FRACTIONAL as int,
            return_amount + spread_amount,
        ) > ms,
        _ => false,
    }
}

/// Checks a swap's quote against the trader's price belief and spread bound.
pub fn assert_max_spread(
    belief_price: Option<u128>,
    max_spread: Option<u128>,
    offer_amount: u128,
    return_amount: u128,
    spread_amount: u128,
) -> (r: Result<(), ContractError>)
    requires
        return_amount + spread_amount <= u128::MAX,
    ensures
        r is Err <==> spread_violated(
            belief_price,
            max_spread,
            offer_amount,
            return_amount,
            spread_amount,
        ),
        r is Err ==> r == Err::<(), ContractError>(ContractError::MaxSpreadAssertion),
{
    match (max_spread, belief_price) {
        (Some(ms), Some(bp)) => {
            if bp == 0 {
                return Err(ContractError::MaxSpreadAssertion);
            }
            let expected = match checked_mul_div(offer_amount, DECIMAL_FRACTIONAL, bp) {
                Ok(v) => v,
                Err(_) => return Err(ContractError::MaxSpreadAssertion),
            };
            if return_amount < expected {
                let ratio = match checked_mul_div(
                    expected - return_amount,
                    DECIMAL_FRACTIONAL,
                    expected,
                ) {
                    Ok(v) => v,
                    Err(_) => return Err(ContractError::MaxSpreadAssertion),
                };
                if ratio > ms {
                    return Err(ContractError::MaxSpreadAssertion);
                }
            }
            Ok(())
        },
        (Some(ms), None) => {
            let whole = return_amount + spread_amount;
            if whole > 0 {
                let ratio = match checked_mul_div(spread_amount, DECIMAL_FRACTIONAL, whole) {
                    Ok(v) => v,
                    Err(_) => return Err(ContractError::MaxSpreadAssertion),
                };
                if ratio > ms {
                    return Err(ContractError::MaxSpreadAssertion);
                }
            }
            Ok(())
        },
        _ => Ok(()),
    }
}

/// The amount of the first coin of `denom` among `funds`, if any.
pub fn find_sent(funds: &Vec<Coin>, denom: &String) -> (r: Option<u128>)
    ensures
        r == sent_amount(funds@, denom@),
{
    let mut i: usize = 0;
    assert(funds@.skip(0) =~= funds@);
    while i < funds.len()
        invariant
            i <= funds@.len(),
            sent_amount(funds@, denom@) == sent_amount(funds@.skip(i as int), denom@),
        decreases funds@.len() - i,
    {
        assert(funds@.skip(i as int).drop_first() =~= funds@.skip(i + 1));
        if funds[i].denom == *denom {
            return Some(funds[i].amount);
        }
        i = i + 1;
    }
    None
}

/// Whether a native asset is backed by exactly its amount among `funds`.
pub fn check_funds(asset: &Asset, funds: &Vec<Coin>) -> (r: bool)
    ensures
        r == funds_match(*asset, funds@),
{
    proof {
        assert(funds@.skip(0) =~= funds@);
    }
    match &asset.info {
        AssetInfo::Token { .. } => true,
        AssetInfo::NativeToken { denom } => match find_sent(funds, denom) {
            Some(a) => a == asset.amount,
            None => asset.amount == 0,
        },
    }
}

impl Pair {
    /// The fee terms and the rates parsed from them agree, and the pool keeps
    /// its invariant.
    pub open spec fn wf(&self) -> bool {
        &&& decimal_atomics(self.info.commission_rate@) == Some(self.commission_atomics)
        &&& decimal_atomics(self.info.operator_fee@) == Some(self.operator_fee_atomics)
        &&& self.pool.wf()
    }

    /// The operator fee rate in force: none until an operator is registered.
    pub open spec fn effective_operator_fee(&self) -> u128 {
        if self.operator is Some {
            self.operator_fee_atomics
        } else {
            0
        }
    }

    /// The swap of `offer`, apart from the allow-list.
    pub open spec fn swap_core(
        &self,
        offer: Asset,
        funds: Seq<Coin>,
        belief_price: Option<u128>,
        max_spread: Option<u128>,
    ) -> Result<SwapAmounts, ContractError> {
        let infos = self.info.asset_infos@;
        if !funds_match(offer, funds) {
            Err(ContractError::InvalidFunds)
        } else if offer.amount == 0 {
            Err(ContractError::InvalidZeroAmount)
        } else if offer.info@ != infos[0]@ && offer.info@ != infos[1]@ {
            Err(ContractError::AssetMismatch)
        } else {
            let s = if offer.info@ == infos[0]@ {
                swap_spec(
                    self.pool.reserve0,
                    self.pool.reserve1,
                    offer.amount,
                    self.commission_atomics,
                    self.effective_operator_fee(),
                )
            } else {
                swap_spec(
                    self.pool.reserve1,
                    self.pool.reserve0,
                    offer.amount,
                    self.commission_atomics,
                    self.effective_operator_fee(),
                )
            };
            match s {
                Err(e) => Err(e),
                Ok(a) => if spread_violated(
                    belief_price,
                    max_spread,
                    offer.amount,
                    a.return_amount,
                    a.spread_amount,
                ) {
                    Err(ContractError::MaxSpreadAssertion)
                } else {
                    Ok(a)
                },
            }
        }
    }

    /// The swap of `offer` by `trader`.
    pub open spec fn swap_result(
        &self,
        trader: Seq<char>,
        offer: Asset,
        funds: Seq<Coin>,
        belief_price: Option<u128>,
        max_spread: Option<u128>,
    ) -> Result<SwapAmounts, ContractError> {
        if !allowed(self.whitelist_enabled, self.traders@, trader) {
            Err(ContractError::PoolWhitelisted)
        } else {
            self.swap_core(offer, funds, belief_price, max_spread)
        }
    }

    /// The deposit of `assets`, apart from the allow-list.
    pub open spec fn provide_core(
        &self,
        assets: Seq<Asset>,
        funds: Seq<Coin>,
        slippage: Option<u128>,
    ) -> Result<ProvideAmounts, ContractError> {
        let infos = self.info.asset_infos@;
        let d0 = deposit_for(assets, infos[0]@);
        let d1 = deposit_for(assets, infos[1]@);
        if !funds_match(assets[0], funds) || !funds_match(assets[1], funds) {
            Err(ContractError::InvalidFunds)
        } else if d0 is None || d1 is None {
            Err(ContractError::AssetMismatch)
        } else {
            let e = pool_provide_error(self.pool, d0->Some_0, d1->Some_0, slippage);
            let p = provide_amounts(
                d0->Some_0 as int,
                d1->Some_0 as int,
                self.pool.reserve0 as int,
                self.pool.reserve1 as int,
                self.pool.total_share as int,
            );
            match e {
                Some(e) => Err(e),
                None => Ok(
                    ProvideAmounts {
                        share: p.0 as u128,
                        accepted0: p.1 as u128,
                        accepted1: p.2 as u128,
                    },
                ),
            }
        }
    }

    /// The deposit of `assets` by `sender`.
    pub open spec fn provide_result(
        &self,
        sender: Seq<char>,
        assets: Seq<Asset>,
        funds: Seq<Coin>,
        slippage: Option<u128>,
    ) -> Result<ProvideAmounts, ContractError> {
        if !allowed(self.whitelist_enabled, self.traders@, sender) {
            Err(ContractError::PoolWhitelisted)
        } else {
            self.provide_core(assets, funds, slippage)
        }
    }

    /// The burn of `amount` shares, apart from the allow-list: only the
    /// pair's share token may report a burn.
    pub open spec fn withdraw_core(&self, caller: Seq<char>, amount: u128) -> Result<
        WithdrawAmounts,
        ContractError,
    > {
        if caller != self.info.liquidity_token@ {
            Err(ContractError::Unauthorized)
        } else {
            withdraw_spec(amount, self.pool.total_share, self.pool.reserve0, self.pool.reserve1)
        }
    }

    /// The burn of `amount` shares owned by `owner`, reported by `caller`.
    pub open spec fn withdraw_result(&self, caller: Seq<char>, owner: Seq<char>, amount: u128) -> Result<
        WithdrawAmounts,
        ContractError,
    > {
        if !allowed(self.whitelist_enabled, self.withdraw_providers@, owner) {
            Err(ContractError::PoolWhitelisted)
        } else {
            self.withdraw_core(caller, amount)
        }
    }

    /// `who` is the pair's admin.
    pub open spec fn is_admin(&self, who: Seq<char>) -> bool {
        self.admin matches Some(a) && a@ == who
    }

    /// The fee terms fixed when the pair was made.
    pub open spec fn fee_terms(&self) -> (String, String, u128, u128) {
        (
            self.info.commission_rate,
            self.info.operator_fee,
            self.commission_atomics,
            self.operator_fee_atomics,
        )
    }

    /// A new pair at `contract_addr` whose share token is `liquidity_token`,
    /// with an empty pool; rates left out take the defaults. Fails where a
    /// rate is not a decimal.
    pub fn instantiate(
        msg: PairInstantiateMsg,
        contract_addr: String,
        liquidity_token: String,
    ) -> (r: Result<Pair, ContractError>)
        ensures
            match r {
                Ok(p) => {
                    &&& p.wf()
                    &&& p.info.asset_infos == msg.asset_infos
                    &&& p.info.contract_addr == contract_addr
                    &&& p.info.liquidity_token == liquidity_token
                    &&& p.info.oracle_addr == msg.oracle_addr
                    &&& msg.commission_rate matches Some(c) ==> p.info.commission_rate == c
                    &&& msg.operator_fee matches Some(f) ==> p.info.operator_fee == f
                    &&& p.admin == msg.admin
                    &&& p.operator == msg.operator
                    &&& !p.whitelist_enabled
                    &&& p.traders@.len() == 0
                    &&& p.withdraw_providers@.len() == 0
                    &&& p.pool == (PoolState { reserve0: 0, reserve1: 0, total_share: 0 })
                    &&& p.info.commission_rate@ == rate_or_default(
                        msg.commission_rate,
                        DEFAULT_COMMISSION_RATE@,
                    )
                    &&& p.info.operator_fee@ == rate_or_default(msg.operator_fee, DEFAULT_OPERATOR_FEE@)
                },
                Err(e) => e is Std,
            },
            r is Ok <==> decimal_atomics(rate_or_default(msg.commission_rate, DEFAULT_COMMISSION_RATE@))
                is Some && decimal_atomics(rate_or_default(msg.operator_fee, DEFAULT_OPERATOR_FEE@))
                is Some,
    {
        let commission_rate = match msg.commission_rate {
            Some(c) => c,
            None => String::from_str(DEFAULT_COMMISSION_RATE),
        };
        let operator_fee = match msg.operator_fee {
            Some(f) => f,
            None => String::from_str(DEFAULT_OPERATOR_FEE),
        };
        let commission_atomics = match parse_decimal(commission_rate.as_str()) {
            Some(v) => v,
            None => return Err(ContractError::Std { msg: String::from_str("invalid commission rate") }),
        };
        let operator_fee_atomics = match parse_decimal(operator_fee.as_str()) {
            Some(v) => v,
            None => return Err(ContractError::Std { msg: String::from_str("invalid operator fee") }),
        };
        Ok(
            Pair {
                info: PairInfo {
                    asset_infos: msg.asset_infos,
                    contract_addr,
                    liquidity_token,
                    oracle_addr: msg.oracle_addr,
                    commission_rate,
                    operator_fee,
                },
                admin: msg.admin,
                operator: msg.operator,
                commission_atomics,
                operator_fee_atomics,
                whitelist_enabled: false,
                traders: Vec::new(),
                withdraw_providers: Vec::new(),
                pool: PoolState::new(),
            },
        )
    }

    /// Whether the state is well formed: the rates parse to the stored atomics
    /// and the pool keeps its invariant.
    pub fn is_well_formed(&self) -> (r: bool)
        ensures
            r == self.wf(),
    {
        let c = parse_decimal(self.info.commission_rate.as_str());
        let f = parse_decimal(self.info.operator_fee.as_str());
        let pool_ok = (self.pool.total_share == 0 && self.pool.reserve0 == 0 && self.pool.reserve1
            == 0) || (self.pool.total_share > 0 && self.pool.reserve0 > 0 && self.pool.reserve1 > 0);
        let c_ok = match c {
            Some(v) => v == self.commission_atomics,
            None => false,
        };
        let f_ok = match f {
            Some(v) => v == self.operator_fee_atomics,
            None => false,
        };
        c_ok && f_ok && pool_ok
    }

    /// Which side of the pool `info` names: `Some(true)` for the first asset.
    fn side_of(&self, info: &AssetInfo) -> (r: Option<bool>)
        ensures
            r == (if info@ == self.info.asset_infos@[0]@ {
                Some(true)
            } else if info@ == self.info.asset_infos@[1]@ {
                Some(false)
            } else {
                None
            }),
    {
        if info.equal(&self.info.asset_infos[0]) {
            Some(true)
        } else if info.equal(&self.info.asset_infos[1]) {
            Some(false)
        } else {
            None
        }
    }

    /// The amount that `assets` offer of `info`, the first match winning.
    fn deposit_of(assets: &[Asset; 2], info: &AssetInfo) -> (r: Option<u128>)
        ensures
            r == deposit_for(assets@, info@),
    {
        if assets[0].info.equal(info) {
            Some(assets[0].amount)
        } else if assets[1].info.equal(info) {
            Some(assets[1].amount)
        } else {
            None
        }
    }

    /// Deposits `assets`, sent by `sender` with the native `funds`, minting
    /// shares to `receiver` (or to the sender). Both requested amounts join
    /// the reserves; shares are issued for the accepted amounts only.
    pub fn provide_liquidity(
        &mut self,
        sender: String,
        assets: [Asset; 2],
        funds: Vec<Coin>,
        slippage_tolerance: Option<u128>,
        receiver: Option<String>,
    ) -> (r: Result<ProvideOutcome, ContractError>)
        requires
            old(self).wf(),
        ensures
            final(self).wf(),
            final(self).fee_terms() == old(self).fee_terms(),
            match r {
                Ok(o) => old(self).provide_result(sender@, assets@, funds@, slippage_tolerance) == Ok::<
                    ProvideAmounts,
                    ContractError,
                >(o.amounts),
                Err(e) => old(self).provide_result(sender@, assets@, funds@, slippage_tolerance)
                    == Err::<ProvideAmounts, ContractError>(e),
            },
            r matches Ok(o) ==> {
                let d0 = deposit_for(assets@, old(self).info.asset_infos@[0]@)->Some_0;
                let d1 = deposit_for(assets@, old(self).info.asset_infos@[1]@)->Some_0;
                &&& *final(self) == Pair {
                    pool: PoolState {
                        reserve0: (old(self).pool.reserve0 + d0) as u128,
                        reserve1: (old(self).pool.reserve1 + d1) as u128,
                        total_share: (old(self).pool.total_share + o.amounts.share) as u128,
                    },
                    ..*old(self)
                }
                &&& o.receiver@ == (match receiver {
                    Some(x) => x@,
                    None => sender@,
                })
                &&& o.token_pulls@ == token_part(assets@[0]) + token_part(assets@[1])
            },
            r is Err ==> *final(self) == *old(self),
    {
        if self.whitelist_enabled && !contains_name(&self.traders, &sender) {
            return Err(ContractError::PoolWhitelisted);
        }
        if !check_funds(&assets[0], &funds) || !check_funds(&assets[1], &funds) {
            return Err(ContractError::InvalidFunds);
        }
        let d0 = match Pair::deposit_of(&assets, &self.info.asset_infos[0]) {
            Some(d) => d,
            None => return Err(ContractError::AssetMismatch),
        };
        let d1 = match Pair::deposit_of(&assets, &self.info.asset_infos[1]) {
            Some(d) => d,
            None => return Err(ContractError::AssetMismatch),
        };
        let amounts = match self.pool.provide(d0, d1, slippage_tolerance) {
            Ok(p) => p,
            Err(e) => return Err(e),
        };
        let mut token_pulls: Vec<Asset> = Vec::new();
        if !assets[0].info.is_native_token() {
            token_pulls.push(assets[0].duplicate());
        }
        let ghost first = token_pulls@;
        if !assets[1].info.is_native_token() {
            token_pulls.push(assets[1].duplicate());
        }
        assert(token_pulls@ =~= first + token_part(assets@[1]));
        let receiver = match receiver {
            Some(x) => x,
            None => sender,
        };
        Ok(ProvideOutcome { amounts, receiver, token_pulls })
    }

    /// Whether `who` is the pair's admin.
    fn check_admin(&self, who: &String) -> (r: bool)
        ensures
            r == self.is_admin(who@),
    {
        match &self.admin {
            Some(a) => *a == *who,
            None => false,
        }
    }

    /// Swaps `offer_asset`, sent by `sender` with the native `funds`, for the
    /// pair's other asset, paid to `to` (or to the sender). The commission
    /// stays in the pool; the operator fee, charged only once the pair has an
    /// operator, goes to the operator.
    pub fn swap(
        &mut self,
        sender: String,
        offer_asset: Asset,
        funds: Vec<Coin>,
        belief_price: Option<u128>,
        max_spread: Option<u128>,
        to: Option<String>,
    ) -> (r: Result<SwapOutcome, ContractError>)
        requires
            old(self).wf(),
        ensures
            final(self).wf(),
            final(self).fee_terms() == old(self).fee_terms(),
            match r {
                Ok(o) => old(self).swap_result(sender@, offer_asset, funds@, belief_price, max_spread)
                    == Ok::<SwapAmounts, ContractError>(o.amounts),
                Err(e) => old(self).swap_result(sender@, offer_asset, funds@, belief_price, max_spread)
                    == Err::<SwapAmounts, ContractError>(e),
            },
            r matches Ok(o) ==> {
                let first = offer_asset.info@ == old(self).info.asset_infos@[0]@;
                let paid = o.amounts.return_amount + o.amounts.operator_fee_amount;
                &&& *final(self) == Pair { pool: final(self).pool, ..*old(self) }
                &&& final(self).pool.total_share == old(self).pool.total_share
                &&& first ==> final(self).pool.reserve0 == old(self).pool.reserve0 + offer_asset.amount
                    && final(self).pool.reserve1 == old(self).pool.reserve1 - paid
                &&& !first ==> final(self).pool.reserve1 == old(self).pool.reserve1
                    + offer_asset.amount && final(self).pool.reserve0 == old(self).pool.reserve0 - paid
                &&& o.ask_info == (if first {
                    old(self).info.asset_infos@[1]
                } else {
                    old(self).info.asset_infos@[0]
                })
                &&& o.receiver@ == (match to {
                    Some(x) => x@,
                    None => sender@,
                })
                &&& o.operator_payment == (match old(self).operator {
                    Some(op) => Some((op, o.amounts.operator_fee_amount)),
                    None => None,
                })
            },
            r is Err ==> *final(self) == *old(self),
    {
        if self.whitelist_enabled && !contains_name(&self.traders, &sender) {
            return Err(ContractError::PoolWhitelisted);
        }
        if !check_funds(&offer_asset, &funds) {
            return Err(ContractError::InvalidFunds);
        }
        if offer_asset.amount == 0 {
            return Err(ContractError::InvalidZeroAmount);
        }
        let first = match self.side_of(&offer_asset.info) {
            Some(f) => f,
            None => return Err(ContractError::AssetMismatch),
        };
        let operator_fee_rate = if self.operator.is_some() {
            self.operator_fee_atomics
        } else {
            0
        };
        let mut pool = self.pool;
        let amounts = match pool.swap(
            first,
            offer_asset.amount,
            self.commission_atomics,
            operator_fee_rate,
        ) {
            Ok(a) => a,
            Err(e) => return Err(e),
        };
        proof {
            let o = if first { self.pool.reserve0 } else { self.pool.reserve1 };
            let a = if first { self.pool.reserve1 } else { self.pool.reserve0 };
            crate::pool::lemma_swap_keeps_spread_in_range(
                o,
                a,
                offer_asset.amount,
                self.commission_atomics,
                operator_fee_rate,
            );
        }
        match assert_max_spread(
            belief_price,
            max_spread,
            offer_asset.amount,
            amounts.return_amount,
            amounts.spread_amount,
        ) {
            Ok(()) => {},
            Err(e) => return Err(e),
        }
        self.pool = pool;
        let ask_info = if first {
            self.info.asset_infos[1].duplicate()
        } else {
            self.info.asset_infos[0].duplicate()
        };
        let receiver = match to {
            Some(x) => x,
            None => sender,
        };
        let operator_payment = match &self.operator {
            Some(op) => Some((op.clone(), amounts.operator_fee_amount)),
            None => None,
        };
        Ok(SwapOutcome { amounts, ask_info, receiver, operator_payment })
    }

    /// Burns `amount` shares of `owner`, as reported by `caller`, which must
    /// be the pair's share token, and refunds the owner's part of each reserve.
    pub fn withdraw_liquidity(&mut self, caller: String, owner: String, amount: u128) -> (r: Result<
        WithdrawOutcome,
        ContractError,
    >)
        requires
            old(self).wf(),
        ensures
            final(self).wf(),
            final(self).fee_terms() == old(self).fee_terms(),
            match r {
                Ok(o) => old(self).withdraw_result(caller@, owner@, amount) == Ok::<
                    WithdrawAmounts,
                    ContractError,
                >(o.amounts),
                Err(e) => old(self).withdraw_result(caller@, owner@, amount) == Err::<
                    WithdrawAmounts,
                    ContractError,
                >(e),
            },
            r matches Ok(o) ==> {
                &&& *final(self) == Pair {
                    pool: PoolState {
                        reserve0: (old(self).pool.reserve0 - o.amounts.refund0) as u128,
                        reserve1: (old(self).pool.reserve1 - o.amounts.refund1) as u128,
                        total_share: (old(self).pool.total_share - amount) as u128,
                    },
                    ..*old(self)
                }
                &&& o.recipient == owner
                &&& o.burn_amount == amount
                &&& o.refund_assets@ == seq![
                    Asset { info: old(self).info.asset_infos@[0], amount: o.amounts.refund0 },
                    Asset { info: old(self).info.asset_infos@[1], amount: o.amounts.refund1 },
                ]
            },
            r is Err ==> *final(self) == *old(self),
    {
        if self.whitelist_enabled && !contains_name(&self.withdraw_providers, &owner) {
            return Err(ContractError::PoolWhitelisted);
        }
        if caller != self.info.liquidity_token {
            return Err(ContractError::Unauthorized);
        }
        let amounts = match self.pool.withdraw(amount) {
            Ok(w) => w,
            Err(e) => return Err(e),
        };
        let mut refund_assets: Vec<Asset> = Vec::new();
        refund_assets.push(Asset { info: self.info.asset_infos[0].duplicate(), amount: amounts.refund0 });
        refund_assets.push(Asset { info: self.info.asset_infos[1].duplicate(), amount: amounts.refund1 });
        assert(refund_assets@ =~= seq![
            Asset { info: self.info.asset_infos@[0], amount: amounts.refund0 },
            Asset { info: self.info.asset_infos@[1], amount: amounts.refund1 },
        ]);
        Ok(WithdrawOutcome { amounts, recipient: owner, refund_assets, burn_amount: amount })
    }

    /// Turns the allow-lists on or off; for the admin only.
    pub fn enable_whitelist(&mut self, sender: &String, status: bool) -> (r: Result<(), ContractError>)
        requires
            old(self).wf(),
        ensures
            final(self).wf(),
            final(self).fee_terms() == old(self).fee_terms(),
            old(self).is_admin(sender@) ==> r is Ok && *final(self) == (Pair {
                whitelist_enabled: status,
                ..*old(self)
            }),
            !old(self).is_admin(sender@) ==> r == Err::<(), ContractError>(ContractError::Unauthorized)
                && *final(self) == *old(self),
    {
        if !self.check_admin(sender) {
            return Err(ContractError::Unauthorized);
        }
        self.whitelist_enabled = status;
        Ok(())
    }

    /// Adds `traders` to the list of those who may swap and deposit while the
    /// allow-lists are on; for the admin only.
    pub fn register_trader(&mut self, sender: &String, traders: &Vec<String>) -> (r: Result<
        (),
        ContractError,
    >)
        requires
            old(self).wf(),
        ensures
            final(self).wf(),
            final(self).fee_terms() == old(self).fee_terms(),
            old(self).is_admin(sender@) ==> {
                &&& r is Ok
                &&& *final(self) == (Pair { traders: final(self).traders, ..*old(self) })
                &&& forall|x: Seq<char>| #[trigger]
                    holds(final(self).traders@, x) <==> holds(old(self).traders@, x) || holds(
                        traders@,
                        x,
                    )
            },
            !old(self).is_admin(sender@) ==> r == Err::<(), ContractError>(ContractError::Unauthorized)
                && *final(self) == *old(self),
    {
        if !self.check_admin(sender) {
            return Err(ContractError::Unauthorized);
        }
        add_names(&mut self.traders, traders);
        Ok(())
    }

    /// Adds `providers` to the list of those who may withdraw while the
    /// allow-lists are on; for the admin only.
    pub fn register_withdraw_lp(&mut self, sender: &String, providers: &Vec<String>) -> (r: Result<
        (),
        ContractError,
    >)
        requires
            old(self).wf(),
        ensures
            final(self).wf(),
            final(self).fee_terms() == old(self).fee_terms(),
            old(self).is_admin(sender@) ==> {
                &&& r is Ok
                &&& *final(self) == (Pair {
                    withdraw_providers: final(self).withdraw_providers,
                    ..*old(self)
                })
                &&& forall|x: Seq<char>| #[trigger]
                    holds(final(self).withdraw_providers@, x) <==> holds(
                        old(self).withdraw_providers@,
                        x,
                    ) || holds(providers@, x)
            },
            !old(self).is_admin(sender@) ==> r == Err::<(), ContractError>(ContractError::Unauthorized)
                && *final(self) == *old(self),
    {
        if !self.check_admin(sender) {
            return Err(ContractError::Unauthorized);
        }
        add_names(&mut self.withdraw_providers, providers);
        Ok(())
    }

    /// Sets or clears the operator that receives the operator fee; for the
    /// admin only. The fee terms stay as they were.
    pub fn update_operator(&mut self, sender: &String, operator: Option<String>) -> (r: Result<
        (),
        ContractError,
    >)
        requires
            old(self).wf(),
        ensures
            final(self).wf(),
            final(self).fee_terms() == old(self).fee_terms(),
            old(self).is_admin(sender@) ==> r is Ok && *final(self) == (Pair {
                operator: operator,
                ..*old(self)
            }),
            !old(self).is_admin(sender@) ==> r == Err::<(), ContractError>(ContractError::Unauthorized)
                && *final(self) == *old(self),
    {
        if !self.check_admin(sender) {
            return Err(ContractError::Unauthorized);
        }
        self.operator = operator;
        Ok(())
    }

    /// The pair's description, fee terms included.
    pub fn query_pair(&self) -> (r: PairInfo)
        ensures
            r == self.info,
    {
        let r = PairInfo {
            asset_infos: [self.info.asset_infos[0].duplicate(), self.info.asset_infos[1].duplicate()],
            contract_addr: self.info.contract_addr.clone(),
            liquidity_token: self.info.liquidity_token.clone(),
            oracle_addr: self.info.oracle_addr.clone(),
            commission_rate: self.info.commission_rate.clone(),
            operator_fee: self.info.operator_fee.clone(),
        };
        assert(r.asset_infos@ =~= self.info.asset_infos@);
        proof {
            vstd::array::axiom_array_ext_equal(r.asset_infos, self.info.asset_infos);
        }
        r
    }

    /// The operator's address, or the empty string where there is none.
    pub fn query_operator(&self) -> (r: String)
        ensures
            r@ == (match self.operator {
                Some(op) => op@,
                None => Seq::<char>::empty(),
            }),
    {
        match &self.operator {
            Some(op) => op.clone(),
            None => String::new(),
        }
    }
}

/// An operation asked of a pair. A withdrawal comes from the pair's share
/// token, which reports a burn of `amount` shares of `owner`.
#[derive(Clone, Debug, PartialEq, Eq)]
pub enum PairExecuteMsg {
    ProvideLiquidity {
        assets: [Asset; 2],
        slippage_tolerance: Option<u128>,
        receiver: Option<String>,
    },
    Swap {
        offer_asset: Asset,
        belief_price: Option<u128>,
        max_spread: Option<u128>,
        to: Option<String>,
    },
    WithdrawLiquidity { owner: String, amount: u128 },
    EnableWhitelist { status: bool },
    RegisterTrader { traders: Vec<String> },
    RegisterWithdrawLp { providers: Vec<String> },
    UpdateOperator { operator: Option<String> },
}

/// What a pair operation produced.
#[derive(Clone, Debug, PartialEq, Eq)]
pub enum PairOutcome {
    Provided(ProvideOutcome),
    Swapped(SwapOutcome),
    Withdrawn(WithdrawOutcome),
    /// An admin setting changed.
    Updated,
}

/// What an admin-only change does: for the admin, `post` is `changed`;
/// for anyone else, the call is refused and nothing changes.
pub open spec fn admin_post(
    pre: Pair,
    post: Pair,
    sender: Seq<char>,
    changed: bool,
    r: Result<PairOutcome, ContractError>,
) -> bool {
    &&& pre.is_admin(sender) ==> r == Ok::<PairOutcome, ContractError>(PairOutcome::Updated)
        && changed
    &&& !pre.is_admin(sender) ==> r == Err::<PairOutcome, ContractError>(
        ContractError::Unauthorized,
    ) && post == pre
}

/// What running `msg`, sent by `sender` with `funds`, does to a pair: each
/// message as the operation it names.
pub open spec fn pair_execute_post(
    pre: Pair,
    post: Pair,
    sender: String,
    funds: Vec<Coin>,
    msg: PairExecuteMsg,
    r: Result<PairOutcome, ContractError>,
) -> bool {
    match msg {
        PairExecuteMsg::ProvideLiquidity { assets, slippage_tolerance, .. } => match r {
            Ok(PairOutcome::Provided(o)) => pre.provide_result(
                sender@,
                assets@,
                funds@,
                slippage_tolerance,
            ) == Ok::<ProvideAmounts, ContractError>(o.amounts),
            Err(e) => pre.provide_result(sender@, assets@, funds@, slippage_tolerance) == Err::<
                ProvideAmounts,
                ContractError,
            >(e),
            _ => false,
        },
        PairExecuteMsg::Swap { offer_asset, belief_price, max_spread, .. } => match r {
            Ok(PairOutcome::Swapped(o)) => pre.swap_result(
                sender@,
                offer_asset,
                funds@,
                belief_price,
                max_spread,
            ) == Ok::<SwapAmounts, ContractError>(o.amounts),
            Err(e) => pre.swap_result(sender@, offer_asset, funds@, belief_price, max_spread)
                == Err::<SwapAmounts, ContractError>(e),
            _ => false,
        },
        PairExecuteMsg::WithdrawLiquidity { owner, amount } => match r {
            Ok(PairOutcome::Withdrawn(o)) => pre.withdraw_result(sender@, owner@, amount) == Ok::<
                WithdrawAmounts,
                ContractError,
            >(o.amounts),
            Err(e) => pre.withdraw_result(sender@, owner@, amount) == Err::<
                WithdrawAmounts,
                ContractError,
            >(e),
            _ => false,
        },
        PairExecuteMsg::EnableWhitelist { status } => admin_post(
            pre,
            post,
            sender@,
            post == (Pair { whitelist_enabled: status, ..pre }),
            r,
        ),
        PairExecuteMsg::RegisterTrader { traders } => admin_post(
            pre,
            post,
            sender@,
            post == (Pair { traders: post.traders, ..pre }) && forall|x: Seq<char>| #[trigger]
                holds(post.traders@, x) <==> holds(pre.traders@, x) || holds(traders@, x),
            r,
        ),
        PairExecuteMsg::RegisterWithdrawLp { providers } => admin_post(
            pre,
            post,
            sender@,
            post == (Pair { withdraw_providers: post.withdraw_providers, ..pre }) && forall|
                x: Seq<char>,
            | #[trigger]
                holds(post.withdraw_providers@, x) <==> holds(pre.withdraw_providers@, x) || holds(
                    providers@,
                    x,
                ),
            r,
        ),
        PairExecuteMsg::UpdateOperator { operator } => admin_post(
            pre,
            post,
            sender@,
            post == (Pair { operator: operator, ..pre }),
            r,
        ),
    }
}

impl Pair {
    /// Runs `msg`, sent by `sender` with the native `funds`.
    pub fn execute(&mut self, sender: String, funds: Vec<Coin>, msg: PairExecuteMsg) -> (r: Result<
        PairOutcome,
        ContractError,
    >)
        requires
            old(self).wf(),
        ensures
            final(self).wf(),
            final(self).fee_terms() == old(self).fee_terms(),
            r is Err ==> *final(self) == *old(self),
            pair_execute_post(*old(self), *final(self), sender, funds, msg, r),
    {
        match msg {
            PairExecuteMsg::ProvideLiquidity { assets, slippage_tolerance, receiver } => {
                match self.provide_liquidity(sender, assets, funds, slippage_tolerance, receiver) {
                    Ok(o) => Ok(PairOutcome::Provided(o)),
                    Err(e) => Err(e),
                }
            },
            PairExecuteMsg::Swap { offer_asset, belief_price, max_spread, to } => {
                match self.swap(sender, offer_asset, funds, belief_price, max_spread, to) {
                    Ok(o) => Ok(PairOutcome::Swapped(o)),
                    Err(e) => Err(e),
                }
            },
            PairExecuteMsg::WithdrawLiquidity { owner, amount } => {
                match self.withdraw_liquidity(sender, owner, amount) {
                    Ok(o) => Ok(PairOutcome::Withdrawn(o)),
                    Err(e) => Err(e),
                }
            },
            PairExecuteMsg::EnableWhitelist { status } => match self.enable_whitelist(&sender, status) {
                Ok(()) => Ok(PairOutcome::Updated),
                Err(e) => Err(e),
            },
            PairExecuteMsg::RegisterTrader { traders } => match self.register_trader(&sender, &traders) {
                Ok(()) => Ok(PairOutcome::Updated),
                Err(e) => Err(e),
            },
            PairExecuteMsg::RegisterWithdrawLp { providers } => {
                match self.register_withdraw_lp(&sender, &providers) {
                    Ok(()) => Ok(PairOutcome::Updated),
                    Err(e) => Err(e),
                }
            },
            PairExecuteMsg::UpdateOperator { operator } => {
                match self.update_operator(&sender, operator) {
                    Ok(()) => Ok(PairOutcome::Updated),
                    Err(e) => Err(e),
                }
            },
        }
    }
}

/// With the allow-lists on, an address on neither list cannot swap, deposit
/// or withdraw; once the admin has added it to both lists, and nothing else
/// has changed, each of those calls gives what it gives with no allow-list.
pub proof fn lemma_allow_list_gates(
    p: Pair,
    q: Pair,
    who: Seq<char>,
    caller: Seq<char>,
    offer: Asset,
    assets: Seq<Asset>,
    funds: Seq<Coin>,
    belief_price: Option<u128>,
    max_spread: Option<u128>,
    slippage: Option<u128>,
    amount: u128,
)
    requires
        p.whitelist_enabled,
        !holds(p.traders@, who),
        !holds(p.withdraw_providers@, who),
        q == (Pair { traders: q.traders, withdraw_providers: q.withdraw_providers, ..p }),
        holds(q.traders@, who),
        holds(q.withdraw_providers@, who),
    ensures
        p.swap_result(who, offer, funds, belief_price, max_spread) == Err::<
            SwapAmounts,
            ContractError,
        >(ContractError::PoolWhitelisted),
        p.provide_result(who, assets, funds, slippage) == Err::<ProvideAmounts, ContractError>(
            ContractError::PoolWhitelisted,
        ),
        p.withdraw_result(caller, who, amount) == Err::<WithdrawAmounts, ContractError>(
            ContractError::PoolWhitelisted,
        ),
        q.swap_result(who, offer, funds, belief_price, max_spread) == p.swap_core(
            offer,
            funds,
            belief_price,
            max_spread,
        ),
        q.provide_result(who, assets, funds, slippage) == p.provide_core(assets, funds, slippage),
        q.withdraw_result(caller, who, amount) == p.withdraw_core(caller, amount),
{
}

/// Until a pair has an operator, no swap charges an operator fee; once it
/// has one, the fee is the operator rate applied to the gross output.
pub proof fn lemma_operator_fee_needs_operator(
    p: Pair,
    offer: Asset,
    funds: Seq<Coin>,
    belief_price: Option<u128>,
    max_spread: Option<u128>,
)
    requires
        p.swap_core(offer, funds, belief_price, max_spread) is Ok,
    ensures
        ({
            let a = p.swap_core(offer, funds, belief_price, max_spread)->Ok_0;
            let first = offer.info@ == p.info.asset_infos@[0]@;
            let o = (if first { p.pool.reserve0 } else { p.pool.reserve1 });
            let k = (if first { p.pool.reserve1 } else { p.pool.reserve0 });
            let g = crate::pool::gross_return(o as int, k as int, offer.amount as int);
            &&& p.operator is None ==> a.operator_fee_amount == 0
            &&& p.operator is Some ==> a.operator_fee_amount == apply_rate(
                g,
                p.operator_fee_atomics as int,
            )
        }),
{
    let first = offer.info@ == p.info.asset_infos@[0]@;
    let o = if first { p.pool.reserve0 } else { p.pool.reserve1 };
    let k = if first { p.pool.reserve1 } else { p.pool.reserve0 };
    let g = crate::pool::gross_return(o as int, k as int, offer.amount as int);
    let s = swap_spec(o, k, offer.amount, p.commission_atomics, p.effective_operator_fee());
    assert(s is Ok);
    crate::pool::lemma_gross_return_nonneg(o as int, k as int, offer.amount as int);
    let rate = p.effective_operator_fee() as int;
    assert(g * rate >= 0) by (nonlinear_arith)
        requires
            g >= 0,
            rate >= 0,
    ;
    assert(s->Ok_0.operator_fee_amount == apply_rate(g, rate));
    assert(g * 0 == 0);
}

} // verus!
