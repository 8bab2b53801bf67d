//! The factory: the registry of pairs keyed by their asset pair, the creation
//! handshake with each new pair, and the rules on who may create what.
use vstd::prelude::*;
use vstd::string::StrSliceExecFns;

use crate::asset::{
    bytes_equal, bytes_less, bytes_lt, lemma_bytes_lt_irreflexive,
    lemma_bytes_lt_total, lemma_bytes_lt_transitive, lemma_pair_key_symmetric, pair_key,
    pair_key_of, info_bytes, Asset, AssetInfo, Coin,
};
use crate::error::ContractError;
use crate::names::{contains_name, holds, position_of};
use crate::pair::{
    rate_or_default, PairInfo, PairInstantiateMsg, DEFAULT_COMMISSION_RATE, DEFAULT_OPERATOR_FEE,
};

verus! {

/// The correlation id of the reply that completes a pair's creation.
pub const INSTANTIATE_REPLY_ID: u64 = 1;

/// How many pairs a listing returns when the caller names no limit.
pub const DEFAULT_LIMIT: u32 = 10;

/// The most pairs a listing returns.
pub const MAX_LIMIT: u32 = 30;

/// The views of a pair's two asset descriptions.
pub open spec fn infos_view(infos: [AssetInfo; 2]) -> Seq<(bool, Seq<char>)> {
    infos@.map_values(|i: AssetInfo| i@)
}

/// The factory's settings.
#[derive(Clone, Debug, PartialEq, Eq)]
pub struct FactoryConfig {
    pub owner: String,
    pub operator: String,
    pub oracle_addr: String,
    pub token_code_id: u64,
    pub pair_code_id: u64,
    pub commission_rate: String,
    pub operator_fee: String,
}

/// Whether a pair's creation has completed.
#[derive(Clone, Debug, PartialEq, Eq)]
pub enum Registration {
    /// Created, waiting for the new pair to report its addresses.
    Pending,
    /// Complete; never changes again.
    Registered { contract_addr: String, liquidity_token: String },
}

/// What the factory keeps of a pair.
#[derive(Clone, Debug, PartialEq, Eq)]
pub struct PairRecord {
    pub asset_infos: [AssetInfo; 2],
    pub oracle_addr: String,
    pub commission_rate: String,
    pub operator_fee: String,
    pub registration: Registration,
}

/// A pair record under its key.
#[derive(Clone, Debug, PartialEq, Eq)]
pub struct PairEntry {
    pub key: Vec<u8>,
    pub record: PairRecord,
}

/// A message the factory asks the chain to deliver.
#[derive(Clone, Debug, PartialEq, Eq)]
pub enum FactoryMsg {
    /// Instantiate a pair; its completion comes back as a reply with `reply_id`.
    InstantiatePair { code_id: u64, admin: String, msg: PairInstantiateMsg, reply_id: u64 },
    /// Pull `amount` of the token at `token` from `owner` to `recipient`.
    TransferFrom { token: String, owner: String, recipient: String, amount: u128 },
    /// Let `spender` pull `amount` of the token at `token`.
    IncreaseAllowance { token: String, spender: String, amount: u128 },
    /// Ask the factory at `factory` to deposit `assets` once the pair exists.
    FactoryProvideLiquidity { factory: String, assets: [Asset; 2], receiver: String, funds: Vec<Coin> },
    /// Deposit `assets` into the pair at `pair`, minting shares to `receiver`.
    PairProvideLiquidity { pair: String, assets: [Asset; 2], receiver: String, funds: Vec<Coin> },
    /// Upgrade the contract at `contract_addr` to the code `new_code_id`.
    Migrate { contract_addr: String, new_code_id: u64, msg: Vec<u8> },
}

/// A deposit to make into a pair as soon as it exists.
#[derive(Clone, Debug, PartialEq, Eq)]
pub struct ProvideLiquidityParams {
    pub assets: [Asset; 2],
    pub receiver: Option<String>,
}

/// What accepting a pair's creation asks for.
#[derive(Clone, Debug, PartialEq, Eq)]
pub struct CreatePairOutcome {
    /// The instantiation of the pair, tagged for the reply.
    pub instantiate: FactoryMsg,
    /// The follow-up messages of an initial deposit, in order.
    pub messages: Vec<FactoryMsg>,
}

/// The factory's state.
#[derive(Clone, Debug)]
pub struct Factory {
    pub config: FactoryConfig,
    /// The pairs, in increasing key order.
    pub pairs: Vec<PairEntry>,
    /// Who may create pairs of restricted assets.
    pub creators: Vec<String>,
    /// Denom prefixes whose pairs only creators may create.
    pub restricted_prefixes: Vec<String>,
}

/// What a factory is made from.
#[derive(Clone, Debug, PartialEq, Eq)]
pub struct InstantiateMsg {
    pub pair_code_id: u64,
    pub token_code_id: u64,
    pub oracle_addr: String,
    pub commission_rate: Option<String>,
    pub operator_fee: Option<String>,
    pub operator: Option<String>,
}

/// The settings that a migration writes anew.
#[derive(Clone, Debug, PartialEq, Eq)]
pub struct MigrateMsg {
    pub owner: String,
    pub pair_code_id: u64,
    pub token_code_id: u64,
    pub oracle_addr: String,
    pub commission_rate: Option<String>,
    pub operator_fee: Option<String>,
    pub operator: String,
}

/// The number of slashes in `s`.
pub open spec fn slashes(s: Seq<char>) -> nat
    decreases s.len(),
{
    if s.len() == 0 {
        0
    } else {
        slashes(s.drop_last()) + if s.last() == '/' {
            1nat
        } else {
            0nat
        }
    }
}

/// `prefix` is the authority part of `denom`: its first two segments, where
/// the denom has at least three.
pub open spec fn is_authority_of(prefix: Seq<char>, denom: Seq<char>) -> bool {
    &&& slashes(prefix) == 1
    &&& prefix.len() < denom.len()
    &&& denom.take(prefix.len() as int) == prefix
    &&& denom[prefix.len() as int] == '/'
}

/// A pair holding `info` may only be created by a listed creator.
pub open spec fn is_restricted(prefixes: Seq<String>, info: (bool, Seq<char>)) -> bool {
    info.0 && exists|i: int|
        0 <= i < prefixes.len() && is_authority_of(#[trigger] prefixes[i]@, info.1)
}

/// Some entry of `pairs` has key `k`.
pub open spec fn has_key(pairs: Seq<PairEntry>, k: Seq<u8>) -> bool {
    exists|i: int| 0 <= i < pairs.len() && #[trigger] pairs[i].key@ == k
}

/// The pull into `recipient` of the token portion `a`, if it is one.
pub open spec fn pull_msgs(a: Asset, owner: String, recipient: String) -> Seq<FactoryMsg> {
    match a.info {
        AssetInfo::Token { contract_addr } => seq![
            FactoryMsg::TransferFrom { token: contract_addr, owner, recipient, amount: a.amount },
        ],
        AssetInfo::NativeToken { .. } => seq![],
    }
}

/// The allowance to `spender` of the token portion `a`, if it is one.
pub open spec fn allowance_msgs(a: Asset, spender: String) -> Seq<FactoryMsg> {
    match a.info {
        AssetInfo::Token { contract_addr } => seq![
            FactoryMsg::IncreaseAllowance { token: contract_addr, spender, amount: a.amount },
        ],
        AssetInfo::NativeToken { .. } => seq![],
    }
}

/// The coins that carry the native portion `a`, if it is one.
pub open spec fn native_coins(a: Asset) -> Seq<Coin> {
    match a.info {
        AssetInfo::NativeToken { denom } => seq![Coin { denom, amount: a.amount }],
        AssetInfo::Token { .. } => seq![],
    }
}

/// `msgs` deposit `assets` into the pair at `pair` for `receiver`: an
/// allowance for each token portion, then the deposit with the native
/// portions attached as coins.
pub open spec fn is_passthrough(msgs: Seq<FactoryMsg>, pair: String, assets: [Asset; 2], receiver: String) -> bool {
    &&& msgs.len() > 0
    &&& msgs.drop_last() == allowance_msgs(assets@[0], pair) + allowance_msgs(assets@[1], pair)
    &&& match msgs.last() {
        FactoryMsg::PairProvideLiquidity { pair: p, assets: a, receiver: rc, funds } => p == pair
            && a == assets && rc == receiver && funds@ == native_coins(assets@[0]) + native_coins(
            assets@[1],
        ),
        _ => false,
    }
}

fn push_pull(messages: &mut Vec<FactoryMsg>, a: &Asset, owner: &String, recipient: &String)
    ensures
        final(messages)@ == old(messages)@ + pull_msgs(*a, *owner, *recipient),
{
    if let AssetInfo::Token { contract_addr } = &a.info {
        messages.push(
            FactoryMsg::TransferFrom {
                token: contract_addr.clone(),
                owner: owner.clone(),
                recipient: recipient.clone(),
                amount: a.amount,
            },
        );
    }
    assert(messages@ =~= old(messages)@ + pull_msgs(*a, *owner, *recipient));
}

fn push_allowance(messages: &mut Vec<FactoryMsg>, a: &Asset, spender: &String)
    ensures
        final(messages)@ == old(messages)@ + allowance_msgs(*a, *spender),
{
    if let AssetInfo::Token { contract_addr } = &a.info {
        messages.push(
            FactoryMsg::IncreaseAllowance {
                token: contract_addr.clone(),
                spender: spender.clone(),
                amount: a.amount,
            },
        );
    }
    assert(messages@ =~= old(messages)@ + allowance_msgs(*a, *spender));
}

fn push_native(funds: &mut Vec<Coin>, a: &Asset)
    ensures
        final(funds)@ == old(funds)@ + native_coins(*a),
{
    if let AssetInfo::NativeToken { denom } = &a.info {
        funds.push(Coin { denom: denom.clone(), amount: a.amount });
    }
    assert(funds@ =~= old(funds)@ + native_coins(*a));
}

/// The characters of `s`.
fn chars_of(s: &String) -> (r: Vec<char>)
    ensures
        r@ == s@,
{
    let text = s.as_str();
    let n = text.unicode_len();
    let mut r: Vec<char> = Vec::new();
    let mut i: usize = 0;
    while i < n
        invariant
            n == text@.len(),
            text@ == s@,
            i <= n,
            r@ == s@.take(i as int),
        decreases n - i,
    {
        r.push(text.get_char(i));
        assert(s@.take(i + 1) =~= s@.take(i as int).push(s@[i as int]));
        i = i + 1;
    }
    assert(s@.take(n as int) =~= s@);
    r
}

/// Whether `prefix` is the authority part of `denom`.
fn authority_matches(prefix: &String, denom: &String) -> (r: bool)
    ensures
        r == is_authority_of(prefix@, denom@),
{
    let p = chars_of(prefix);
    let d = chars_of(denom);
    if p.len() >= d.len() {
        return false;
    }
    let mut count: usize = 0;
    let mut i: usize = 0;
    while i < p.len()
        invariant
            i <= p@.len(),
            count == slashes(p@.take(i as int)),
            count <= i,
            p@.len() < d@.len(),
            p@ == prefix@,
            d@ == denom@,
            forall|j: int| 0 <= j < i ==> d@[j] == p@[j],
        decreases p@.len() - i,
    {
        if p[i] != d[i] {
            proof {
                assert(d@.take(p@.len() as int)[i as int] != p@[i as int]);
                assert(d@.take(p@.len() as int) != p@);
            }
            return false;
        }
        assert(p@.take(i + 1).drop_last() =~= p@.take(i as int));
        if p[i] == '/' {
            count = count + 1;
        }
        i = i + 1;
    }
    assert(p@.take(p@.len() as int) =~= p@);
    assert(d@.take(p@.len() as int) =~= p@);
    count == 1 && d[p.len()] == '/'
}

/// Whether a pair holding `info` may only be created by a listed creator.
fn restricted(prefixes: &Vec<String>, info: &AssetInfo) -> (r: bool)
    ensures
        r == is_restricted(prefixes@, info@),
{
    match info {
        AssetInfo::Token { .. } => false,
        AssetInfo::NativeToken { denom } => {
            let mut i: usize = 0;
            while i < prefixes.len()
                invariant
                    i <= prefixes@.len(),
                    info@ == (true, denom@),
                    forall|j: int| 0 <= j < i ==> !is_authority_of(#[trigger] prefixes@[j]@, denom@),
                decreases prefixes@.len() - i,
            {
                if authority_matches(&prefixes[i], denom) {
                    assert(is_authority_of(prefixes@[i as int]@, info@.1));
                    return true;
                }
                i = i + 1;
            }
            false
        },
    }
}

impl Registration {
    pub fn duplicate(&self) -> (r: Registration)
        ensures
            r == *self,
    {
        match self {
            Registration::Pending => Registration::Pending,
            Registration::Registered { contract_addr, liquidity_token } => Registration::Registered {
                contract_addr: contract_addr.clone(),
                liquidity_token: liquidity_token.clone(),
            },
        }
    }
}

/// A copy of a pair of asset descriptions.
fn duplicate_infos(infos: &[AssetInfo; 2]) -> (r: [AssetInfo; 2])
    ensures
        r == *infos,
{
    let r = [infos[0].duplicate(), infos[1].duplicate()];
    assert(r@ =~= infos@);
    proof {
        vstd::array::axiom_array_ext_equal(r, *infos);
    }
    r
}

impl PairRecord {
    pub fn duplicate(&self) -> (r: PairRecord)
        ensures
            r == *self,
    {
        PairRecord {
            asset_infos: duplicate_infos(&self.asset_infos),
            oracle_addr: self.oracle_addr.clone(),
            commission_rate: self.commission_rate.clone(),
            operator_fee: self.operator_fee.clone(),
            registration: self.registration.duplicate(),
        }
    }
}

impl Factory {
    /// The keys increase strictly, each entry sits under its assets' key, and
    /// no creator is listed twice.
    pub open spec fn wf(&self) -> bool {
        &&& forall|i: int, j: int|
            0 <= i < j < self.pairs@.len() ==> bytes_lt(
                #[trigger] self.pairs@[i].key@,
                #[trigger] self.pairs@[j].key@,
            )
        &&& forall|i: int|
            0 <= i < self.pairs@.len() ==> (#[trigger] self.pairs@[i]).key@ == pair_key_of(
                infos_view(self.pairs@[i].record.asset_infos),
            )
        &&& forall|i: int, j: int|
            0 <= i < j < self.creators@.len() ==> (#[trigger] self.creators@[i])@
                != (#[trigger] self.creators@[j])@
    }

    /// Whether the state is well formed: keys strictly increasing, each entry
    /// under its assets' key, no creator listed twice.
    pub fn is_well_formed(&self) -> (r: bool)
        ensures
            r == self.wf(),
    {
        let n = self.pairs.len();
        let mut i: usize = 0;
        while i < n
            invariant
                n == self.pairs@.len(),
                i <= n,
                forall|a: int, b: int|
                    0 <= a < b < i ==> bytes_lt(
                        #[trigger] self.pairs@[a].key@,
                        #[trigger] self.pairs@[b].key@,
                    ),
                forall|a: int|
                    0 <= a < i ==> (#[trigger] self.pairs@[a]).key@ == pair_key_of(
                        infos_view(self.pairs@[a].record.asset_infos),
                    ),
            decreases n - i,
        {
            let key = pair_key(&self.pairs[i].record.asset_infos);
            if !bytes_equal(&key, &self.pairs[i].key) {
                return false;
            }
            if i > 0 {
                if !bytes_less(&self.pairs[i - 1].key, &self.pairs[i].key) {
                    return false;
                }
                proof {
                    assert forall|a: int| 0 <= a < i implies bytes_lt(
                        #[trigger] self.pairs@[a].key@,
                        self.pairs@[i as int].key@,
                    ) by {
                        if a < i - 1 {
                            lemma_bytes_lt_transitive(
                                self.pairs@[a].key@,
                                self.pairs@[i - 1].key@,
                                self.pairs@[i as int].key@,
                            );
                        }
                    }
                }
            }
            i = i + 1;
        }
        let m = self.creators.len();
        let mut a: usize = 0;
        while a < m
            invariant
                m == self.creators@.len(),
                a <= m,
                forall|x: int, y: int|
                    0 <= x < y < m && x < a ==> (#[trigger] self.creators@[x])@
                        != (#[trigger] self.creators@[y])@,
            decreases m - a,
        {
            let mut b: usize = a + 1;
            while b < m
                invariant
                    m == self.creators@.len(),
                    a < m,
                    a + 1 <= b <= m,
                    forall|x: int, y: int|
                        0 <= x < y < m && x < a ==> (#[trigger] self.creators@[x])@
                            != (#[trigger] self.creators@[y])@,
                    forall|y: int| a < y < b ==> self.creators@[a as int]@ != (#[trigger] self.creators@[y])@,
                decreases m - b,
            {
                if self.creators[a] == self.creators[b] {
                    return false;
                }
                b = b + 1;
            }
            a = a + 1;
        }
        true
    }

    /// `who` is the factory's owner.
    pub open spec fn is_owner(&self, who: Seq<char>) -> bool {
        self.config.owner@ == who
    }

    /// The error, if any, that creating a pair of `infos` by `sender` meets.
    pub open spec fn create_pair_error(&self, sender: Seq<char>, infos: [AssetInfo; 2]) -> Option<
        ContractError,
    > {
        let denied = |i: AssetInfo|
            is_restricted(self.restricted_prefixes@, i@) && !holds(self.creators@, sender);
        if denied(infos[0]) || denied(infos[1]) {
            Some(ContractError::Unauthorized)
        } else if has_key(self.pairs@, pair_key_of(infos_view(infos))) {
            Some(ContractError::PairExisted)
        } else {
            None
        }
    }

    /// A factory owned by `sender`; settings left out take the defaults.
    pub fn instantiate(sender: String, msg: InstantiateMsg) -> (r: Factory)
        ensures
            r.wf(),
            r.config.owner == sender,
            r.config.oracle_addr == msg.oracle_addr,
            r.config.token_code_id == msg.token_code_id,
            r.config.pair_code_id == msg.pair_code_id,
            msg.commission_rate matches Some(c) ==> r.config.commission_rate == c,
            msg.operator_fee matches Some(f) ==> r.config.operator_fee == f,
            r.config.commission_rate@ == rate_or_default(msg.commission_rate, DEFAULT_COMMISSION_RATE@),
            r.config.operator_fee@ == rate_or_default(msg.operator_fee, DEFAULT_OPERATOR_FEE@),
            r.config.operator == (match msg.operator {
                Some(o) => o,
                None => sender,
            }),
            r.pairs@.len() == 0,
            r.creators@.len() == 0,
            r.restricted_prefixes@.len() == 0,
    {
        let operator = match msg.operator {
            Some(o) => o,
            None => sender.clone(),
        };
        let commission_rate = match msg.commission_rate {
            Some(c) => c,
            None => String::from_str(DEFAULT_COMMISSION_RATE),
        };
        let operator_fee = match msg.operator_fee {
            Some(f) => f,
            None => String::from_str(DEFAULT_OPERATOR_FEE),
        };
        Factory {
            config: FactoryConfig {
                owner: sender,
                operator,
                oracle_addr: msg.oracle_addr,
                token_code_id: msg.token_code_id,
                pair_code_id: msg.pair_code_id,
                commission_rate,
                operator_fee,
            },
            pairs: Vec::new(),
            creators: Vec::new(),
            restricted_prefixes: Vec::new(),
        }
    }

    /// Rewrites the settings from a migration; the registry stays.
    pub fn migrate(&mut self, msg: MigrateMsg)
        requires
            old(self).wf(),
        ensures
            final(self).wf(),
            final(self).pairs == old(self).pairs,
            final(self).creators == old(self).creators,
            final(self).restricted_prefixes == old(self).restricted_prefixes,
            final(self).config.owner == msg.owner,
            final(self).config.operator == msg.operator,
            final(self).config.oracle_addr == msg.oracle_addr,
            final(self).config.token_code_id == msg.token_code_id,
            final(self).config.pair_code_id == msg.pair_code_id,
            msg.commission_rate matches Some(c) ==> final(self).config.commission_rate == c,
            msg.operator_fee matches Some(f) ==> final(self).config.operator_fee == f,
            final(self).config.commission_rate@ == rate_or_default(
                msg.commission_rate,
                DEFAULT_COMMISSION_RATE@,
            ),
            final(self).config.operator_fee@ == rate_or_default(msg.operator_fee, DEFAULT_OPERATOR_FEE@),
    {
        let commission_rate = match msg.commission_rate {
            Some(c) => c,
            None => String::from_str(DEFAULT_COMMISSION_RATE),
        };
        let operator_fee = match msg.operator_fee {
            Some(f) => f,
            None => String::from_str(DEFAULT_OPERATOR_FEE),
        };
        self.config = FactoryConfig {
            owner: msg.owner,
            operator: msg.operator,
            oracle_addr: msg.oracle_addr,
            token_code_id: msg.token_code_id,
            pair_code_id: msg.pair_code_id,
            commission_rate,
            operator_fee,
        };
    }

    /// Changes the owner and the code ids that are named; for the owner only.
    pub fn execute_update_config(
        &mut self,
        sender: &String,
        owner: Option<String>,
        token_code_id: Option<u64>,
        pair_code_id: Option<u64>,
    ) -> (r: Result<(), ContractError>)
        requires
            old(self).wf(),
        ensures
            final(self).wf(),
            update_config_post(*old(self), *final(self), *sender, owner, token_code_id, pair_code_id, r),
    {
        if self.config.owner != *sender {
            return Err(ContractError::Unauthorized);
        }
        if let Some(o) = owner {
            self.config.owner = o;
        }
        if let Some(t) = token_code_id {
            self.config.token_code_id = t;
        }
        if let Some(p) = pair_code_id {
            self.config.pair_code_id = p;
        }
        Ok(())
    }

    /// Lists `address` as a creator; for the owner only.
    pub fn add_creator(&mut self, sender: &String, address: String) -> (r: Result<(), ContractError>)
        requires
            old(self).wf(),
        ensures
            final(self).wf(),
            add_creator_post(*old(self), *final(self), *sender, address, r),
    {
        if self.config.owner != *sender {
            return Err(ContractError::Unauthorized);
        }
        if contains_name(&self.creators, &address) {
            return Err(ContractError::CreatorAlreadyExists);
        }
        self.creators.push(address);
        Ok(())
    }

    /// Takes `address` off the creators; for the owner only.
    pub fn remove_creator(&mut self, sender: &String, address: &String) -> (r: Result<(), ContractError>)
        requires
            old(self).wf(),
        ensures
            final(self).wf(),
            remove_creator_post(*old(self), *final(self), *sender, *address, r),
    {
        if self.config.owner != *sender {
            return Err(ContractError::Unauthorized);
        }
        let pos = match position_of(&self.creators, address) {
            Some(p) => p,
            None => return Err(ContractError::CreatorNotFound),
        };
        let ghost before = self.creators@;
        self.creators.remove(pos);
        proof {
            assert(before[pos as int]@ == address@);
            let after = self.creators@;
            assert forall|x: Seq<char>| #[trigger] holds(after, x) <==> holds(before, x) && x
                != address@ by {
                if holds(after, x) {
                    let i = choose|i: int| 0 <= i < after.len() && #[trigger] after[i]@ == x;
                    if i < pos {
                        assert(before[i]@ == x);
                        assert(x != address@);
                    } else {
                        assert(before[i + 1]@ == x);
                        assert(x != address@);
                    }
                }
                if holds(before, x) && x != address@ {
                    let i = choose|i: int| 0 <= i < before.len() && #[trigger] before[i]@ == x;
                    if i < pos {
                        assert(after[i]@ == x);
                    } else {
                        assert(i != pos);
                        assert(after[i - 1]@ == x);
                    }
                }
            }
            assert forall|i: int, j: int| 0 <= i < j < after.len() implies (
            #[trigger] after[i])@ != (#[trigger] after[j])@ by {
                let bi = if i < pos { i } else { i + 1 };
                let bj = if j < pos { j } else { j + 1 };
                assert(before[bi] == after[i]);
                assert(before[bj] == after[j]);
            }
        }
        Ok(())
    }

    /// Adds `prefix` to the restricted denom prefixes; for the owner only.
    pub fn execute_restrict_asset(&mut self, sender: &String, prefix: String) -> (r: Result<(), ContractError>)
        requires
            old(self).wf(),
        ensures
            final(self).wf(),
            restrict_asset_post(*old(self), *final(self), *sender, prefix, r),
    {
        if self.config.owner != *sender {
            return Err(ContractError::Unauthorized);
        }
        if contains_name(&self.restricted_prefixes, &prefix) {
            return Err(ContractError::RestrictPrefixExisted);
        }
        self.restricted_prefixes.push(prefix);
        Ok(())
    }

    /// Forwards an upgrade of the contract at `contract_addr`; for the owner only.
    pub fn migrate_pair(
        &self,
        sender: &String,
        contract_addr: String,
        new_code_id: u64,
        msg: Vec<u8>,
    ) -> (r: Result<FactoryMsg, ContractError>)
        ensures
            migrate_pair_post(*self, *sender, contract_addr, new_code_id, msg, r),
    {
        if self.config.owner != *sender {
            return Err(ContractError::Unauthorized);
        }
        Ok(FactoryMsg::Migrate { contract_addr, new_code_id, msg })
    }

    /// The position at which `key` is, or would go: the first entry whose key
    /// does not sort before it.
    fn search(&self, key: &Vec<u8>) -> (r: usize)
        requires
            self.wf(),
        ensures
            r <= self.pairs@.len(),
            forall|i: int| 0 <= i < r ==> bytes_lt(#[trigger] self.pairs@[i].key@, key@),
            r < self.pairs@.len() ==> !bytes_lt(self.pairs@[r as int].key@, key@),
    {
        let mut i: usize = 0;
        while i < self.pairs.len()
            invariant
                i <= self.pairs@.len(),
                forall|j: int| 0 <= j < i ==> bytes_lt(#[trigger] self.pairs@[j].key@, key@),
            decreases self.pairs@.len() - i,
        {
            if !bytes_less(&self.pairs[i].key, key) {
                return i;
            }
            i = i + 1;
        }
        i
    }

    /// The position of the entry under `key`, if any.
    pub fn find(&self, key: &Vec<u8>) -> (r: Option<usize>)
        requires
            self.wf(),
        ensures
            r is None <==> !has_key(self.pairs@, key@),
            r matches Some(i) ==> i < self.pairs@.len() && self.pairs@[i as int].key@ == key@,
    {
        let p = self.search(key);
        if p < self.pairs.len() && bytes_equal(&self.pairs[p].key, key) {
            return Some(p);
        }
        proof {
            if has_key(self.pairs@, key@) {
                let i = choose|i: int| 0 <= i < self.pairs@.len() && #[trigger] self.pairs@[i].key@ == key@;
                lemma_bytes_lt_irreflexive(key@);
                if i > p {
                    lemma_bytes_lt_total(self.pairs@[p as int].key@, key@);
                    assert(bytes_lt(self.pairs@[p as int].key@, self.pairs@[i].key@));
                }
            }
        }
        None
    }

    /// Puts `entry` into the registry at its place in key order; the key is
    /// not yet present.
    fn insert_entry(&mut self, entry: PairEntry)
        requires
            old(self).wf(),
            !has_key(old(self).pairs@, entry.key@),
            entry.key@ == pair_key_of(infos_view(entry.record.asset_infos)),
        ensures
            final(self).wf(),
            *final(self) == (Factory { pairs: final(self).pairs, ..*old(self) }),
            has_key(final(self).pairs@, entry.key@),
            forall|k: Seq<u8>| #[trigger]
                has_key(final(self).pairs@, k) <==> has_key(old(self).pairs@, k) || k == entry.key@,
            exists|i: int|
                0 <= i < final(self).pairs@.len() && final(self).pairs@[i] == entry,
            forall|i: int|
                0 <= i < old(self).pairs@.len() ==> final(self).pairs@.contains(
                    #[trigger] old(self).pairs@[i],
                ),
    {
        let p = self.search(&entry.key);
        let ghost before = self.pairs@;
        let ghost k = entry.key@;
        let ghost e = entry;
        proof {
            if p < before.len() {
                lemma_bytes_lt_total(before[p as int].key@, k);
                assert(before[p as int].key@ != k);
            }
        }
        self.pairs.insert(p, entry);
        proof {
            let after = self.pairs@;
            assert(after[p as int] == e);
            assert forall|i: int, j: int| 0 <= i < j < after.len() implies bytes_lt(
                #[trigger] after[i].key@,
                #[trigger] after[j].key@,
            ) by {
                if j < p {
                } else if j == p {
                } else if i < p {
                    lemma_bytes_lt_transitive(after[i].key@, k, before[p as int].key@);
                    if j - 1 > p {
                        lemma_bytes_lt_transitive(
                            after[i].key@,
                            before[p as int].key@,
                            after[j].key@,
                        );
                    }
                } else if i == p {
                    if j - 1 > p {
                        lemma_bytes_lt_transitive(k, before[p as int].key@, after[j].key@);
                    }
                } else {
                    assert(after[i] == before[i - 1]);
                    assert(after[j] == before[j - 1]);
                }
            }
            assert forall|k2: Seq<u8>| #[trigger]
                has_key(after, k2) <==> has_key(before, k2) || k2 == k by {
                if has_key(after, k2) {
                    let i = choose|i: int| 0 <= i < after.len() && #[trigger] after[i].key@ == k2;
                    if i < p {
                        assert(before[i].key@ == k2);
                    } else if i > p {
                        assert(before[i - 1].key@ == k2);
                    }
                }
                if has_key(before, k2) {
                    let i = choose|i: int| 0 <= i < before.len() && #[trigger] before[i].key@ == k2;
                    if i < p {
                        assert(after[i].key@ == k2);
                    } else {
                        assert(after[i + 1].key@ == k2);
                    }
                }
                if k2 == k {
                    assert(after[p as int].key@ == k2);
                }
            }
            assert forall|i: int| 0 <= i < before.len() implies after.contains(
                #[trigger] before[i],
            ) by {
                if i < p {
                    assert(after[i] == before[i]);
                } else {
                    assert(after[i + 1] == before[i]);
                }
            }
        }
    }

    /// Accepts the creation of a pair of `asset_infos` by `sender`: records it
    /// as pending under its key, with the factory's fee terms, and asks for
    /// the pair's instantiation, tagged for the reply. The pair's admin is
    /// `pair_admin`, or the factory at `factory_addr`. With `provide_liquidity`,
    /// the token portions are pulled into the factory and a deposit through
    /// the factory follows. Refused where an asset is restricted and the
    /// sender is no creator, or where the pair exists already.
    pub fn execute_create_pair(
        &mut self,
        sender: String,
        factory_addr: String,
        asset_infos: [AssetInfo; 2],
        pair_admin: Option<String>,
        provide_liquidity: Option<ProvideLiquidityParams>,
        funds: Vec<Coin>,
    ) -> (r: Result<CreatePairOutcome, ContractError>)
        requires
            old(self).wf(),
        ensures
            final(self).wf(),
            create_pair_post(*old(self), *final(self), sender, factory_addr, asset_infos, pair_admin, provide_liquidity, funds, match r {
                Ok(o) => Ok((o.instantiate, o.messages@)),
                Err(e) => Err(e),
            }),
    {
        let denied0 = restricted(&self.restricted_prefixes, &asset_infos[0]) && !contains_name(
            &self.creators,
            &sender,
        );
        let denied1 = restricted(&self.restricted_prefixes, &asset_infos[1]) && !contains_name(
            &self.creators,
            &sender,
        );
        if denied0 || denied1 {
            return Err(ContractError::Unauthorized);
        }
        let key = pair_key(&asset_infos);
        if self.find(&key).is_some() {
            return Err(ContractError::PairExisted);
        }
        let record = PairRecord {
            asset_infos: duplicate_infos(&asset_infos),
            oracle_addr: self.config.oracle_addr.clone(),
            commission_rate: self.config.commission_rate.clone(),
            operator_fee: self.config.operator_fee.clone(),
            registration: Registration::Pending,
        };
        let ghost rec = record;
        let ghost k = key@;
        self.insert_entry(PairEntry { key, record });
        proof {
            let i = choose|i: int|
                0 <= i < self.pairs@.len() && self.pairs@[i] == (PairEntry { key: self.pairs@[i].key, record: rec });
            assert(self.pairs@[i].key@ == k);
        }
        let admin = match pair_admin {
            Some(a) => a,
            None => factory_addr.clone(),
        };
        let mut messages: Vec<FactoryMsg> = Vec::new();
        if let Some(params) = provide_liquidity {
            let receiver = match params.receiver {
                Some(x) => x,
                None => sender.clone(),
            };
            let ghost pulls = pull_msgs(params.assets@[0], sender, factory_addr) + pull_msgs(
                params.assets@[1],
                sender,
                factory_addr,
            );
            push_pull(&mut messages, &params.assets[0], &sender, &factory_addr);
            push_pull(&mut messages, &params.assets[1], &sender, &factory_addr);
            assert(messages@ =~= pulls);
            messages.push(
                FactoryMsg::FactoryProvideLiquidity {
                    factory: factory_addr,
                    assets: params.assets,
                    receiver,
                    funds,
                },
            );
            assert(messages@ =~= pulls + seq![messages@.last()]);
        }
        let instantiate = FactoryMsg::InstantiatePair {
            code_id: self.config.pair_code_id,
            admin: admin.clone(),
            msg: PairInstantiateMsg {
                oracle_addr: self.config.oracle_addr.clone(),
                asset_infos,
                token_code_id: self.config.token_code_id,
                commission_rate: Some(self.config.commission_rate.clone()),
                admin: Some(admin),
                operator_fee: Some(self.config.operator_fee.clone()),
                operator: Some(self.config.operator.clone()),
            },
            reply_id: INSTANTIATE_REPLY_ID,
        };
        Ok(CreatePairOutcome { instantiate, messages })
    }
}

/// `info` is what the record `rec` reports of its pair; a pending pair has
/// no addresses yet.
pub open spec fn reports(info: PairInfo, rec: PairRecord) -> bool {
    &&& info.asset_infos == rec.asset_infos
    &&& info.oracle_addr == rec.oracle_addr
    &&& info.commission_rate == rec.commission_rate
    &&& info.operator_fee == rec.operator_fee
    &&& match rec.registration {
        Registration::Registered { contract_addr, liquidity_token } => info.contract_addr
            == contract_addr && info.liquidity_token == liquidity_token,
        Registration::Pending => info.contract_addr@ == Seq::<char>::empty()
            && info.liquidity_token@ == Seq::<char>::empty(),
    }
}

/// A page of a listing starts at position `p`: the first entry whose key
/// comes after that of `start_after`, or the first entry without a cursor.
pub open spec fn starts_page(pairs: Seq<PairEntry>, start_after: Option<[AssetInfo; 2]>, p: int) -> bool {
    &&& 0 <= p <= pairs.len()
    &&& match start_after {
        None => p == 0,
        Some(s) => (forall|j: int|
            0 <= j < p ==> !bytes_lt(pair_key_of(infos_view(s)), #[trigger] pairs[j].key@)) && (p
            < pairs.len() ==> bytes_lt(pair_key_of(infos_view(s)), pairs[p].key@)),
    }
}

/// The pair under key `k` has completed its registration.
pub open spec fn registered_at(pairs: Seq<PairEntry>, k: Seq<u8>) -> bool {
    exists|i: int|
        0 <= i < pairs.len() && #[trigger] pairs[i].key@ == k && pairs[i].record.registration is Registered
}

/// The contract address that an instantiation acknowledgement carries, where
/// its bytes decode.
pub uninterp spec fn instantiate_reply_address(data: Seq<u8>) -> Option<Seq<char>>;

/// Relies on `cw_utils::parse_instantiate_response_data`: the contract address
/// decoded from the protobuf acknowledgement of an instantiation, which
/// depends on the bytes alone.
#[verifier::external_body]
fn decode_instantiate_address(data: &Vec<u8>) -> (r: Option<String>)
    ensures
        match r {
            Some(a) => instantiate_reply_address(data@) == Some(a@),
            None => instantiate_reply_address(data@) is None,
        },
{
    cw_utils::parse_instantiate_response_data(data.as_slice()).ok().map(|res| res.contract_address)
}

/// A copy of a list of names.
fn copy_names(list: &Vec<String>) -> (r: Vec<String>)
    ensures
        r@ == list@,
{
    let mut r: Vec<String> = Vec::new();
    let mut i: usize = 0;
    while i < list.len()
        invariant
            i <= list@.len(),
            r@ == list@.take(i as int),
        decreases list@.len() - i,
    {
        r.push(list[i].clone());
        assert(list@.take(i + 1) =~= list@.take(i as int).push(list@[i as int]));
        i = i + 1;
    }
    assert(list@.take(list@.len() as int) =~= list@);
    r
}

/// The address that the acknowledgement of the instantiation tagged `id`
/// reports for the new pair. Only the factory's own tag is answered.
pub fn reply_address(id: u64, data: &Vec<u8>) -> (r: Result<String, ContractError>)
    ensures
        id != INSTANTIATE_REPLY_ID ==> r is Err && r->Err_0 is Std,
        id == INSTANTIATE_REPLY_ID ==> match r {
            Ok(a) => instantiate_reply_address(data@) == Some(a@),
            Err(e) => instantiate_reply_address(data@) is None && e is Std,
        },
{
    if id != INSTANTIATE_REPLY_ID {
        return Err(ContractError::Std { msg: String::from_str("unknown reply id") });
    }
    match decode_instantiate_address(data) {
        Some(a) => Ok(a),
        None => Err(
            ContractError::Std { msg: String::from_str("MsgInstantiateContractResponse: failed to parse data") },
        ),
    }
}

/// What the factory reports of its settings.
#[derive(Clone, Debug, PartialEq, Eq)]
pub struct ConfigResponse {
    pub owner: String,
    pub oracle_addr: String,
    pub pair_code_id: u64,
    pub token_code_id: u64,
    pub commission_rate: String,
    pub operator_fee: String,
    pub operator: String,
}

/// A page of pairs.
#[derive(Clone, Debug, PartialEq, Eq)]
pub struct PairsResponse {
    pub pairs: Vec<PairInfo>,
}

/// The description that a record reports.
fn to_info(rec: &PairRecord) -> (r: PairInfo)
    ensures
        reports(r, *rec),
{
    let (contract_addr, liquidity_token) = match &rec.registration {
        Registration::Registered { contract_addr, liquidity_token } => (
            contract_addr.clone(),
            liquidity_token.clone(),
        ),
        Registration::Pending => (String::new(), String::new()),
    };
    PairInfo {
        asset_infos: duplicate_infos(&rec.asset_infos),
        contract_addr,
        liquidity_token,
        oracle_addr: rec.oracle_addr.clone(),
        commission_rate: rec.commission_rate.clone(),
        operator_fee: rec.operator_fee.clone(),
    }
}

impl Factory {
    /// Registers an existing pair by hand, complete with its addresses; for
    /// the owner only, and never over an existing pair.
    pub fn execute_add_pair_manually(&mut self, sender: &String, pair_info: PairInfo) -> (r: Result<
        (),
        ContractError,
    >)
        requires
            old(self).wf(),
        ensures
            final(self).wf(),
            add_pair_post(*old(self), *final(self), *sender, pair_info, r),
    {
        if self.config.owner != *sender {
            return Err(ContractError::Unauthorized);
        }
        let key = pair_key(&pair_info.asset_infos);
        if self.find(&key).is_some() {
            return Err(ContractError::PairExisted);
        }
        let ghost info = pair_info;
        let ghost k = key@;
        let record = PairRecord {
            asset_infos: pair_info.asset_infos,
            oracle_addr: pair_info.oracle_addr,
            commission_rate: pair_info.commission_rate,
            operator_fee: pair_info.operator_fee,
            registration: Registration::Registered {
                contract_addr: pair_info.contract_addr,
                liquidity_token: pair_info.liquidity_token,
            },
        };
        let ghost rec = record;
        assert(reports(info, rec));
        self.insert_entry(PairEntry { key, record });
        proof {
            let i = choose|i: int|
                0 <= i < self.pairs@.len() && self.pairs@[i] == (PairEntry { key: self.pairs@[i].key, record: rec });
            assert(self.pairs@[i].key@ == k);
        }
        Ok(())
    }

    /// Completes the creation of the pair at `pair_contract`, whose assets
    /// and share token the pair itself reported: fills in its addresses,
    /// once. Refused where no such pair was created, or where it is
    /// registered already.
    pub fn reply(
        &mut self,
        pair_contract: String,
        asset_infos: &[AssetInfo; 2],
        liquidity_token: String,
    ) -> (r: Result<(), ContractError>)
        requires
            old(self).wf(),
        ensures
            final(self).wf(),
            ({
                let key = pair_key_of(infos_view(*asset_infos));
                &&& !has_key(old(self).pairs@, key) ==> r == Err::<(), ContractError>(
                    ContractError::NotFound,
                )
                &&& registered_at(old(self).pairs@, key) ==> r == Err::<(), ContractError>(
                    ContractError::PairRegistered,
                )
                &&& r is Err ==> *final(self) == *old(self)
                &&& r is Ok <==> has_key(old(self).pairs@, key) && !registered_at(old(self).pairs@, key)
                &&& r is Ok ==> exists|i: int|
                    0 <= i < old(self).pairs@.len() && old(self).pairs@[i].key@ == key
                        && final(self).pairs@ == old(self).pairs@.update(
                        i,
                        PairEntry {
                            key: old(self).pairs@[i].key,
                            record: PairRecord {
                                registration: Registration::Registered {
                                    contract_addr: pair_contract,
                                    liquidity_token,
                                },
                                ..old(self).pairs@[i].record
                            },
                        },
                    ) && *final(self) == (Factory { pairs: final(self).pairs, ..*old(self) })
            }),
    {
        let key = pair_key(asset_infos);
        let i = match self.find(&key) {
            Some(i) => i,
            None => return Err(ContractError::NotFound),
        };
        proof {
            if registered_at(self.pairs@, key@) {
                let j = choose|j: int|
                    0 <= j < self.pairs@.len() && #[trigger] self.pairs@[j].key@ == key@
                        && self.pairs@[j].record.registration is Registered;
                if j != i {
                    lemma_bytes_lt_irreflexive(key@);
                    if j < i {
                        assert(bytes_lt(self.pairs@[j].key@, self.pairs@[i as int].key@));
                    } else {
                        assert(bytes_lt(self.pairs@[i as int].key@, self.pairs@[j].key@));
                    }
                }
            }
        }
        if let Registration::Registered { .. } = &self.pairs[i].record.registration {
            return Err(ContractError::PairRegistered);
        }
        let ghost before = self.pairs@;
        self.pairs[i].record.registration = Registration::Registered {
            contract_addr: pair_contract,
            liquidity_token,
        };
        proof {
            assert forall|a: int, b: int| 0 <= a < b < self.pairs@.len() implies bytes_lt(
                #[trigger] self.pairs@[a].key@,
                #[trigger] self.pairs@[b].key@,
            ) by {
                assert(self.pairs@[a].key == before[a].key);
                assert(self.pairs@[b].key == before[b].key);
            }
            assert forall|a: int| 0 <= a < self.pairs@.len() implies (
            #[trigger] self.pairs@[a]).key@ == pair_key_of(
                infos_view(self.pairs@[a].record.asset_infos),
            ) by {
                assert(self.pairs@[a].key == before[a].key);
                assert(self.pairs@[a].record.asset_infos == before[a].record.asset_infos);
            }
        }
        Ok(())
    }

    /// Deposits into a registered pair on behalf of a creator: allowances
    /// for the token portions, then the deposit with the native portions
    /// attached. Only the factory itself, at `factory_addr`, may ask.
    pub fn execute_provide_liquidity(
        &self,
        sender: &String,
        factory_addr: &String,
        assets: [Asset; 2],
        receiver: String,
    ) -> (r: Result<Vec<FactoryMsg>, ContractError>)
        requires
            self.wf(),
        ensures
            provide_passthrough_post(*self, *sender, *factory_addr, assets, receiver, r),
    {
        if *sender != *factory_addr {
            return Err(ContractError::Unauthorized);
        }
        let infos = [assets[0].info.duplicate(), assets[1].info.duplicate()];
        let key = pair_key(&infos);
        proof {
            assert(infos_view(infos) =~= seq![assets[0].info@, assets[1].info@]);
        }
        let i = match self.find(&key) {
            Some(i) => i,
            None => return Err(ContractError::NotFound),
        };
        proof {
            if registered_at(self.pairs@, key@) {
                let j = choose|j: int|
                    0 <= j < self.pairs@.len() && #[trigger] self.pairs@[j].key@ == key@
                        && self.pairs@[j].record.registration is Registered;
                if j != i {
                    lemma_bytes_lt_irreflexive(key@);
                    if j < i {
                        assert(bytes_lt(self.pairs@[j].key@, self.pairs@[i as int].key@));
                    } else {
                        assert(bytes_lt(self.pairs@[i as int].key@, self.pairs@[j].key@));
                    }
                }
            }
        }
        let pair = match &self.pairs[i].record.registration {
            Registration::Registered { contract_addr, .. } => contract_addr.clone(),
            Registration::Pending => return Err(
                ContractError::Std { msg: String::from_str("pair is not registered yet") },
            ),
        };
        let mut funds: Vec<Coin> = Vec::new();
        let mut msgs: Vec<FactoryMsg> = Vec::new();
        push_native(&mut funds, &assets[0]);
        push_native(&mut funds, &assets[1]);
        push_allowance(&mut msgs, &assets[0], &pair);
        push_allowance(&mut msgs, &assets[1], &pair);
        let ghost allowances = msgs@;
        msgs.push(FactoryMsg::PairProvideLiquidity { pair, assets, receiver, funds });
        assert(msgs@.drop_last() =~= allowances);
        assert(self.pairs@[i as int].key@ == key@);
        Ok(msgs)
    }

    /// The factory's settings.
    pub fn query_config(&self) -> (r: ConfigResponse)
        ensures
            config_reports(*self, r),
    {
        ConfigResponse {
            owner: self.config.owner.clone(),
            oracle_addr: self.config.oracle_addr.clone(),
            pair_code_id: self.config.pair_code_id,
            token_code_id: self.config.token_code_id,
            commission_rate: self.config.commission_rate.clone(),
            operator_fee: self.config.operator_fee.clone(),
            operator: self.config.operator.clone(),
        }
    }

    /// The pair of `asset_infos`, given in either order.
    pub fn query_pair(&self, asset_infos: &[AssetInfo; 2]) -> (r: Result<PairInfo, ContractError>)
        requires
            self.wf(),
        ensures
            query_pair_post(*self, *asset_infos, r),
    {
        let key = pair_key(asset_infos);
        match self.find(&key) {
            Some(i) => Ok(to_info(&self.pairs[i].record)),
            None => Err(ContractError::NotFound),
        }
    }

    /// Up to `limit` pairs (ten by default, thirty at most) whose keys come
    /// after that of `start_after`, in key order.
    pub fn query_pairs(&self, start_after: Option<[AssetInfo; 2]>, limit: Option<u32>) -> (r:
        PairsResponse)
        requires
            self.wf(),
        ensures
            query_pairs_post(*self, start_after, limit, r),
    {
        let n: u32 = match limit {
            Some(l) => if l < MAX_LIMIT {
                l
            } else {
                MAX_LIMIT
            },
            None => DEFAULT_LIMIT,
        };
        let mut p: usize = 0;
        match &start_after {
            Some(s) => {
                let start = pair_key(s);
                while p < self.pairs.len() && !bytes_less(&start, &self.pairs[p].key)
                    invariant
                        p <= self.pairs@.len(),
                        start@ == pair_key_of(infos_view(*s)),
                        forall|j: int|
                            0 <= j < p ==> !bytes_lt(start@, #[trigger] self.pairs@[j].key@),
                    decreases self.pairs@.len() - p,
                {
                    p = p + 1;
                }
            },
            None => {},
        }
        let mut pairs: Vec<PairInfo> = Vec::new();
        let mut i: usize = p;
        while i < self.pairs.len() && i - p < n as usize
            invariant
                p <= i <= self.pairs@.len(),
                i - p <= n,
                pairs@.len() == i - p,
                forall|j: int|
                    0 <= j < pairs@.len() ==> reports(#[trigger] pairs@[j], self.pairs@[p + j].record),
            decreases self.pairs@.len() - i,
        {
            pairs.push(to_info(&self.pairs[i].record));
            i = i + 1;
        }
        assert(starts_page(self.pairs@, start_after, p as int));
        PairsResponse { pairs }
    }

    /// The restricted denom prefixes.
    pub fn query_restricted_assets(&self) -> (r: Vec<String>)
        ensures
            r@ == self.restricted_prefixes@,
    {
        copy_names(&self.restricted_prefixes)
    }

    /// The listed creators.
    pub fn get_creators(&self) -> (r: Vec<String>)
        ensures
            r@ == self.creators@,
    {
        copy_names(&self.creators)
    }
}

/// Adding a creator that was not listed and then removing it leaves the
/// list of creators as it was.
pub proof fn lemma_add_then_remove_creator(
    before: Seq<String>,
    added: Seq<String>,
    after: Seq<String>,
    address: String,
)
    requires
        !holds(before, address@),
        added == before.push(address),
        exists|i: int|
            0 <= i < added.len() && #[trigger] added[i]@ == address@ && after == added.remove(i),
    ensures
        after == before,
{
    let i = choose|i: int|
        0 <= i < added.len() && #[trigger] added[i]@ == address@ && after == added.remove(i);
    if i < before.len() {
        assert(before[i]@ == address@);
    }
    assert(added.remove(i) =~= before);
}

/// What `execute_update_config` does: `post` and `r` from `pre`.
pub open spec fn update_config_post(
    pre: Factory,
    post: Factory,
    sender: String,
    owner: Option<String>,
    token_code_id: Option<u64>,
    pair_code_id: Option<u64>,
    r: Result<(), ContractError>,
) -> bool {
    &&& (!pre.is_owner(sender@) ==> r == Err::<(), ContractError>(ContractError::Unauthorized)
                && post == pre)
    &&& (pre.is_owner(sender@) ==> {
                &&& r is Ok
                &&& post.pairs == pre.pairs
                &&& post.creators == pre.creators
                &&& post.restricted_prefixes == pre.restricted_prefixes
                &&& post.config.owner == (match owner {
                    Some(o) => o,
                    None => pre.config.owner,
                })
                &&& post.config.token_code_id == (match token_code_id {
                    Some(t) => t,
                    None => pre.config.token_code_id,
                })
                &&& post.config.pair_code_id == (match pair_code_id {
                    Some(p) => p,
                    None => pre.config.pair_code_id,
                })
                &&& post.config.operator == pre.config.operator
                &&& post.config.oracle_addr == pre.config.oracle_addr
                &&& post.config.commission_rate == pre.config.commission_rate
                &&& post.config.operator_fee == pre.config.operator_fee
            })
}

/// What `add_creator` does: `post` and `r` from `pre`.
pub open spec fn add_creator_post(
    pre: Factory,
    post: Factory,
    sender: String,
    address: String,
    r: Result<(), ContractError>,
) -> bool {
    &&& (!pre.is_owner(sender@) ==> r == Err::<(), ContractError>(ContractError::Unauthorized)
                && post == pre)
    &&& (pre.is_owner(sender@) && holds(pre.creators@, address@) ==> r == Err::<
                (), ContractError, >(ContractError::CreatorAlreadyExists) && post == pre)
    &&& (pre.is_owner(sender@) && !holds(pre.creators@, address@) ==> r is Ok
                && post.creators@ == pre.creators@.push(address) && post == (
            Factory { creators: post.creators, ..pre }))
}

/// What `remove_creator` does: `post` and `r` from `pre`.
pub open spec fn remove_creator_post(
    pre: Factory,
    post: Factory,
    sender: String,
    address: String,
    r: Result<(), ContractError>,
) -> bool {
    &&& (!pre.is_owner(sender@) ==> r == Err::<(), ContractError>(ContractError::Unauthorized)
                && post == pre)
    &&& (pre.is_owner(sender@) && !holds(pre.creators@, address@) ==> r == Err::<
                (), ContractError, >(ContractError::CreatorNotFound) && post == pre)
    &&& (pre.is_owner(sender@) && holds(pre.creators@, address@) ==> {
                &&& r is Ok
                &&& post == (Factory { creators: post.creators, ..pre })
                &&& !holds(post.creators@, address@)
                &&& exists|i: int|
                    0 <= i < pre.creators@.len() && #[trigger] pre.creators@[i]@
                        == address@ && post.creators@ == pre.creators@.remove(i)
                &&& forall|x: Seq<char>|
                    x != address@ ==> (#[trigger] holds(post.creators@, x) <==> holds(
                        pre.creators@,
                        x,
                    ))
            })
}

/// What `execute_restrict_asset` does: `post` and `r` from `pre`.
pub open spec fn restrict_asset_post(
    pre: Factory,
    post: Factory,
    sender: String,
    prefix: String,
    r: Result<(), ContractError>,
) -> bool {
    &&& (!pre.is_owner(sender@) ==> r == Err::<(), ContractError>(ContractError::Unauthorized)
                && post == pre)
    &&& (pre.is_owner(sender@) && holds(pre.restricted_prefixes@, prefix@) ==> r
                == Err::<(), ContractError>(ContractError::RestrictPrefixExisted) && post
                == pre)
    &&& (pre.is_owner(sender@) && !holds(pre.restricted_prefixes@, prefix@) ==> r is Ok
                && post.restricted_prefixes@ == pre.restricted_prefixes@.push(prefix)
                && post == (Factory {
                restricted_prefixes: post.restricted_prefixes,
                ..pre
            }))
}

/// What `migrate_pair` answers.
pub open spec fn migrate_pair_post(
    pre: Factory,
    sender: String,
    contract_addr: String,
    new_code_id: u64,
    msg: Vec<u8>,
    r: Result<FactoryMsg, ContractError>,
) -> bool {
    &&& (!pre.is_owner(sender@) ==> r == Err::<FactoryMsg, ContractError>(
                ContractError::Unauthorized,
            ))
    &&& (pre.is_owner(sender@) ==> r == Ok::<FactoryMsg, ContractError>(
                FactoryMsg::Migrate { contract_addr, new_code_id, msg },
            ))
}

/// What `execute_add_pair_manually` does: `post` and `r` from `pre`.
pub open spec fn add_pair_post(
    pre: Factory,
    post: Factory,
    sender: String,
    pair_info: PairInfo,
    r: Result<(), ContractError>,
) -> bool {
    &&& (!pre.is_owner(sender@) ==> r == Err::<(), ContractError>(ContractError::Unauthorized)
                && post == pre)
    &&& (pre.is_owner(sender@) && has_key(
                pre.pairs@,
                pair_key_of(infos_view(pair_info.asset_infos)),
            ) ==> r == Err::<(), ContractError>(ContractError::PairExisted) && post
                == pre)
    &&& (pre.is_owner(sender@) && !has_key(
                pre.pairs@,
                pair_key_of(infos_view(pair_info.asset_infos)),
            ) ==> {
                let key = pair_key_of(infos_view(pair_info.asset_infos));
                &&& r is Ok
                &&& post == (Factory { pairs: post.pairs, ..pre })
                &&& exists|i: int|
                    0 <= i < post.pairs@.len() && post.pairs@[i].key@ == key
                        && reports(pair_info, post.pairs@[i].record)
                        && post.pairs@[i].record.registration is Registered
                &&& forall|k: Seq<u8>| #[trigger]
                    has_key(post.pairs@, k) <==> has_key(pre.pairs@, k) || k == key
                &&& forall|i: int|
                    0 <= i < pre.pairs@.len() ==> post.pairs@.contains(
                        #[trigger] pre.pairs@[i],
                    )
            })
}

/// What `execute_create_pair` does: `post` from `pre`, and `r` holds the
/// instantiation message and the messages that follow it.
pub open spec fn create_pair_post(
    pre: Factory,
    post: Factory,
    sender: String,
    factory_addr: String,
    asset_infos: [AssetInfo; 2],
    pair_admin: Option<String>,
    provide_liquidity: Option<ProvideLiquidityParams>,
    funds: Vec<Coin>,
    r: Result<(FactoryMsg, Seq<FactoryMsg>), ContractError>,
) -> bool {
    &&& (match r {
                Ok(_) => pre.create_pair_error(sender@, asset_infos) is None,
                Err(e) => pre.create_pair_error(sender@, asset_infos) == Some(e),
            })
    &&& (r is Err ==> post == pre)
    &&& (r matches Ok(o) ==> {
                let key = pair_key_of(infos_view(asset_infos));
                let rec = PairRecord {
                    asset_infos,
                    oracle_addr: pre.config.oracle_addr,
                    commission_rate: pre.config.commission_rate,
                    operator_fee: pre.config.operator_fee,
                    registration: Registration::Pending,
                };
                &&& post == (Factory { pairs: post.pairs, ..pre })
                &&& exists|i: int|
                    0 <= i < post.pairs@.len() && post.pairs@[i].key@ == key
                        && post.pairs@[i].record == rec
                &&& forall|k: Seq<u8>| #[trigger]
                    has_key(post.pairs@, k) <==> has_key(pre.pairs@, k) || k == key
                &&& forall|i: int|
                    0 <= i < pre.pairs@.len() ==> post.pairs@.contains(
                        #[trigger] pre.pairs@[i],
                    )
                &&& o.0 == FactoryMsg::InstantiatePair {
                    code_id: pre.config.pair_code_id,
                    admin: match pair_admin {
                        Some(a) => a,
                        None => factory_addr,
                    },
                    msg: PairInstantiateMsg {
                        oracle_addr: pre.config.oracle_addr,
                        asset_infos,
                        token_code_id: pre.config.token_code_id,
                        commission_rate: Some(pre.config.commission_rate),
                        admin: Some(
                            match pair_admin {
                                Some(a) => a,
                                None => factory_addr,
                            },
                        ),
                        operator_fee: Some(pre.config.operator_fee),
                        operator: Some(pre.config.operator),
                    },
                    reply_id: INSTANTIATE_REPLY_ID,
                }
                &&& provide_liquidity is None ==> o.1.len() == 0
                &&& provide_liquidity matches Some(params) ==> o.1 == pull_msgs(
                    params.assets@[0],
                    sender,
                    factory_addr,
                ) + pull_msgs(params.assets@[1], sender, factory_addr) + seq![
                    FactoryMsg::FactoryProvideLiquidity {
                        factory: factory_addr,
                        assets: params.assets,
                        receiver: match params.receiver {
                            Some(x) => x,
                            None => sender,
                        },
                        funds,
                    },
                ]
            })
}

/// What `execute_provide_liquidity` answers.
pub open spec fn provide_passthrough_post(
    pre: Factory,
    sender: String,
    factory_addr: String,
    assets: [Asset; 2],
    receiver: String,
    r: Result<Vec<FactoryMsg>, ContractError>,
) -> bool {
    &&& (sender@ != factory_addr@ ==> r == Err::<Vec<FactoryMsg>, ContractError>(
                ContractError::Unauthorized,
            ))
    &&& (({
                let key = pair_key_of(seq![assets[0].info@, assets[1].info@]);
                &&& sender@ == factory_addr@ && !has_key(pre.pairs@, key) ==> r == Err::<
                    Vec<FactoryMsg>,
                    ContractError,
                >(ContractError::NotFound)
                &&& sender@ == factory_addr@ && registered_at(pre.pairs@, key) ==> r is Ok
                &&& sender@ == factory_addr@ && has_key(pre.pairs@, key) && !registered_at(
                    pre.pairs@,
                    key,
                ) ==> r is Err && r->Err_0 is Std
                &&& r matches Ok(msgs) ==> exists|i: int|
                    0 <= i < pre.pairs@.len() && #[trigger] pre.pairs@[i].key@ == key && match pre.pairs@[i].record.registration {
                        Registration::Registered { contract_addr, .. } => is_passthrough(
                            msgs@,
                            contract_addr,
                            assets,
                            receiver,
                        ),
                        Registration::Pending => false,
                    }
            }))
}

/// `r` reports the settings of `pre`.
pub open spec fn config_reports(
    pre: Factory,
    r: ConfigResponse,
) -> bool {
    &&& (r.owner == pre.config.owner)
    &&& (r.oracle_addr == pre.config.oracle_addr)
    &&& (r.pair_code_id == pre.config.pair_code_id)
    &&& (r.token_code_id == pre.config.token_code_id)
    &&& (r.commission_rate == pre.config.commission_rate)
    &&& (r.operator_fee == pre.config.operator_fee)
    &&& (r.operator == pre.config.operator)
}

/// What `query_pair` answers.
pub open spec fn query_pair_post(
    pre: Factory,
    asset_infos: [AssetInfo; 2],
    r: Result<PairInfo, ContractError>,
) -> bool {
    &&& (({
                let key = pair_key_of(infos_view(asset_infos));
                &&& !has_key(pre.pairs@, key) ==> r == Err::<PairInfo, ContractError>(
                    ContractError::NotFound,
                )
                &&& r matches Ok(info) ==> exists|i: int|
                    0 <= i < pre.pairs@.len() && pre.pairs@[i].key@ == key && reports(
                        info,
                        pre.pairs@[i].record,
                    )
                &&& has_key(pre.pairs@, key) ==> r is Ok
            }))
}

/// What `query_pairs` answers.
pub open spec fn query_pairs_post(
    pre: Factory,
    start_after: Option<[AssetInfo; 2]>,
    limit: Option<u32>,
    r: PairsResponse,
) -> bool {
    &&& (({
                let n = match limit {
                    Some(l) => if l < MAX_LIMIT {
                        l
                    } else {
                        MAX_LIMIT
                    },
                    None => DEFAULT_LIMIT,
                };
                exists|p: int|
                    #[trigger] starts_page(pre.pairs@, start_after, p) && r.pairs@.len() == (if p
                        + n <= pre.pairs@.len() {
                        n as int
                    } else {
                        pre.pairs@.len() - p
                    }) && forall|j: int|
                        0 <= j < r.pairs@.len() ==> reports(
                            #[trigger] r.pairs@[j],
                            pre.pairs@[p + j].record,
                        )
            }))
}

/// A second creation of the same pair by the same sender is refused as an
/// existing pair, whichever order the two assets come in.
pub proof fn lemma_create_pair_once(f: Factory, g: Factory, sender: Seq<char>, infos: [AssetInfo; 2])
    requires
        f.create_pair_error(sender, infos) is None,
        g.creators == f.creators,
        g.restricted_prefixes == f.restricted_prefixes,
        has_key(g.pairs@, pair_key_of(infos_view(infos))),
    ensures
        g.create_pair_error(sender, infos) == Some(ContractError::PairExisted),
        g.create_pair_error(sender, [infos[1], infos[0]]) == Some(ContractError::PairExisted),
{
    let swapped = [infos[1], infos[0]];
    assert(infos_view(swapped)[0] == infos_view(infos)[1]);
    assert(infos_view(swapped)[1] == infos_view(infos)[0]);
    lemma_pair_key_symmetric(info_bytes(infos_view(infos)[0]), info_bytes(infos_view(infos)[1]));
    assert(pair_key_of(infos_view(swapped)) == pair_key_of(infos_view(infos)));
}

} // verus!
