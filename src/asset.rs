//! Assets: a native currency named by its denom, or a fungible token named by
//! its contract address; and the order-independent key of a pair of them.
use vstd::prelude::*;
use vstd::utf8::encode_utf8;

verus! {

/// What an asset is: a native currency or a token contract.
#[derive(Clone, Debug, PartialEq, Eq)]
pub enum AssetInfo {
    Token { contract_addr: String },
    NativeToken { denom: String },
}

/// An amount of an asset.
#[derive(Clone, Debug, PartialEq, Eq)]
pub struct Asset {
    pub info: AssetInfo,
    pub amount: u128,
}

/// A native currency sent along with a message.
#[derive(Clone, Debug, PartialEq, Eq)]
pub struct Coin {
    pub denom: String,
    pub amount: u128,
}

impl View for AssetInfo {
    /// Whether the asset is native, and its denom or address.
    type V = (bool, Seq<char>);

    open spec fn view(&self) -> (bool, Seq<char>) {
        match self {
            AssetInfo::Token { contract_addr } => (false, contract_addr@),
            AssetInfo::NativeToken { denom } => (true, denom@),
        }
    }
}

impl Asset {
    /// A copy of this asset.
    pub fn duplicate(&self) -> (r: Asset)
        ensures
            r == *self,
    {
        Asset { info: self.info.duplicate(), amount: self.amount }
    }
}

/// The bytes that name an asset in a pair key.
pub open spec fn info_bytes(info: (bool, Seq<char>)) -> Seq<u8> {
    encode_utf8(info.1)
}

/// Lexicographic order on byte strings, as on Rust slices.
pub open spec fn bytes_lt(a: Seq<u8>, b: Seq<u8>) -> bool
    decreases a.len(),
{
    if a.len() == 0 {
        b.len() > 0
    } else if b.len() == 0 {
        false
    } else if a[0] != b[0] {
        a[0] < b[0]
    } else {
        bytes_lt(a.drop_first(), b.drop_first())
    }
}

/// The key of a pair: the two assets' bytes, smaller first.
pub open spec fn pair_key_spec(a: Seq<u8>, b: Seq<u8>) -> Seq<u8> {
    if bytes_lt(b, a) {
        b + a
    } else {
        a + b
    }
}

/// The key of a pair of asset descriptions.
pub open spec fn pair_key_of(infos: Seq<(bool, Seq<char>)>) -> Seq<u8> {
    pair_key_spec(info_bytes(infos[0]), info_bytes(infos[1]))
}

pub proof fn lemma_bytes_lt_irreflexive(a: Seq<u8>)
    ensures
        !bytes_lt(a, a),
    decreases a.len(),
{
    if a.len() > 0 {
        lemma_bytes_lt_irreflexive(a.drop_first());
    }
}

pub proof fn lemma_bytes_lt_asymmetric(a: Seq<u8>, b: Seq<u8>)
    ensures
        !(bytes_lt(a, b) && bytes_lt(b, a)),
    decreases a.len(),
{
    if a.len() > 0 && b.len() > 0 && a[0] == b[0] {
        lemma_bytes_lt_asymmetric(a.drop_first(), b.drop_first());
    }
}

pub proof fn lemma_bytes_lt_total(a: Seq<u8>, b: Seq<u8>)
    ensures
        bytes_lt(a, b) || bytes_lt(b, a) || a == b,
    decreases a.len(),
{
    if a.len() > 0 && b.len() > 0 && a[0] == b[0] {
        lemma_bytes_lt_total(a.drop_first(), b.drop_first());
        if a.drop_first() == b.drop_first() {
            assert(a =~= seq![a[0]] + a.drop_first());
            assert(b =~= seq![b[0]] + b.drop_first());
        }
    } else if a.len() == 0 && b.len() == 0 {
        assert(a =~= b);
    }
}

pub proof fn lemma_bytes_lt_transitive(a: Seq<u8>, b: Seq<u8>, c: Seq<u8>)
    requires
        bytes_lt(a, b),
        bytes_lt(b, c),
    ensures
        bytes_lt(a, c),
    decreases a.len(),
{
    if a.len() > 0 && b.len() > 0 && c.len() > 0 && a[0] == b[0] && b[0] == c[0] {
        lemma_bytes_lt_transitive(a.drop_first(), b.drop_first(), c.drop_first());
    }
}

/// A pair's key does not depend on the order in which its assets are given.
pub proof fn lemma_pair_key_symmetric(a: Seq<u8>, b: Seq<u8>)
    ensures
        pair_key_spec(a, b) == pair_key_spec(b, a),
{
    lemma_bytes_lt_asymmetric(a, b);
    lemma_bytes_lt_total(a, b);
}

/// Whether `a` sorts strictly before `b`.
pub fn bytes_less(a: &Vec<u8>, b: &Vec<u8>) -> (r: bool)
    ensures
        r == bytes_lt(a@, b@),
{
    let mut i: usize = 0;
    assert(a@.skip(0) =~= a@);
    assert(b@.skip(0) =~= b@);
    while i < a.len() && i < b.len()
        invariant
            i <= a@.len(),
            i <= b@.len(),
            bytes_lt(a@, b@) == bytes_lt(a@.skip(i as int), b@.skip(i as int)),
        decreases a@.len() - i,
    {
        if a[i] != b[i] {
            return a[i] < b[i];
        }
        assert(a@.skip(i as int).drop_first() =~= a@.skip(i + 1));
        assert(b@.skip(i as int).drop_first() =~= b@.skip(i + 1));
        i = i + 1;
    }
    a.len() < b.len()
}

/// Whether two byte strings are equal.
pub fn bytes_equal(a: &Vec<u8>, b: &Vec<u8>) -> (r: bool)
    ensures
        r == (a@ == b@),
{
    let lt = bytes_less(a, b);
    let gt = bytes_less(b, a);
    proof {
        lemma_bytes_lt_total(a@, b@);
        lemma_bytes_lt_irreflexive(a@);
    }
    !lt && !gt
}

impl AssetInfo {
    /// Whether two descriptions name the same asset.
    pub fn equal(&self, other: &AssetInfo) -> (r: bool)
        ensures
            r == (self@ == other@),
    {
        let same_kind = self.is_native_token() == other.is_native_token();
        let same_id = *self.id() == *other.id();
        same_kind && same_id
    }

    /// A copy of this description.
    pub fn duplicate(&self) -> (r: AssetInfo)
        ensures
            r == *self,
    {
        match self {
            AssetInfo::Token { contract_addr } => AssetInfo::Token {
                contract_addr: contract_addr.clone(),
            },
            AssetInfo::NativeToken { denom } => AssetInfo::NativeToken { denom: denom.clone() },
        }
    }

    pub fn is_native_token(&self) -> (r: bool)
        ensures
            r == self@.0,
    {
        match self {
            AssetInfo::Token { .. } => false,
            AssetInfo::NativeToken { .. } => true,
        }
    }

    /// The denom or the contract address.
    pub fn id(&self) -> (r: &String)
        ensures
            r@ == self@.1,
    {
        match self {
            AssetInfo::Token { contract_addr } => contract_addr,
            AssetInfo::NativeToken { denom } => denom,
        }
    }

    /// The bytes that name this asset in a pair key.
    pub fn key_bytes(&self) -> (r: Vec<u8>)
        ensures
            r@ == info_bytes(self@),
    {
        vstd::slice::slice_to_vec(self.id().as_str().as_bytes())
    }
}

/// The key under which a pair of assets is registered: the same for either
/// order of the two.
pub fn pair_key(asset_infos: &[AssetInfo; 2]) -> (r: Vec<u8>)
    ensures
        r@ == pair_key_of(asset_infos@.map_values(|i: AssetInfo| i@)),
{
    let a = asset_infos[0].key_bytes();
    let b = asset_infos[1].key_bytes();
    let (first, second) = if bytes_less(&b, &a) {
        (b, a)
    } else {
        (a, b)
    };
    let mut key = first;
    let mut i: usize = 0;
    let ghost start = key@;
    while i < second.len()
        invariant
            i <= second@.len(),
            key@ == start + second@.take(i as int),
        decreases second@.len() - i,
    {
        key.push(second[i]);
        assert(second@.take(i + 1) =~= second@.take(i as int).push(second@[i as int]));
        i = i + 1;
    }
    assert(second@.take(second@.len() as int) =~= second@);
    key
}

} // verus!
