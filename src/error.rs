use vstd::prelude::*;

verus! {

/// Every way an operation of the factory or of a pair can fail.
#[derive(Clone, Debug, PartialEq, Eq)]
pub enum ContractError {
    /// A stored or decoded value could not be read.
    Std { msg: String },
    /// A checked arithmetic step left the 128-bit range.
    OverflowError,
    Unauthorized,
    InvalidZeroAmount,
    MaxSpreadAssertion,
    InvalidExceedOneSlippage,
    InvalidZeroRatio,
    AssetMismatch,
    OfferPoolIsZero,
    PairExisted,
    PairRegistered,
    MustProvideNativeToken,
    PoolWhitelisted,
    InvalidFunds,
    RestrictPrefixExisted,
    CreatorAlreadyExists,
    CreatorNotFound,
    /// A record looked up by key is absent.
    NotFound,
}

impl ContractError {
    /// The message shown for this error.
    pub fn message(&self) -> (r: String) {
        match self {
            ContractError::Std { msg } => msg.clone(),
            ContractError::OverflowError => String::from_str("Overflow"),
            ContractError::Unauthorized => String::from_str("Unauthorized"),
            ContractError::InvalidZeroAmount => String::from_str("Invalid zero amount"),
            ContractError::MaxSpreadAssertion => String::from_str("Max spread assertion"),
            ContractError::InvalidExceedOneSlippage => String::from_str(
                "Slippage_tolerance cannot bigger than 1",
            ),
            ContractError::InvalidZeroRatio => String::from_str(
                "Withdraw amount is too small compared to the total share",
            ),
            ContractError::AssetMismatch => String::from_str("Asset mismatch"),
            ContractError::OfferPoolIsZero => String::from_str("Offer pool is zero"),
            ContractError::PairExisted => String::from_str("Pair already exists"),
            ContractError::PairRegistered => String::from_str("Pair was already registered"),
            ContractError::MustProvideNativeToken => String::from_str("must provide native token"),
            ContractError::PoolWhitelisted => String::from_str(
                "This pool is not open to everyone, only whitelisted traders can swap",
            ),
            ContractError::InvalidFunds => String::from_str("Invalid funds"),
            ContractError::RestrictPrefixExisted => String::from_str("Restricted prefix existed"),
            ContractError::CreatorAlreadyExists => String::from_str("Creator is whitelisted already"),
            ContractError::CreatorNotFound => String::from_str("Not found this creator"),
            ContractError::NotFound => String::from_str("Not found"),
        }
    }
}

} // verus!
