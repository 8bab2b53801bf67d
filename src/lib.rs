//! Automated market maker: a factory that registers trading pairs, and a pair
//! engine that keeps a constant-product pool with proportional shares.
pub mod asset;
pub mod error;
pub mod factory;
pub mod msg;
pub mod names;
pub mod pair;
pub mod pool;
pub mod token;
