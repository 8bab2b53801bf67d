//! The share token's own rule on top of the fungible-token standard: an
//! address put on the blacklist by a migration may no longer act.
use vstd::prelude::*;

use crate::error::ContractError;
use crate::names::{add_names, contains_name, holds};

verus! {

/// The addresses that the token refuses to act for.
#[derive(Clone, Debug)]
pub struct TokenBlacklist {
    pub blocked: Vec<String>,
}

impl TokenBlacklist {
    /// A token that blocks no one.
    pub fn new() -> (r: TokenBlacklist)
        ensures
            r.blocked@.len() == 0,
    {
        TokenBlacklist { blocked: Vec::new() }
    }

    /// Blocks each of `addrs`, in addition to those blocked before.
    pub fn migrate(&mut self, addrs: &Vec<String>)
        ensures
            forall|x: Seq<char>| #[trigger]
                holds(final(self).blocked@, x) <==> holds(old(self).blocked@, x) || holds(addrs@, x),
    {
        add_names(&mut self.blocked, addrs);
    }

    /// Whether `sender` may have a token message executed.
    pub fn check_sender(&self, sender: &String) -> (r: Result<(), ContractError>)
        ensures
            r is Err <==> holds(self.blocked@, sender@),
            r is Err ==> r == Err::<(), ContractError>(ContractError::Unauthorized),
    {
        if contains_name(&self.blocked, sender) {
            return Err(ContractError::Unauthorized);
        }
        Ok(())
    }
}

} // verus!
