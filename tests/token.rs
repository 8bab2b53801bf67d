use oraiswap::error::ContractError;
use oraiswap::token::TokenBlacklist;

#[test]
pub fn test() {
    let mut contract = TokenBlacklist::new();
    assert!(contract.check_sender(&"addr0000".to_string()).is_ok());
    contract.migrate(&vec!["addr0000".to_string()]);
    assert_eq!(
        contract.check_sender(&"addr0000".to_string()),
        Err(ContractError::Unauthorized)
    );
    assert!(contract.check_sender(&"addr0001".to_string()).is_ok());
    println!("blocked {:?}", contract.blocked);
}
