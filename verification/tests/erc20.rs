use ledger_kernel::erc20::{AccountId, Approval, Erc20, Error, Transfer};

/// The account that makes every call unless a test says otherwise.
fn alice() -> AccountId {
    AccountId::from([0x1; 32])
}

fn bob() -> AccountId {
    AccountId::from([0x0; 32])
}

fn new(name: &str, supply: u128) -> Erc20 {
    Erc20::new(alice(), name.to_string(), supply).0
}

#[test]
fn new_works() {
    let contract = new("MyToken", 777);
    assert_eq!(contract.get_name(), "MyToken".to_string());
    assert_eq!(contract.total_supply(), 777);
}

#[test]
fn balance_works() {
    let contract = new("MyToken", 100);
    assert_eq!(contract.total_supply(), 100);
    assert_eq!(contract.balance_of(AccountId::from([0x1; 32])), 100);
    assert_eq!(contract.balance_of(AccountId::from([0x0; 32])), 0);
}

#[test]
fn lib_transfer_works() {
    let mut erc20 = new("MyToken", 100);
    assert_eq!(erc20.balance_of(AccountId::from([0x0; 32])), 0);
    assert_eq!(
        erc20.transfer(alice(), AccountId::from([0x0; 32]), 10),
        Ok(Transfer { from: Some(alice()), to: Some(bob()), value: 10 })
    );
    assert_eq!(erc20.balance_of(AccountId::from([0x0; 32])), 10);
}

#[test]
fn transfer_failed_insufficient_balance() {
    let mut erc20 = new("MyToken", 100);
    assert_eq!(erc20.balance_of(AccountId::from([0x1; 32])), 100);
    assert_eq!(
        erc20.transfer(alice(), AccountId::from([0x1; 32]), 200),
        Err(Error::InsufficientBalance)
    );
}

#[test]
fn allowances_works() {
    let mut contract = new("MyToken", 100);
    assert_eq!(contract.balance_of(AccountId::from([0x1; 32])), 100);
    _ = contract.approve(alice(), AccountId::from([0x1; 32]), 200);
    assert_eq!(
        contract.allowance(AccountId::from([0x1; 32]), AccountId::from([0x1; 32])),
        200
    );

    _ = contract.transfer_from(
        alice(),
        AccountId::from([0x1; 32]),
        AccountId::from([0x0; 32]),
        50,
    );
    assert_eq!(contract.balance_of(AccountId::from([0x0; 32])), 50);
    assert_eq!(
        contract.allowance(AccountId::from([0x1; 32]), AccountId::from([0x1; 32])),
        150
    );

    _ = contract.transfer_from(
        alice(),
        AccountId::from([0x1; 32]),
        AccountId::from([0x0; 32]),
        100,
    );
    assert_eq!(contract.balance_of(AccountId::from([0x0; 32])), 50);
    assert_eq!(
        contract.allowance(AccountId::from([0x1; 32]), AccountId::from([0x1; 32])),
        150
    );
}

#[test]
fn transfer_from_works() {
    let mut contract = new("MyToken", 100);
    assert_eq!(contract.balance_of(AccountId::from([0x1; 32])), 100);
    _ = contract.approve(alice(), AccountId::from([0x1; 32]), 20);
    _ = contract.transfer_from(
        alice(),
        AccountId::from([0x1; 32]),
        AccountId::from([0x0; 32]),
        10,
    );
    assert_eq!(contract.balance_of(AccountId::from([0x0; 32])), 10);
}

#[test]
fn transfer_from_failed_insufficient_allowance() {
    let mut contract = new("MyToken", 100);
    assert_eq!(contract.balance_of(AccountId::from([0x1; 32])), 100);
    _ = contract.approve(alice(), AccountId::from([0x1; 32]), 20);
    assert_eq!(
        contract.transfer_from(
            alice(),
            AccountId::from([0x1; 32]),
            AccountId::from([0x0; 32]),
            30
        ),
        Err(Error::InsufficientAllowance)
    );
}

#[test]
fn new_token_reports_its_supply_coming_into_being() {
    let (contract, created) = Erc20::new(bob(), "Other".to_string(), 5);
    assert_eq!(created, Transfer { from: None, to: Some(bob()), value: 5 });
    assert_eq!(contract.balance_of(bob()), 5);
    assert_eq!(contract.balance_of(alice()), 0);
    assert_eq!(contract.allowance(bob(), alice()), 0);
}

#[test]
fn token_transfer_debits_the_payer_and_credits_the_payee() {
    let mut contract = new("MyToken", 100);
    assert!(contract.transfer(alice(), bob(), 30).is_ok());
    assert_eq!(contract.balance_of(alice()), 70);
    assert_eq!(contract.balance_of(bob()), 30);
    assert!(contract.transfer(bob(), alice(), 30).is_ok());
    assert_eq!(contract.balance_of(alice()), 100);
    assert_eq!(contract.balance_of(bob()), 0);
    assert_eq!(contract.total_supply(), 100);
}

#[test]
fn token_transfer_of_everything_and_of_nothing() {
    let mut contract = new("MyToken", u128::MAX);
    assert!(contract.transfer(alice(), bob(), u128::MAX).is_ok());
    assert_eq!(contract.balance_of(alice()), 0);
    assert_eq!(contract.balance_of(bob()), u128::MAX);
    assert_eq!(
        contract.transfer(alice(), bob(), 0),
        Ok(Transfer { from: Some(alice()), to: Some(bob()), value: 0 })
    );
    assert_eq!(contract.transfer(alice(), bob(), 1), Err(Error::InsufficientBalance));
    assert_eq!(contract.balance_of(bob()), u128::MAX);
}

#[test]
fn token_transfer_to_oneself_changes_nothing() {
    let mut contract = new("MyToken", 100);
    assert!(contract.transfer(alice(), alice(), 100).is_ok());
    assert_eq!(contract.balance_of(alice()), 100);
    assert_eq!(contract.transfer(alice(), alice(), 101), Err(Error::InsufficientBalance));
    assert_eq!(contract.balance_of(alice()), 100);
}

#[test]
fn approve_replaces_the_allowance() {
    let mut contract = new("MyToken", 100);
    assert_eq!(
        contract.approve(alice(), bob(), 40),
        Ok(Approval { owner: alice(), spender: bob(), value: 40 })
    );
    assert_eq!(contract.allowance(alice(), bob()), 40);
    assert_eq!(contract.allowance(bob(), alice()), 0);
    assert!(contract.approve(alice(), bob(), 5).is_ok());
    assert_eq!(contract.allowance(alice(), bob()), 5);
}

#[test]
fn transfer_from_spends_the_allowance_of_the_caller() {
    let mut contract = new("MyToken", 100);
    let carol = AccountId::from([0x2; 32]);
    assert!(contract.approve(alice(), bob(), 40).is_ok());
    // Carol was not allowed anything.
    assert_eq!(
        contract.transfer_from(carol, alice(), carol, 1),
        Err(Error::InsufficientAllowance)
    );
    assert_eq!(
        contract.transfer_from(bob(), alice(), carol, 25),
        Ok(Transfer { from: Some(alice()), to: Some(carol), value: 25 })
    );
    assert_eq!(contract.balance_of(alice()), 75);
    assert_eq!(contract.balance_of(carol), 25);
    assert_eq!(contract.balance_of(bob()), 0);
    assert_eq!(contract.allowance(alice(), bob()), 15);
    assert_eq!(
        contract.transfer_from(bob(), alice(), carol, 16),
        Err(Error::InsufficientAllowance)
    );
    assert_eq!(contract.allowance(alice(), bob()), 15);
}

#[test]
fn transfer_from_checks_the_allowance_before_the_balance() {
    let mut contract = new("MyToken", 10);
    assert!(contract.approve(alice(), bob(), 20).is_ok());
    assert_eq!(
        contract.transfer_from(bob(), alice(), bob(), 30),
        Err(Error::InsufficientAllowance)
    );
    assert_eq!(contract.transfer_from(bob(), alice(), bob(), 15), Err(Error::InsufficientBalance));
    assert_eq!(contract.balance_of(alice()), 10);
    assert_eq!(contract.allowance(alice(), bob()), 20);
}
