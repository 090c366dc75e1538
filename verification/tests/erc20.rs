use smart_contracts::account::AccountId;
use smart_contracts::erc20::{Approval, Balance, Erc20, Error, Event, Transfer};
use smart_contracts::erc20::rules::{credit, debit, spend};

fn alice() -> AccountId {
    AccountId([0x01; 32])
}

fn bob() -> AccountId {
    AccountId([0x02; 32])
}

fn charlie() -> AccountId {
    AccountId([0x03; 32])
}

fn held(contract: &Erc20) -> Balance {
    contract.balance_of(alice()) + contract.balance_of(bob()) + contract.balance_of(charlie())
}

#[test]
fn new_works() {
    let contract: Erc20 = Erc20::new(alice(), 777);
    assert_eq!(contract.total_supply(), 777);
}

#[test]
fn balance_works() {
    let contract: Erc20 = Erc20::new(alice(), 100);
    assert_eq!(contract.total_supply(), 100);
    assert_eq!(contract.balance_of(alice()), 100);
    assert_eq!(contract.balance_of(bob()), 0);
}

#[test]
fn transfer_works() {
    let mut contract: Erc20 = Erc20::new(alice(), 100);
    assert_eq!(contract.balance_of(alice()), 100);
    assert!(contract.transfer(alice(), bob(), 10).is_ok());
    assert_eq!(contract.balance_of(bob()), 10);
    assert!(contract.transfer(alice(), bob(), 100).is_err());
}

#[test]
fn transfer_from_works() {
    let mut contract: Erc20 = Erc20::new(alice(), 100);
    assert_eq!(contract.balance_of(alice()), 100);
    let _ = contract.approve(alice(), alice(), 20);
    let _ = contract.transfer_from(alice(), alice(), bob(), 10);
    assert_eq!(contract.balance_of(bob()), 10);
}

#[test]
fn allowances_works() {
    let mut contract: Erc20 = Erc20::new(alice(), 100);
    assert_eq!(contract.balance_of(alice()), 100);
    let _ = contract.approve(alice(), alice(), 200);
    assert_eq!(contract.allowance(alice(), alice()), 200);

    assert!(contract.transfer_from(alice(), alice(), bob(), 50).is_ok());
    assert_eq!(contract.balance_of(bob()), 50);
    assert_eq!(contract.allowance(alice(), alice()), 150);

    assert!(contract.transfer_from(alice(), alice(), bob(), 100).is_err());
    assert_eq!(contract.balance_of(bob()), 50);
    assert_eq!(contract.allowance(alice(), alice()), 150);
}

#[test]
fn creation_credits_the_deployer_and_reports_a_mint() {
    let contract = Erc20::new(alice(), 100);
    assert_eq!(contract.total_supply(), 100);
    assert_eq!(contract.balance_of(alice()), 100);
    assert_eq!(contract.balance_of(bob()), 0);
    assert_eq!(contract.allowance(alice(), bob()), 0);
    assert_eq!(
        contract.events(),
        &vec![Event::Transfer(Transfer { from: None, to: Some(alice()), value: 100 })]
    );
}

#[test]
fn creation_with_no_supply() {
    let mut contract = Erc20::new(alice(), 0);
    assert_eq!(contract.total_supply(), 0);
    assert_eq!(contract.balance_of(alice()), 0);
    assert_eq!(contract.transfer(alice(), bob(), 0), Ok(()));
    assert_eq!(contract.transfer(alice(), bob(), 1), Err(Error::InsufficientBalance));
    assert_eq!(contract.events().len(), 2);
}

#[test]
fn transfer_moves_the_value_and_then_fails_for_want_of_balance() {
    let mut contract = Erc20::new(alice(), 100);
    assert_eq!(contract.transfer(alice(), bob(), 10), Ok(()));
    assert_eq!(contract.balance_of(bob()), 10);
    assert_eq!(contract.balance_of(alice()), 90);
    let events_before = contract.events().clone();
    assert_eq!(contract.transfer(alice(), bob(), 100), Err(Error::InsufficientBalance));
    assert_eq!(contract.balance_of(bob()), 10);
    assert_eq!(contract.balance_of(alice()), 90);
    assert_eq!(contract.total_supply(), 100);
    assert_eq!(contract.events(), &events_before);
}

#[test]
fn transfer_reports_the_move() {
    let mut contract = Erc20::new(alice(), 100);
    assert_eq!(contract.transfer(alice(), bob(), 10), Ok(()));
    assert_eq!(
        contract.events(),
        &vec![
            Event::Transfer(Transfer { from: None, to: Some(alice()), value: 100 }),
            Event::Transfer(Transfer { from: Some(alice()), to: Some(bob()), value: 10 }),
        ]
    );
}

#[test]
fn transfer_of_the_whole_balance() {
    let mut contract = Erc20::new(alice(), 100);
    assert_eq!(contract.transfer(alice(), bob(), 100), Ok(()));
    assert_eq!(contract.balance_of(alice()), 0);
    assert_eq!(contract.balance_of(bob()), 100);
    assert_eq!(contract.transfer(alice(), bob(), 1), Err(Error::InsufficientBalance));
}

#[test]
fn transfer_by_an_account_that_holds_nothing() {
    let mut contract = Erc20::new(alice(), 100);
    assert_eq!(contract.transfer(bob(), alice(), 1), Err(Error::InsufficientBalance));
    assert_eq!(contract.transfer(bob(), alice(), 0), Ok(()));
    assert_eq!(contract.balance_of(alice()), 100);
    assert_eq!(contract.balance_of(bob()), 0);
}

#[test]
fn balances_add_up_to_the_supply_after_every_call() {
    let mut contract = Erc20::new(alice(), 1000);
    assert_eq!(held(&contract), 1000);
    assert_eq!(contract.transfer(alice(), bob(), 300), Ok(()));
    assert_eq!(held(&contract), 1000);
    assert_eq!(contract.approve(bob(), charlie(), 250), Ok(()));
    assert_eq!(held(&contract), 1000);
    assert_eq!(contract.transfer_from(charlie(), bob(), charlie(), 200), Ok(()));
    assert_eq!(held(&contract), 1000);
    assert_eq!(contract.transfer(charlie(), charlie(), 200), Ok(()));
    assert_eq!(held(&contract), 1000);
    assert_eq!(contract.transfer(bob(), alice(), 101), Err(Error::InsufficientBalance));
    assert_eq!(held(&contract), 1000);
    assert_eq!(
        contract.transfer_from(charlie(), bob(), alice(), 51),
        Err(Error::InsufficientAllowance)
    );
    assert_eq!(held(&contract), 1000);
    assert_eq!(contract.balance_of(alice()), 700);
    assert_eq!(contract.balance_of(bob()), 100);
    assert_eq!(contract.balance_of(charlie()), 200);
    assert_eq!(contract.total_supply(), 1000);
}

#[test]
fn the_largest_supply_can_be_moved_back_and_forth() {
    let mut contract = Erc20::new(alice(), Balance::MAX);
    assert_eq!(contract.transfer(alice(), bob(), Balance::MAX), Ok(()));
    assert_eq!(contract.balance_of(bob()), Balance::MAX);
    assert_eq!(contract.balance_of(alice()), 0);
    assert_eq!(contract.transfer(bob(), bob(), Balance::MAX), Ok(()));
    assert_eq!(contract.balance_of(bob()), Balance::MAX);
    assert_eq!(contract.transfer(bob(), alice(), 1), Ok(()));
    assert_eq!(contract.balance_of(bob()), Balance::MAX - 1);
    assert_eq!(contract.balance_of(alice()), 1);
}

#[test]
fn approve_overwrites_the_allowance() {
    let mut contract = Erc20::new(alice(), 100);
    assert_eq!(contract.approve(alice(), bob(), 30), Ok(()));
    assert_eq!(contract.allowance(alice(), bob()), 30);
    assert_eq!(contract.approve(alice(), bob(), 20), Ok(()));
    assert_eq!(contract.allowance(alice(), bob()), 20);
    assert_eq!(contract.approve(alice(), bob(), 0), Ok(()));
    assert_eq!(contract.allowance(alice(), bob()), 0);
}

#[test]
fn approve_does_not_look_at_the_balance() {
    let mut contract = Erc20::new(alice(), 100);
    assert_eq!(contract.approve(bob(), charlie(), 5000), Ok(()));
    assert_eq!(contract.allowance(bob(), charlie()), 5000);
    assert_eq!(contract.allowance(charlie(), bob()), 0);
    assert_eq!(contract.balance_of(bob()), 0);
}

#[test]
fn approve_reports_every_call() {
    let mut contract = Erc20::new(alice(), 100);
    assert_eq!(contract.approve(alice(), bob(), 7), Ok(()));
    assert_eq!(contract.approve(alice(), bob(), 7), Ok(()));
    let approval = Event::Approval(Approval { owner: alice(), spender: bob(), value: 7 });
    assert_eq!(
        contract.events(),
        &vec![
            Event::Transfer(Transfer { from: None, to: Some(alice()), value: 100 }),
            approval,
            approval,
        ]
    );
}

#[test]
fn self_approval_then_delegated_transfers() {
    let mut contract = Erc20::new(alice(), 100);
    assert_eq!(contract.approve(alice(), alice(), 200), Ok(()));
    assert_eq!(contract.allowance(alice(), alice()), 200);
    assert_eq!(contract.transfer_from(alice(), alice(), bob(), 50), Ok(()));
    assert_eq!(contract.balance_of(bob()), 50);
    assert_eq!(contract.allowance(alice(), alice()), 150);
    assert_eq!(
        contract.transfer_from(alice(), alice(), bob(), 100),
        Err(Error::InsufficientBalance)
    );
    assert_eq!(contract.allowance(alice(), alice()), 150);
    assert_eq!(contract.balance_of(bob()), 50);
    assert_eq!(contract.balance_of(alice()), 50);
}

#[test]
fn transfer_from_fails_for_want_of_allowance_before_it_looks_at_the_balance() {
    let mut contract = Erc20::new(alice(), 100);
    assert_eq!(contract.approve(alice(), bob(), 10), Ok(()));
    let events_before = contract.events().clone();
    assert_eq!(
        contract.transfer_from(bob(), alice(), charlie(), 11),
        Err(Error::InsufficientAllowance)
    );
    assert_eq!(
        contract.transfer_from(bob(), alice(), charlie(), 500),
        Err(Error::InsufficientAllowance)
    );
    assert_eq!(contract.balance_of(alice()), 100);
    assert_eq!(contract.balance_of(charlie()), 0);
    assert_eq!(contract.allowance(alice(), bob()), 10);
    assert_eq!(contract.events(), &events_before);
}

#[test]
fn transfer_from_fails_for_want_of_balance_and_keeps_the_allowance() {
    let mut contract = Erc20::new(alice(), 100);
    assert_eq!(contract.approve(alice(), bob(), 500), Ok(()));
    let events_before = contract.events().clone();
    assert_eq!(
        contract.transfer_from(bob(), alice(), charlie(), 101),
        Err(Error::InsufficientBalance)
    );
    assert_eq!(contract.allowance(alice(), bob()), 500);
    assert_eq!(contract.balance_of(alice()), 100);
    assert_eq!(contract.balance_of(charlie()), 0);
    assert_eq!(contract.events(), &events_before);
}

#[test]
fn transfer_from_spends_the_allowance_of_the_caller_only() {
    let mut contract = Erc20::new(alice(), 100);
    assert_eq!(contract.approve(alice(), bob(), 40), Ok(()));
    assert_eq!(contract.approve(alice(), charlie(), 40), Ok(()));
    assert_eq!(contract.transfer_from(bob(), alice(), charlie(), 15), Ok(()));
    assert_eq!(contract.allowance(alice(), bob()), 25);
    assert_eq!(contract.allowance(alice(), charlie()), 40);
    assert_eq!(contract.balance_of(alice()), 85);
    assert_eq!(contract.balance_of(charlie()), 15);
    assert_eq!(contract.balance_of(bob()), 0);
    assert_eq!(
        contract.events().last(),
        Some(&Event::Transfer(Transfer { from: Some(alice()), to: Some(charlie()), value: 15 }))
    );
}

#[test]
fn transfer_from_without_any_approval() {
    let mut contract = Erc20::new(alice(), 100);
    assert_eq!(
        contract.transfer_from(bob(), alice(), bob(), 1),
        Err(Error::InsufficientAllowance)
    );
    assert_eq!(contract.transfer_from(bob(), alice(), bob(), 0), Ok(()));
    assert_eq!(contract.allowance(alice(), bob()), 0);
    assert_eq!(contract.balance_of(alice()), 100);
}

#[test]
fn transfer_to_oneself_changes_no_balance_and_is_reported() {
    let mut contract = Erc20::new(alice(), 100);
    assert_eq!(contract.transfer(alice(), alice(), 40), Ok(()));
    assert_eq!(contract.balance_of(alice()), 100);
    assert_eq!(contract.total_supply(), 100);
    assert_eq!(
        contract.events(),
        &vec![
            Event::Transfer(Transfer { from: None, to: Some(alice()), value: 100 }),
            Event::Transfer(Transfer { from: Some(alice()), to: Some(alice()), value: 40 }),
        ]
    );
    assert_eq!(contract.transfer(alice(), alice(), 101), Err(Error::InsufficientBalance));
    assert_eq!(contract.balance_of(alice()), 100);
}

#[test]
fn debit_takes_the_value_or_fails() {
    assert_eq!(debit(100, 10), Ok(90));
    assert_eq!(debit(10, 10), Ok(0));
    assert_eq!(debit(0, 0), Ok(0));
    assert_eq!(debit(9, 10), Err(Error::InsufficientBalance));
}

#[test]
fn credit_adds_the_value_where_it_fits() {
    assert_eq!(credit(90, 10), Some(100));
    assert_eq!(credit(0, 0), Some(0));
    assert_eq!(credit(Balance::MAX - 1, 1), Some(Balance::MAX));
    assert_eq!(credit(Balance::MAX, 1), None);
}

#[test]
fn spend_takes_the_value_or_fails() {
    assert_eq!(spend(200, 50), Ok(150));
    assert_eq!(spend(150, 150), Ok(0));
    assert_eq!(spend(150, 151), Err(Error::InsufficientAllowance));
}

#[test]
fn many_accounts_share_the_supply() {
    let mut contract = Erc20::new(alice(), 1000);
    let holders: Vec<AccountId> = (10u8..50).map(|tag| AccountId([tag; 32])).collect();
    for (step, holder) in holders.iter().enumerate() {
        assert_eq!(contract.transfer(alice(), *holder, step as Balance), Ok(()));
    }
    let given: Balance = (0..40).sum();
    assert_eq!(given, 780);
    assert_eq!(contract.balance_of(alice()), 220);
    let mut held = contract.balance_of(alice());
    for (step, holder) in holders.iter().enumerate() {
        assert_eq!(contract.balance_of(*holder), step as Balance);
        held += contract.balance_of(*holder);
    }
    assert_eq!(held, contract.total_supply());
    assert_eq!(contract.events().len(), 41);
}
