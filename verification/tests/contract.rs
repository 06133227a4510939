use locked_token::{
    AccountId, Contract, ContractError, FungibleTokenMetadata, PromiseResult, Resolution,
};

fn id(name: &str) -> AccountId {
    AccountId::new(name)
}

fn metadata() -> FungibleTokenMetadata {
    FungibleTokenMetadata {
        spec: "ft-1.0.0".to_string(),
        name: "Locked token".to_string(),
        symbol: "LOCK".to_string(),
        icon: None,
        reference: None,
        reference_hash: None,
        decimals: 24,
    }
}

fn fresh() -> Contract {
    Contract::new(id("lockToken.near"), 1_000_000, metadata(), id("contract.near"), 125).unwrap()
}

fn sum_of_balances(contract: &Contract, names: &[&str]) -> u128 {
    let mut sum = 0u128;
    for name in names {
        sum += contract.ft_balance_of(id(name));
    }
    sum
}

#[test]
fn new_mints_the_supply_into_the_contract_account() {
    let contract = fresh();
    assert_eq!(contract.ft_balance_of(id("contract.near")), 1_000_000);
    assert_eq!(contract.ft_total_supply(), 1_000_000);
    assert_eq!(contract.ft_balance_of(id("lockToken.near")), 0);
    assert_eq!(contract.token_id_to_lock().as_str(), "lockToken.near");
    assert_eq!(contract.current_account_id().as_str(), "contract.near");
    assert_eq!(contract.ft_metadata(), &metadata());
}

#[test]
fn new_refuses_metadata_of_another_version() {
    let mut wrong = metadata();
    wrong.spec = "ft-2.0.0".to_string();
    let result = Contract::new(id("lockToken.near"), 1, wrong, id("contract.near"), 125);
    assert_eq!(result.err(), Some(ContractError::InvalidMetadata));
}

#[test]
fn new_refuses_a_reference_without_hash() {
    let mut wrong = metadata();
    wrong.reference = Some("https://example.org/token.json".to_string());
    let result = Contract::new(id("lockToken.near"), 1, wrong, id("contract.near"), 125);
    assert_eq!(result.err(), Some(ContractError::InvalidMetadata));
}

#[test]
fn new_refuses_a_hash_of_the_wrong_length() {
    let mut wrong = metadata();
    wrong.reference = Some("https://example.org/token.json".to_string());
    wrong.reference_hash = Some(vec![7u8; 31]);
    let result = Contract::new(id("lockToken.near"), 1, wrong, id("contract.near"), 125);
    assert_eq!(result.err(), Some(ContractError::InvalidMetadata));
}

#[test]
fn new_accepts_a_reference_with_a_hash_of_32_bytes() {
    let mut good = metadata();
    good.reference = Some("https://example.org/token.json".to_string());
    good.reference_hash = Some(vec![7u8; 32]);
    assert!(good.is_valid());
    let contract =
        Contract::new(id("lockToken.near"), 5, good, id("contract.near"), 125).unwrap();
    assert_eq!(contract.ft_total_supply(), 5);
}

#[test]
fn custodian_transfer_moves_the_amount() {
    let mut contract = fresh();
    let transfer =
        contract.ft_transfer(&id("lockToken.near"), id("alice.near"), 100, None).unwrap();
    assert_eq!(transfer.old_owner_id, id("contract.near"));
    assert_eq!(transfer.new_owner_id, id("alice.near"));
    assert_eq!(transfer.amount, 100);
    assert_eq!(transfer.memo, None);
    assert_eq!(contract.ft_balance_of(id("alice.near")), 100);
    assert_eq!(contract.ft_balance_of(id("contract.near")), 999_900);
    assert_eq!(contract.ft_total_supply(), 1_000_000);
    assert!(contract.storage_balance_of(id("alice.near")).is_some());
}

#[test]
fn custodian_transfer_keeps_the_memo() {
    let mut contract = fresh();
    let transfer = contract
        .ft_transfer(&id("lockToken.near"), id("alice.near"), 1, Some("first".to_string()))
        .unwrap();
    assert_eq!(transfer.memo, Some("first".to_string()));
}

#[test]
fn transfer_to_a_registered_receiver_adds_to_its_balance() {
    let mut contract = fresh();
    contract.ft_transfer(&id("lockToken.near"), id("alice.near"), 100, None).unwrap();
    contract.ft_transfer(&id("lockToken.near"), id("alice.near"), 23, None).unwrap();
    assert_eq!(contract.ft_balance_of(id("alice.near")), 123);
    assert_eq!(contract.ft_balance_of(id("contract.near")), 999_877);
}

#[test]
fn transfer_by_anyone_else_is_refused() {
    let mut contract = fresh();
    contract.ft_transfer(&id("lockToken.near"), id("alice.near"), 100, None).unwrap();
    let before = contract.into_state();
    let mut contract = Contract::restore(before).unwrap();
    let error = contract.ft_transfer(&id("bob.near"), id("alice.near"), 1, None).unwrap_err();
    assert_eq!(error, ContractError::NonTransferable);
    assert_eq!(error.message(), "Tokens are non-transferable");
    assert_eq!(contract.ft_balance_of(id("alice.near")), 100);
    assert_eq!(contract.ft_balance_of(id("bob.near")), 0);
    assert_eq!(contract.ft_balance_of(id("contract.near")), 999_900);
    assert_eq!(contract.ft_total_supply(), 1_000_000);
}

#[test]
fn transfer_by_the_contract_itself_is_refused() {
    let mut contract = fresh();
    let error = contract.ft_transfer(&id("contract.near"), id("alice.near"), 1, None).unwrap_err();
    assert_eq!(error, ContractError::NonTransferable);
    assert_eq!(contract.ft_balance_of(id("alice.near")), 0);
}

#[test]
fn refused_transfer_registers_nobody() {
    let mut contract = fresh();
    let error = contract.ft_transfer(&id("bob.near"), id("alice.near"), 1, None).unwrap_err();
    assert_eq!(error, ContractError::NonTransferable);
    assert_eq!(contract.storage_balance_of(id("alice.near")), None);
    let error =
        contract.ft_transfer(&id("lockToken.near"), id("alice.near"), 1_000_001, None).unwrap_err();
    assert_eq!(error, ContractError::InsufficientBalance);
    assert_eq!(contract.storage_balance_of(id("alice.near")), None);
}

#[test]
fn transfer_of_more_than_is_held_is_refused() {
    let mut contract = fresh();
    contract.ft_transfer(&id("lockToken.near"), id("alice.near"), 400_000, None).unwrap();
    let error =
        contract.ft_transfer(&id("lockToken.near"), id("bob.near"), 600_001, None).unwrap_err();
    assert_eq!(error, ContractError::InsufficientBalance);
    assert_eq!(error.message(), "The account doesn't have enough balance");
    assert_eq!(contract.ft_balance_of(id("contract.near")), 600_000);
    assert_eq!(contract.ft_balance_of(id("alice.near")), 400_000);
    assert_eq!(contract.ft_balance_of(id("bob.near")), 0);
    assert_eq!(contract.ft_total_supply(), 1_000_000);
}

#[test]
fn transfer_of_all_that_is_held_goes_through() {
    let mut contract = fresh();
    contract.ft_transfer(&id("lockToken.near"), id("alice.near"), 1_000_000, None).unwrap();
    assert_eq!(contract.ft_balance_of(id("contract.near")), 0);
    assert_eq!(contract.ft_balance_of(id("alice.near")), 1_000_000);
}

#[test]
fn transfer_of_nothing_is_refused() {
    let mut contract = fresh();
    let error = contract.ft_transfer(&id("lockToken.near"), id("alice.near"), 0, None).unwrap_err();
    assert_eq!(error, ContractError::ZeroAmount);
    assert_eq!(error.message(), "The amount should be a positive number");
    assert_eq!(contract.storage_balance_of(id("alice.near")), None);
}

#[test]
fn transfer_to_the_contract_account_is_refused() {
    let mut contract = fresh();
    let error =
        contract.ft_transfer(&id("lockToken.near"), id("contract.near"), 5, None).unwrap_err();
    assert_eq!(error, ContractError::SameAccount);
    assert_eq!(error.message(), "Sender and receiver should be different");
    assert_eq!(contract.ft_balance_of(id("contract.near")), 1_000_000);
}

#[test]
fn transfer_call_always_fails() {
    let mut contract = fresh();
    let error = contract
        .ft_transfer_call(id("alice.near"), 100, Some("memo".to_string()), "msg".to_string())
        .unwrap_err();
    assert_eq!(error, ContractError::NonTransferable);
    assert_eq!(error.message(), "Tokens are non-transferable");
    let error = contract.ft_transfer_call(id(""), 0, None, String::new()).unwrap_err();
    assert_eq!(error, ContractError::NonTransferable);
    assert_eq!(contract.ft_balance_of(id("contract.near")), 1_000_000);
    assert_eq!(contract.ft_balance_of(id("alice.near")), 0);
}

#[test]
fn storage_withdraw_always_fails() {
    let mut contract = fresh();
    for amount in [None, Some(0), Some(1), Some(u128::MAX)] {
        let error = contract.storage_withdraw(amount).unwrap_err();
        assert_eq!(error, ContractError::NotAvailable);
        assert_eq!(error.message(), "Not available");
    }
    assert_eq!(contract.ft_total_supply(), 1_000_000);
}

#[test]
fn storage_unregister_always_fails() {
    let mut contract = fresh();
    for force in [None, Some(false), Some(true)] {
        let error = contract.storage_unregister(force).unwrap_err();
        assert_eq!(error, ContractError::NotAvailable);
        assert_eq!(error.message(), "Not available");
    }
    assert!(contract.storage_balance_of(id("contract.near")).is_some());
    assert_eq!(contract.ft_balance_of(id("contract.near")), 1_000_000);
}

#[test]
fn deposit_announced_by_the_custodian_is_a_transfer() {
    let mut contract = fresh();
    let answer = contract
        .ft_on_transfer(&id("lockToken.near"), id("carol.near"), 50, String::new(), 7_281)
        .unwrap();
    assert_eq!(answer.unused_amount, 0);
    assert_eq!(answer.transfer.old_owner_id, id("contract.near"));
    assert_eq!(answer.transfer.new_owner_id, id("carol.near"));
    assert_eq!(answer.transfer.amount, 50);
    assert_eq!(answer.transfer.memo, Some("Transfer on #7281".to_string()));
    assert_eq!(contract.ft_balance_of(id("carol.near")), 50);
    assert_eq!(contract.ft_balance_of(id("contract.near")), 999_950);

    let mut other = fresh();
    other.ft_transfer(&id("lockToken.near"), id("carol.near"), 50, None).unwrap();
    assert_eq!(other.into_state(), contract.into_state());
}

#[test]
fn deposit_announced_by_anyone_else_is_refused() {
    let mut contract = fresh();
    let error = contract
        .ft_on_transfer(&id("mallory.near"), id("carol.near"), 50, String::new(), 1)
        .unwrap_err();
    assert_eq!(error, ContractError::InvalidToken);
    assert_eq!(error.message(), "Invalid token ID");
    assert_eq!(contract.ft_balance_of(id("carol.near")), 0);
    assert_eq!(contract.ft_balance_of(id("contract.near")), 1_000_000);
    assert_eq!(contract.storage_balance_of(id("carol.near")), None);
}

#[test]
fn deposit_that_cannot_be_paid_out_is_not_acknowledged() {
    let mut contract = fresh();
    let result =
        contract.ft_on_transfer(&id("lockToken.near"), id("carol.near"), 1_000_001, String::new(), 1);
    assert_eq!(result.err(), Some(ContractError::InsufficientBalance));
    assert_eq!(contract.ft_balance_of(id("carol.near")), 0);
    assert_eq!(contract.ft_balance_of(id("contract.near")), 1_000_000);
}

#[test]
fn resolution_is_for_the_contract_alone() {
    let mut contract = fresh();
    contract.ft_transfer(&id("lockToken.near"), id("alice.near"), 100, None).unwrap();
    let error = contract
        .ft_resolve_transfer(
            &id("lockToken.near"),
            id("contract.near"),
            id("alice.near"),
            100,
            &PromiseResult::Failed,
        )
        .unwrap_err();
    assert_eq!(error, ContractError::PrivateMethod);
    assert_eq!(error.message(), "Method ft_resolve_transfer is private");
    assert_eq!(contract.ft_balance_of(id("alice.near")), 100);
    assert_eq!(contract.ft_balance_of(id("contract.near")), 999_900);
}

#[test]
fn resolution_refunds_a_registered_sender() {
    let mut contract = fresh();
    contract.ft_transfer(&id("lockToken.near"), id("alice.near"), 100, None).unwrap();
    let resolution = contract
        .ft_resolve_transfer(
            &id("contract.near"),
            id("contract.near"),
            id("alice.near"),
            100,
            &PromiseResult::Successful(b"\"40\"".to_vec()),
        )
        .unwrap();
    assert_eq!(resolution, Resolution { used_amount: 60, refunded_amount: 40, burned_amount: 0 });
    assert_eq!(contract.ft_balance_of(id("alice.near")), 60);
    assert_eq!(contract.ft_balance_of(id("contract.near")), 999_940);
    assert_eq!(contract.ft_total_supply(), 1_000_000);
}

#[test]
fn resolution_burns_what_an_unregistered_sender_cannot_take() {
    let mut contract = fresh();
    contract.ft_transfer(&id("lockToken.near"), id("alice.near"), 100, None).unwrap();
    let resolution = contract
        .ft_resolve_transfer(
            &id("contract.near"),
            id("gone.near"),
            id("alice.near"),
            70,
            &PromiseResult::Successful(b"\"30\"".to_vec()),
        )
        .unwrap();
    assert_eq!(resolution, Resolution { used_amount: 40, refunded_amount: 0, burned_amount: 30 });
    assert_eq!(
        resolution.used_amount + resolution.refunded_amount + resolution.burned_amount,
        70
    );
    assert_eq!(contract.ft_balance_of(id("alice.near")), 70);
    assert_eq!(contract.ft_balance_of(id("gone.near")), 0);
    assert_eq!(contract.ft_total_supply(), 999_970);
    assert_eq!(
        sum_of_balances(&contract, &["contract.near", "alice.near", "gone.near"]),
        contract.ft_total_supply()
    );
}

#[test]
fn resolution_of_a_failed_call_takes_everything_back() {
    let mut contract = fresh();
    contract.ft_transfer(&id("lockToken.near"), id("alice.near"), 100, None).unwrap();
    let resolution = contract
        .ft_resolve_transfer(
            &id("contract.near"),
            id("contract.near"),
            id("alice.near"),
            100,
            &PromiseResult::Failed,
        )
        .unwrap();
    assert_eq!(resolution, Resolution { used_amount: 0, refunded_amount: 100, burned_amount: 0 });
    assert_eq!(contract.ft_balance_of(id("alice.near")), 0);
    assert_eq!(contract.ft_balance_of(id("contract.near")), 1_000_000);
}

#[test]
fn resolution_reads_an_unreadable_answer_as_all_unused() {
    let mut contract = fresh();
    contract.ft_transfer(&id("lockToken.near"), id("alice.near"), 100, None).unwrap();
    let resolution = contract
        .ft_resolve_transfer(
            &id("contract.near"),
            id("contract.near"),
            id("alice.near"),
            10,
            &PromiseResult::Successful(b"forty".to_vec()),
        )
        .unwrap();
    assert_eq!(resolution, Resolution { used_amount: 0, refunded_amount: 10, burned_amount: 0 });
    assert_eq!(contract.ft_balance_of(id("alice.near")), 90);
}

#[test]
fn resolution_with_nothing_unused_changes_nothing() {
    let mut contract = fresh();
    contract.ft_transfer(&id("lockToken.near"), id("alice.near"), 100, None).unwrap();
    let resolution = contract
        .ft_resolve_transfer(
            &id("contract.near"),
            id("gone.near"),
            id("alice.near"),
            100,
            &PromiseResult::Successful(b"\"0\"".to_vec()),
        )
        .unwrap();
    assert_eq!(resolution, Resolution { used_amount: 100, refunded_amount: 0, burned_amount: 0 });
    assert_eq!(contract.ft_balance_of(id("alice.near")), 100);
    assert_eq!(contract.ft_total_supply(), 1_000_000);
}

#[test]
fn balances_add_up_to_the_supply_after_a_run_of_calls() {
    let names = ["contract.near", "alice.near", "bob.near", "carol.near", "gone.near"];
    let mut contract = fresh();
    assert_eq!(sum_of_balances(&contract, &names), contract.ft_total_supply());
    contract.ft_transfer(&id("lockToken.near"), id("alice.near"), 300, None).unwrap();
    assert_eq!(sum_of_balances(&contract, &names), contract.ft_total_supply());
    contract.storage_deposit(&id("bob.near"), None, None, u128::MAX).unwrap();
    assert_eq!(sum_of_balances(&contract, &names), contract.ft_total_supply());
    contract.ft_on_transfer(&id("lockToken.near"), id("carol.near"), 50, String::new(), 9).unwrap();
    assert_eq!(sum_of_balances(&contract, &names), contract.ft_total_supply());
    let _ = contract.ft_transfer(&id("bob.near"), id("alice.near"), 1, None);
    assert_eq!(sum_of_balances(&contract, &names), contract.ft_total_supply());
    contract
        .ft_resolve_transfer(
            &id("contract.near"),
            id("bob.near"),
            id("alice.near"),
            200,
            &PromiseResult::Successful(b"\"120\"".to_vec()),
        )
        .unwrap();
    assert_eq!(contract.ft_balance_of(id("bob.near")), 120);
    assert_eq!(sum_of_balances(&contract, &names), contract.ft_total_supply());
    contract
        .ft_resolve_transfer(
            &id("contract.near"),
            id("gone.near"),
            id("carol.near"),
            50,
            &PromiseResult::Failed,
        )
        .unwrap();
    assert_eq!(contract.ft_total_supply(), 999_950);
    assert_eq!(sum_of_balances(&contract, &names), contract.ft_total_supply());
}

#[test]
fn state_goes_out_and_comes_back() {
    let mut contract = fresh();
    contract.ft_transfer(&id("lockToken.near"), id("alice.near"), 100, None).unwrap();
    let state = contract.into_state();
    assert_eq!(state.total_supply, 1_000_000);
    assert_eq!(state.account_storage_usage, 125);
    assert_eq!(state.accounts.len(), 2);
    assert_eq!(state.token_id_to_lock, id("lockToken.near"));
    assert_eq!(state.current_account_id, id("contract.near"));
    let contract = Contract::restore(state).unwrap();
    assert_eq!(contract.ft_balance_of(id("alice.near")), 100);
    assert_eq!(contract.ft_balance_of(id("contract.near")), 999_900);
    assert_eq!(contract.ft_total_supply(), 1_000_000);
}

#[test]
fn state_without_the_contract_account_is_refused() {
    let mut state = fresh().into_state();
    state.current_account_id = id("elsewhere.near");
    assert!(Contract::restore(state).is_none());
}

#[test]
fn state_with_a_wrong_supply_is_refused() {
    let mut state = fresh().into_state();
    state.total_supply = 999_999;
    assert!(Contract::restore(state).is_none());
}

#[test]
fn state_with_invalid_metadata_is_refused() {
    let mut state = fresh().into_state();
    state.metadata.spec = "nft-1.0.0".to_string();
    assert!(Contract::restore(state).is_none());
}
