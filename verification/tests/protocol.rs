use escrow::{Asset, Escrow, EscrowError, Identity, Ledger, Vault, VaultRef};

fn actor(n: u8) -> Identity {
    Identity::new([n; 32])
}

fn asset(n: u8) -> Asset {
    Asset::new([n; 32])
}

/// A ledger on which the maker holds 100 of asset A and the taker 50 of asset B.
fn funded() -> (Ledger, Identity, Identity, Asset, Asset) {
    let maker = actor(1);
    let taker = actor(2);
    let a = asset(10);
    let b = asset(11);
    let mut ledger = Ledger::new();
    assert_eq!(ledger.issue(maker, a, 100), Ok(()));
    assert_eq!(ledger.issue(taker, b, 50), Ok(()));
    (ledger, maker, taker, a, b)
}

#[test]
fn make_funds_the_vault_and_stores_the_record() {
    let (mut ledger, maker, _taker, a, b) = funded();
    let offered_amount = 60;
    let desired_amount = 25;
    let made = ledger.make(maker, a, b, desired_amount, offered_amount, 7);
    let at = VaultRef::derive(maker, 7);
    assert_eq!(made, Ok(at));
    assert_eq!(
        ledger.vault(&at),
        Some(Vault { address: at, asset: a, balance: 60 })
    );
    assert_eq!(ledger.balance_of(&maker, &a), 40);
    assert_eq!(
        ledger.escrow(&at),
        Some(Escrow {
            owner: maker,
            offered_asset: a,
            desired_asset: b,
            desired_amount: 25,
            nonce: 7,
        })
    );
    assert_eq!(ledger.balance_of(&maker, &b), 0);
}

#[test]
fn make_may_lock_the_whole_balance() {
    let (mut ledger, maker, _taker, a, b) = funded();
    assert_eq!(ledger.make(maker, a, b, 1, 100, 0), Ok(VaultRef::derive(maker, 0)));
    assert_eq!(ledger.balance_of(&maker, &a), 0);
    assert_eq!(ledger.vault(&VaultRef::derive(maker, 0)).map(|v| v.balance), Some(100));
}

#[test]
fn take_after_take_is_not_found() {
    let (mut ledger, maker, taker, a, b) = funded();
    let at = ledger.make(maker, a, b, 50, 100, 1).unwrap();
    assert_eq!(ledger.take(taker, at), Ok(()));
    assert_eq!(ledger.take(taker, at), Err(EscrowError::EscrowNotFound));
    assert_eq!(ledger.take(maker, at), Err(EscrowError::EscrowNotFound));
    assert_eq!(ledger.cancel(maker, at), Err(EscrowError::EscrowNotFound));
    assert_eq!(ledger.cancel(taker, at), Err(EscrowError::EscrowNotFound));
    assert_eq!(ledger.balance_of(&taker, &a), 100);
    assert_eq!(ledger.balance_of(&maker, &b), 50);
}

#[test]
fn take_or_cancel_after_cancel_is_not_found() {
    let (mut ledger, maker, taker, a, b) = funded();
    let at = ledger.make(maker, a, b, 50, 100, 1).unwrap();
    assert_eq!(ledger.cancel(maker, at), Ok(()));
    assert_eq!(ledger.take(taker, at), Err(EscrowError::EscrowNotFound));
    assert_eq!(ledger.cancel(maker, at), Err(EscrowError::EscrowNotFound));
    assert_eq!(ledger.balance_of(&maker, &a), 100);
    assert_eq!(ledger.balance_of(&taker, &b), 50);
}

#[test]
fn make_then_cancel_round_trip() {
    let (mut ledger, maker, _taker, a, b) = funded();
    let before = ledger.balance_of(&maker, &a);
    let offered_amount = 100;
    let desired_amount = 50;
    let at = ledger.make(maker, a, b, desired_amount, offered_amount, 3).unwrap();
    assert_eq!(ledger.balance_of(&maker, &a), 0);
    assert_eq!(ledger.cancel(maker, at), Ok(()));
    assert_eq!(ledger.balance_of(&maker, &a), before);
    assert_eq!(ledger.balance_of(&maker, &a), 100);
    assert_eq!(ledger.escrow(&at), None);
    assert_eq!(ledger.vault(&at), None);
}

#[test]
fn atomic_settlement() {
    let (mut ledger, maker, taker, a, b) = funded();
    let offered_amount = 100;
    let desired_amount = 50;
    let at = ledger.make(maker, a, b, desired_amount, offered_amount, 9).unwrap();
    assert_eq!(ledger.take(taker, at), Ok(()));
    assert_eq!(ledger.balance_of(&maker, &b), 50);
    assert_eq!(ledger.balance_of(&taker, &a), 100);
    assert_eq!(ledger.balance_of(&taker, &b), 0);
    assert_eq!(ledger.balance_of(&maker, &a), 0);
    assert_eq!(ledger.vault(&at), None);
    assert_eq!(ledger.escrow(&at), None);
}

#[test]
fn settlement_leaves_the_taker_the_change() {
    let maker = actor(1);
    let taker = actor(2);
    let a = asset(10);
    let b = asset(11);
    let mut ledger = Ledger::new();
    ledger.issue(maker, a, 100).unwrap();
    ledger.issue(maker, b, 5).unwrap();
    ledger.issue(taker, b, 80).unwrap();
    ledger.issue(taker, a, 1).unwrap();
    let at = ledger.make(maker, a, b, 50, 100, 9).unwrap();
    assert_eq!(ledger.take(taker, at), Ok(()));
    assert_eq!(ledger.balance_of(&maker, &b), 55);
    assert_eq!(ledger.balance_of(&taker, &a), 101);
    assert_eq!(ledger.balance_of(&taker, &b), 30);
    assert_eq!(ledger.balance_of(&maker, &a), 0);
}

#[test]
fn underfunded_taker_changes_nothing() {
    let maker = actor(1);
    let taker = actor(2);
    let a = asset(10);
    let b = asset(11);
    let mut ledger = Ledger::new();
    ledger.issue(maker, a, 100).unwrap();
    ledger.issue(taker, b, 49).unwrap();
    let at = ledger.make(maker, a, b, 50, 100, 4).unwrap();
    let record = ledger.escrow(&at);
    let vault = ledger.vault(&at);
    assert_eq!(ledger.take(taker, at), Err(EscrowError::InsufficientFunds));
    assert_eq!(ledger.balance_of(&taker, &b), 49);
    assert_eq!(ledger.balance_of(&taker, &a), 0);
    assert_eq!(ledger.balance_of(&maker, &a), 0);
    assert_eq!(ledger.balance_of(&maker, &b), 0);
    assert_eq!(ledger.escrow(&at), record);
    assert_eq!(ledger.vault(&at), vault);
    assert_eq!(vault.map(|v| v.balance), Some(100));
}

#[test]
fn taker_with_exactly_the_price_settles() {
    let (mut ledger, maker, taker, a, b) = funded();
    let at = ledger.make(maker, a, b, 50, 100, 4).unwrap();
    assert_eq!(ledger.take(taker, at), Ok(()));
    assert_eq!(ledger.balance_of(&taker, &b), 0);
}

#[test]
fn taker_without_any_account_is_underfunded() {
    let (mut ledger, maker, _taker, a, b) = funded();
    let at = ledger.make(maker, a, b, 50, 100, 4).unwrap();
    assert_eq!(ledger.take(actor(3), at), Err(EscrowError::InsufficientFunds));
    assert_eq!(ledger.balance_of(&actor(3), &a), 0);
}

#[test]
fn unauthorized_cancel_changes_nothing() {
    let (mut ledger, maker, taker, a, b) = funded();
    let at = ledger.make(maker, a, b, 50, 100, 5).unwrap();
    let record = ledger.escrow(&at);
    let vault = ledger.vault(&at);
    assert_eq!(ledger.cancel(taker, at), Err(EscrowError::Unauthorized));
    assert_eq!(ledger.escrow(&at), record);
    assert_eq!(ledger.vault(&at), vault);
    assert_eq!(ledger.balance_of(&maker, &a), 0);
    assert_eq!(ledger.balance_of(&taker, &a), 0);
    assert_eq!(ledger.cancel(maker, at), Ok(()));
}

#[test]
fn duplicate_nonce_is_refused() {
    let (mut ledger, maker, _taker, a, b) = funded();
    let at = ledger.make(maker, a, b, 50, 60, 8).unwrap();
    assert_eq!(
        ledger.make(maker, a, b, 50, 40, 8),
        Err(EscrowError::EscrowAlreadyExists)
    );
    assert_eq!(ledger.balance_of(&maker, &a), 40);
    assert_eq!(ledger.vault(&at).map(|v| v.balance), Some(60));
}

#[test]
fn duplicate_nonce_comes_before_every_other_refusal() {
    let (mut ledger, maker, _taker, a, b) = funded();
    ledger.make(maker, a, b, 50, 60, 8).unwrap();
    assert_eq!(
        ledger.make(maker, a, a, 0, 0, 8),
        Err(EscrowError::EscrowAlreadyExists)
    );
    assert_eq!(
        ledger.make(maker, a, b, 50, 1000, 8),
        Err(EscrowError::EscrowAlreadyExists)
    );
}

#[test]
fn same_nonce_of_another_maker_is_free() {
    let (mut ledger, maker, taker, a, b) = funded();
    ledger.make(maker, a, b, 50, 60, 8).unwrap();
    assert_eq!(ledger.make(taker, b, a, 10, 20, 8), Ok(VaultRef::derive(taker, 8)));
}

#[test]
fn nonce_is_free_again_once_the_escrow_is_closed() {
    let (mut ledger, maker, _taker, a, b) = funded();
    let at = ledger.make(maker, a, b, 50, 60, 8).unwrap();
    ledger.cancel(maker, at).unwrap();
    assert_eq!(ledger.make(maker, a, b, 5, 6, 8), Ok(at));
    assert_eq!(ledger.vault(&at).map(|v| v.balance), Some(6));
}

#[test]
fn make_refuses_zero_amounts_and_equal_assets() {
    let (mut ledger, maker, _taker, a, b) = funded();
    assert_eq!(ledger.make(maker, a, b, 50, 0, 1), Err(EscrowError::InvalidParameters));
    assert_eq!(ledger.make(maker, a, b, 0, 50, 1), Err(EscrowError::InvalidParameters));
    assert_eq!(ledger.make(maker, a, a, 50, 50, 1), Err(EscrowError::InvalidParameters));
    assert_eq!(ledger.balance_of(&maker, &a), 100);
    assert_eq!(ledger.escrow(&VaultRef::derive(maker, 1)), None);
}

#[test]
fn malformed_terms_come_before_missing_funds() {
    let (mut ledger, maker, _taker, a, b) = funded();
    assert_eq!(ledger.make(maker, a, b, 0, 1000, 1), Err(EscrowError::InvalidParameters));
}

#[test]
fn make_refuses_an_offer_beyond_the_balance() {
    let (mut ledger, maker, _taker, a, b) = funded();
    assert_eq!(ledger.make(maker, a, b, 50, 101, 1), Err(EscrowError::InsufficientFunds));
    assert_eq!(ledger.make(maker, b, a, 50, 1, 1), Err(EscrowError::InsufficientFunds));
    assert_eq!(ledger.balance_of(&maker, &a), 100);
    assert_eq!(ledger.vault(&VaultRef::derive(maker, 1)), None);
}

#[test]
fn take_and_cancel_of_what_never_was_are_not_found() {
    let (mut ledger, maker, taker, _a, _b) = funded();
    let at = VaultRef::derive(maker, 77);
    assert_eq!(ledger.take(taker, at), Err(EscrowError::EscrowNotFound));
    assert_eq!(ledger.cancel(maker, at), Err(EscrowError::EscrowNotFound));
    assert_eq!(ledger.cancel(taker, at), Err(EscrowError::EscrowNotFound));
}

#[test]
fn second_of_two_racing_takers_finds_nothing() {
    let (mut ledger, maker, taker, a, b) = funded();
    let late = actor(3);
    ledger.issue(late, b, 50).unwrap();
    let at = ledger.make(maker, a, b, 50, 100, 2).unwrap();
    assert_eq!(ledger.take(taker, at), Ok(()));
    assert_eq!(ledger.take(late, at), Err(EscrowError::EscrowNotFound));
    assert_eq!(ledger.balance_of(&late, &b), 50);
    assert_eq!(ledger.balance_of(&late, &a), 0);
    assert_eq!(ledger.balance_of(&taker, &a), 100);
}

#[test]
fn cancel_that_loses_the_race_finds_nothing() {
    let (mut ledger, maker, taker, a, b) = funded();
    let at = ledger.make(maker, a, b, 50, 100, 2).unwrap();
    assert_eq!(ledger.take(taker, at), Ok(()));
    assert_eq!(ledger.cancel(maker, at), Err(EscrowError::EscrowNotFound));
    assert_eq!(ledger.balance_of(&maker, &a), 0);
    assert_eq!(ledger.balance_of(&maker, &b), 50);
}

#[test]
fn maker_may_run_several_escrows_at_once() {
    let (mut ledger, maker, taker, a, b) = funded();
    let first = ledger.make(maker, a, b, 20, 30, 1).unwrap();
    let second = ledger.make(maker, a, b, 30, 70, 2).unwrap();
    assert_eq!(ledger.balance_of(&maker, &a), 0);
    assert_eq!(ledger.take(taker, second), Ok(()));
    assert_eq!(ledger.vault(&first).map(|v| v.balance), Some(30));
    assert_eq!(ledger.escrow(&first).map(|e| e.desired_amount), Some(20));
    assert_eq!(ledger.balance_of(&taker, &a), 70);
    assert_eq!(ledger.balance_of(&taker, &b), 20);
    assert_eq!(ledger.cancel(maker, first), Ok(()));
    assert_eq!(ledger.balance_of(&maker, &a), 30);
    assert_eq!(ledger.balance_of(&maker, &b), 30);
}

#[test]
fn maker_may_take_the_own_offer() {
    let maker = actor(1);
    let a = asset(10);
    let b = asset(11);
    let mut ledger = Ledger::new();
    ledger.issue(maker, a, 100).unwrap();
    ledger.issue(maker, b, 50).unwrap();
    let at = ledger.make(maker, a, b, 50, 100, 1).unwrap();
    assert_eq!(ledger.take(maker, at), Ok(()));
    assert_eq!(ledger.balance_of(&maker, &a), 100);
    assert_eq!(ledger.balance_of(&maker, &b), 50);
    assert_eq!(ledger.escrow(&at), None);
}

#[test]
fn maker_who_takes_the_own_offer_needs_the_price_too() {
    let (mut ledger, maker, _taker, a, b) = funded();
    let at = ledger.make(maker, a, b, 50, 100, 1).unwrap();
    assert_eq!(ledger.take(maker, at), Err(EscrowError::InsufficientFunds));
    assert_eq!(ledger.vault(&at).map(|v| v.balance), Some(100));
}

#[test]
fn supply_is_the_same_before_and_after_each_operation() {
    let (mut ledger, maker, taker, a, b) = funded();
    assert_eq!(ledger.supply(&a), 100);
    assert_eq!(ledger.supply(&b), 50);
    let first = ledger.make(maker, a, b, 20, 30, 1).unwrap();
    assert_eq!((ledger.supply(&a), ledger.supply(&b)), (100, 50));
    let second = ledger.make(maker, a, b, 30, 70, 2).unwrap();
    assert_eq!((ledger.supply(&a), ledger.supply(&b)), (100, 50));
    ledger.take(taker, first).unwrap();
    assert_eq!((ledger.supply(&a), ledger.supply(&b)), (100, 50));
    ledger.cancel(maker, second).unwrap();
    assert_eq!((ledger.supply(&a), ledger.supply(&b)), (100, 50));
    assert_eq!(ledger.take(taker, second), Err(EscrowError::EscrowNotFound));
    assert_eq!((ledger.supply(&a), ledger.supply(&b)), (100, 50));
}

#[test]
fn make_and_cancel_leave_the_desired_asset_alone() {
    let maker = actor(1);
    let a = asset(10);
    let b = asset(11);
    let mut ledger = Ledger::new();
    ledger.issue(maker, a, 100).unwrap();
    ledger.issue(maker, b, 13).unwrap();
    let at = ledger.make(maker, a, b, 50, 100, 1).unwrap();
    assert_eq!(ledger.balance_of(&maker, &b), 13);
    ledger.cancel(maker, at).unwrap();
    assert_eq!(ledger.balance_of(&maker, &b), 13);
}

#[test]
fn issue_adds_to_balance_and_supply() {
    let mut ledger = Ledger::new();
    let holder = actor(1);
    let a = asset(10);
    assert_eq!(ledger.balance_of(&holder, &a), 0);
    assert_eq!(ledger.supply(&a), 0);
    assert_eq!(ledger.issue(holder, a, 5), Ok(()));
    assert_eq!(ledger.issue(holder, a, 7), Ok(()));
    assert_eq!(ledger.issue(actor(2), a, 1), Ok(()));
    assert_eq!(ledger.balance_of(&holder, &a), 12);
    assert_eq!(ledger.supply(&a), 13);
    assert_eq!(ledger.supply(&asset(11)), 0);
}

#[test]
fn issue_refuses_more_than_a_balance_can_hold() {
    let mut ledger = Ledger::new();
    let a = asset(10);
    assert_eq!(ledger.issue(actor(1), a, u64::MAX - 1), Ok(()));
    assert_eq!(ledger.issue(actor(2), a, 2), Err(EscrowError::InvalidParameters));
    assert_eq!(ledger.balance_of(&actor(2), &a), 0);
    assert_eq!(ledger.issue(actor(2), a, 1), Ok(()));
    assert_eq!(ledger.supply(&a), u64::MAX);
    assert_eq!(ledger.issue(actor(2), asset(11), u64::MAX), Ok(()));
}

#[test]
fn issue_counts_what_the_vaults_hold() {
    let (mut ledger, maker, _taker, a, b) = funded();
    ledger.make(maker, a, b, 50, 100, 1).unwrap();
    assert_eq!(ledger.balance_of(&maker, &a), 0);
    assert_eq!(
        ledger.issue(maker, a, u64::MAX - 99),
        Err(EscrowError::InvalidParameters)
    );
    assert_eq!(ledger.issue(maker, a, u64::MAX - 100), Ok(()));
}

#[test]
fn settlement_at_the_largest_amounts() {
    let maker = actor(1);
    let taker = actor(2);
    let a = asset(10);
    let b = asset(11);
    let mut ledger = Ledger::new();
    ledger.issue(maker, a, u64::MAX).unwrap();
    ledger.issue(taker, b, u64::MAX).unwrap();
    let at = ledger.make(maker, a, b, u64::MAX, u64::MAX, u64::MAX).unwrap();
    assert_eq!(ledger.take(taker, at), Ok(()));
    assert_eq!(ledger.balance_of(&taker, &a), u64::MAX);
    assert_eq!(ledger.balance_of(&maker, &b), u64::MAX);
}

#[test]
fn take_opens_the_accounts_that_are_missing() {
    let (mut ledger, maker, taker, a, b) = funded();
    assert_eq!(ledger.balance_of(&taker, &a), 0);
    assert_eq!(ledger.balance_of(&maker, &b), 0);
    let at = ledger.make(maker, a, b, 10, 10, 1).unwrap();
    ledger.take(taker, at).unwrap();
    assert_eq!(ledger.balance_of(&taker, &a), 10);
    assert_eq!(ledger.balance_of(&maker, &b), 10);
    assert_eq!(ledger.balance_of(&taker, &b), 40);
}

#[test]
fn new_ledger_is_empty() {
    let ledger = Ledger::new();
    assert_eq!(ledger.balance_of(&actor(1), &asset(1)), 0);
    assert_eq!(ledger.escrow(&VaultRef::derive(actor(1), 0)), None);
    assert_eq!(ledger.vault(&VaultRef::derive(actor(1), 0)), None);
    assert_eq!(ledger.supply(&asset(1)), 0);
}

#[test]
fn closed_escrow_stays_closed_through_other_calls() {
    let (mut ledger, maker, taker, a, b) = funded();
    let at = ledger.make(maker, a, b, 20, 30, 1).unwrap();
    assert_eq!(ledger.take(taker, at), Ok(()));
    let other = ledger.make(maker, a, b, 5, 10, 2).unwrap();
    ledger.issue(taker, b, 100).unwrap();
    assert_eq!(ledger.take(taker, at), Err(EscrowError::EscrowNotFound));
    assert_eq!(ledger.take(taker, other), Ok(()));
    assert_eq!(ledger.make(taker, b, a, 1, 1, 1), Ok(VaultRef::derive(taker, 1)));
    assert_eq!(ledger.cancel(maker, at), Err(EscrowError::EscrowNotFound));
    assert_eq!(ledger.take(maker, at), Err(EscrowError::EscrowNotFound));
    assert_eq!(ledger.escrow(&at), None);
}

#[test]
fn live_escrow_is_untouched_by_calls_elsewhere() {
    let (mut ledger, maker, taker, a, b) = funded();
    let at = ledger.make(maker, a, b, 20, 30, 1).unwrap();
    let record = ledger.escrow(&at);
    let vault = ledger.vault(&at);
    let other = ledger.make(maker, a, b, 5, 10, 2).unwrap();
    ledger.issue(maker, a, 1000).unwrap();
    ledger.take(taker, other).unwrap();
    let third = ledger.make(taker, a, b, 1, 1, 1).unwrap();
    ledger.cancel(taker, third).unwrap();
    assert_eq!(ledger.make(maker, b, a, 9, 9, 1), Err(EscrowError::EscrowAlreadyExists));
    assert_eq!(ledger.cancel(taker, at), Err(EscrowError::Unauthorized));
    assert_eq!(ledger.escrow(&at), record);
    assert_eq!(ledger.vault(&at), vault);
    assert_eq!(vault.map(|v| v.balance), Some(30));
}
