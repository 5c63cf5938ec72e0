use bridge_ledger::{
    AccountId, BridgeError, FundsReceived, InkPool, LiquidityReleased, LockEvent, ReleaseEvent,
    LockEntry, UnlockEvent, VaultContract,
};

fn account(byte: u8) -> AccountId {
    let w = u64::from_le_bytes([byte; 8]);
    AccountId::new(w, w, w, w)
}

fn alice() -> AccountId {
    account(0x01)
}

fn admin() -> AccountId {
    account(0xA0)
}

fn depositor() -> AccountId {
    account(0xD0)
}

fn user() -> AccountId {
    account(0x55)
}

fn vault_with_admin() -> VaultContract {
    let mut v = VaultContract::new();
    assert_eq!(v.init(admin()), Ok(()));
    v
}

#[test]
fn new_works() {
    let contract = InkPool::new(alice());
    assert_eq!(contract.get_admin(), alice());
}

#[test]
fn default_pool_is_run_by_its_creator() {
    let pool = InkPool::default(user());
    assert_eq!(pool.get_admin(), user());
    assert_eq!(pool.get_total_released(), 0);
    assert_eq!(pool.get_balance(), 0);
}

#[test]
fn account_words_are_kept() {
    let a = AccountId::new(1, 2, 3, 4);
    assert_eq!((a.w0, a.w1, a.w2, a.w3), (1, 2, 3, 4));
    assert_ne!(a, AccountId::new(1, 2, 3, 5));
}

#[test]
fn vault_init_once() {
    let mut v = VaultContract::new();
    assert_eq!(v.get_admin(), None);
    assert_eq!(v.get_total_locked(), 0);
    assert_eq!(v.init(admin()), Ok(()));
    assert_eq!(v.get_admin(), Some(admin()));
    assert_eq!(v.init(user()), Err(BridgeError::AlreadyInitialized));
    assert_eq!(v.get_admin(), Some(admin()));
}

#[test]
fn vault_end_to_end_scenario() {
    let mut v = vault_with_admin();
    let d = depositor();
    assert!(v.lock(d, d, 100, String::from("X"), true).is_ok());
    assert_eq!(v.get_locked_balance(d), 100);
    assert_eq!(v.get_total_locked(), 100);
    assert_eq!(v.unlock(admin(), d, 40, true), Ok(UnlockEvent { to: d, amount: 40 }));
    assert_eq!(v.get_locked_balance(d), 60);
    assert_eq!(v.get_total_locked(), 60);
    assert_eq!(v.unlock(admin(), d, 100, true), Err(BridgeError::InsufficientLockedBalance));
    assert_eq!(v.get_locked_balance(d), 60);
    assert_eq!(v.get_total_locked(), 60);
}

#[test]
fn lock_emits_one_notification_with_its_fields() {
    let mut v = vault_with_admin();
    let d = depositor();
    let ev = v.lock(d, d, 100, String::from("X"), true);
    assert_eq!(
        ev,
        Ok(LockEvent { depositor: d, destination_hint: String::from("X"), amount: 100 })
    );
}

#[test]
fn lock_must_be_signed_by_the_depositor() {
    let mut v = vault_with_admin();
    let r = v.lock(user(), depositor(), 100, String::from("0xabc"), true);
    assert_eq!(r, Err(BridgeError::Unauthorized));
    assert_eq!(v.get_locked_balance(depositor()), 0);
    assert_eq!(v.get_total_locked(), 0);
}

#[test]
fn lock_rejects_non_positive_amounts() {
    let mut v = vault_with_admin();
    let d = depositor();
    assert_eq!(v.lock(d, d, 0, String::new(), true), Err(BridgeError::InvalidAmount));
    assert_eq!(v.lock(d, d, -5, String::new(), true), Err(BridgeError::InvalidAmount));
    assert_eq!(v.get_total_locked(), 0);
}

#[test]
fn lock_with_rejected_transfer_changes_nothing() {
    let mut v = vault_with_admin();
    let d = depositor();
    assert_eq!(v.lock(d, d, 10, String::from("h"), false), Err(BridgeError::TransferFailed));
    assert_eq!(v.get_locked_balance(d), 0);
    assert_eq!(v.get_total_locked(), 0);
}

#[test]
fn lock_accumulates_per_depositor() {
    let mut v = vault_with_admin();
    let d = depositor();
    let u = user();
    assert!(v.lock(d, d, 30, String::from("a"), true).is_ok());
    assert!(v.lock(u, u, 5, String::from("b"), true).is_ok());
    assert!(v.lock(d, d, 12, String::from("c"), true).is_ok());
    assert_eq!(v.get_locked_balance(d), 42);
    assert_eq!(v.get_locked_balance(u), 5);
    assert_eq!(v.get_locked_balance(alice()), 0);
    assert_eq!(v.get_total_locked(), 47);
}

#[test]
fn lock_up_to_the_largest_total() {
    let mut v = vault_with_admin();
    let d = depositor();
    assert!(v.lock(d, d, i128::MAX, String::new(), true).is_ok());
    assert_eq!(v.get_total_locked(), i128::MAX);
    assert_eq!(v.get_locked_balance(d), i128::MAX);
}

#[test]
fn total_equals_sum_of_balances_and_net_deposits() {
    let mut v = vault_with_admin();
    let people = [depositor(), user(), alice()];
    let mut net: i128 = 0;
    for (k, p) in people.iter().enumerate() {
        let amount = 10 * (k as i128 + 1);
        assert!(v.lock(*p, *p, amount, String::from("h"), true).is_ok());
        net += amount;
    }
    assert!(v.unlock(admin(), user(), 7, true).is_ok());
    net -= 7;
    assert!(v.unlock(admin(), alice(), 30, true).is_ok());
    net -= 30;
    let sum: i128 = people.iter().map(|p| v.get_locked_balance(*p)).sum();
    assert_eq!(v.get_total_locked(), sum);
    assert_eq!(v.get_total_locked(), net);
    assert_eq!(v.get_locked_balance(alice()), 0);
}

#[test]
fn unlock_requires_the_admin() {
    let mut v = vault_with_admin();
    let d = depositor();
    assert!(v.lock(d, d, 50, String::from("h"), true).is_ok());
    assert_eq!(v.unlock(d, d, 10, true), Err(BridgeError::Unauthorized));
    assert_eq!(v.get_locked_balance(d), 50);
    assert_eq!(v.get_total_locked(), 50);
}

#[test]
fn unlock_before_init_is_unauthorized() {
    let mut v = VaultContract::new();
    assert_eq!(v.unlock(admin(), depositor(), 1, true), Err(BridgeError::Unauthorized));
}

#[test]
fn unlock_rejects_non_positive_amounts() {
    let mut v = vault_with_admin();
    assert_eq!(v.unlock(admin(), depositor(), 0, true), Err(BridgeError::InvalidAmount));
    assert_eq!(v.unlock(admin(), depositor(), -3, true), Err(BridgeError::InvalidAmount));
}

#[test]
fn unlock_more_than_locked_fails() {
    let mut v = vault_with_admin();
    let d = depositor();
    assert!(v.lock(d, d, 20, String::from("h"), true).is_ok());
    assert_eq!(v.unlock(admin(), d, 21, true), Err(BridgeError::InsufficientLockedBalance));
    assert_eq!(v.unlock(admin(), user(), 1, true), Err(BridgeError::InsufficientLockedBalance));
    assert_eq!(v.get_locked_balance(d), 20);
    assert_eq!(v.get_total_locked(), 20);
}

#[test]
fn unlock_with_rejected_transfer_changes_nothing() {
    let mut v = vault_with_admin();
    let d = depositor();
    assert!(v.lock(d, d, 20, String::from("h"), true).is_ok());
    assert_eq!(v.unlock(admin(), d, 5, false), Err(BridgeError::TransferFailed));
    assert_eq!(v.get_locked_balance(d), 20);
}

#[test]
fn unlock_whole_balance_leaves_zero() {
    let mut v = vault_with_admin();
    let d = depositor();
    assert!(v.lock(d, d, 20, String::from("h"), true).is_ok());
    assert!(v.unlock(admin(), d, 20, true).is_ok());
    assert_eq!(v.get_locked_balance(d), 0);
    assert_eq!(v.get_total_locked(), 0);
}

#[test]
fn vault_release_is_admin_only_and_keeps_the_ledger() {
    let mut v = vault_with_admin();
    let d = depositor();
    assert!(v.lock(d, d, 20, String::from("h"), true).is_ok());
    assert_eq!(v.release(d, user(), 5, true), Err(BridgeError::Unauthorized));
    assert_eq!(v.release(admin(), user(), 0, true), Err(BridgeError::InvalidAmount));
    assert_eq!(v.release(admin(), user(), 5, false), Err(BridgeError::TransferFailed));
    assert_eq!(v.release(admin(), user(), 5, true), Ok(ReleaseEvent { to: user(), amount: 5 }));
    assert_eq!(v.get_total_locked(), 20);
    assert_eq!(v.get_locked_balance(d), 20);
}

#[test]
fn vault_set_admin_rotates_control() {
    let mut v = vault_with_admin();
    assert_eq!(v.set_admin(user(), user()), Err(BridgeError::Unauthorized));
    assert_eq!(v.get_admin(), Some(admin()));
    assert_eq!(v.set_admin(admin(), alice()), Ok(()));
    assert_eq!(v.get_admin(), Some(alice()));
    assert_eq!(v.unlock(admin(), depositor(), 1, true), Err(BridgeError::Unauthorized));
}

#[test]
fn pool_scenario() {
    let mut p = InkPool::new(admin());
    assert_eq!(p.fund(user(), 1000), FundsReceived { from: user(), amount: 1000 });
    assert_eq!(p.get_balance(), 1000);
    assert!(p.release_liquidity(admin(), user(), 300, true).is_ok());
    assert_eq!(p.get_balance(), 700);
    assert_eq!(p.get_total_released(), 300);
    assert_eq!(
        p.release_liquidity(admin(), user(), 800, true),
        Err(BridgeError::InsufficientReserve)
    );
    assert_eq!(p.get_balance(), 700);
    assert_eq!(p.get_total_released(), 300);
}

#[test]
fn release_emits_one_notification_and_counts_it() {
    let mut p = InkPool::new(admin());
    p.observe_balance(500);
    assert!(p.release_liquidity(admin(), depositor(), 20, true).is_ok());
    let before = p.get_total_released();
    let r = p.release_liquidity(admin(), user(), 50, true);
    assert_eq!(r, Ok(LiquidityReleased { to: user(), amount: 50 }));
    assert_eq!(p.get_total_released(), before + 50);
    assert_eq!(p.get_balance(), 430);
}

#[test]
fn release_requires_the_admin() {
    let mut p = InkPool::new(admin());
    p.observe_balance(100);
    assert_eq!(p.release_liquidity(user(), user(), 10, true), Err(BridgeError::Unauthorized));
    assert_eq!(p.get_balance(), 100);
    assert_eq!(p.get_total_released(), 0);
}

#[test]
fn release_rejects_zero() {
    let mut p = InkPool::new(admin());
    p.observe_balance(100);
    assert_eq!(p.release_liquidity(admin(), user(), 0, true), Err(BridgeError::InvalidAmount));
}

#[test]
fn release_of_whole_reserve_succeeds() {
    let mut p = InkPool::new(admin());
    p.observe_balance(100);
    assert!(p.release_liquidity(admin(), user(), 100, true).is_ok());
    assert_eq!(p.get_balance(), 0);
    assert_eq!(
        p.release_liquidity(admin(), user(), 1, true),
        Err(BridgeError::InsufficientReserve)
    );
}

#[test]
fn release_with_rejected_transfer_changes_nothing() {
    let mut p = InkPool::new(admin());
    p.observe_balance(100);
    assert_eq!(p.release_liquidity(admin(), user(), 10, false), Err(BridgeError::TransferFailed));
    assert_eq!(p.get_balance(), 100);
    assert_eq!(p.get_total_released(), 0);
}

#[test]
fn total_released_saturates() {
    let mut p = InkPool::new(admin());
    p.observe_balance(u128::MAX);
    assert!(p.release_liquidity(admin(), user(), u128::MAX - 1, true).is_ok());
    p.observe_balance(u128::MAX);
    assert!(p.release_liquidity(admin(), user(), 10, true).is_ok());
    assert_eq!(p.get_total_released(), u128::MAX);
}

#[test]
fn observed_balance_replaces_the_old_figure() {
    let mut p = InkPool::new(admin());
    p.fund(user(), 40);
    p.observe_balance(7);
    assert_eq!(p.get_balance(), 7);
    assert_eq!(p.get_admin(), admin());
}

#[test]
fn pool_set_admin_rotates_control() {
    let mut p = InkPool::new(admin());
    assert_eq!(p.set_admin(user(), user()), Err(BridgeError::Unauthorized));
    assert_eq!(p.get_admin(), admin());
    assert_eq!(p.set_admin(admin(), alice()), Ok(()));
    assert_eq!(p.get_admin(), alice());
    p.observe_balance(10);
    assert_eq!(p.release_liquidity(admin(), user(), 1, true), Err(BridgeError::Unauthorized));
}

#[test]
fn reads_are_repeatable() {
    let mut v = vault_with_admin();
    let d = depositor();
    assert!(v.lock(d, d, 9, String::from("h"), true).is_ok());
    assert_eq!(v.get_admin(), v.get_admin());
    assert_eq!(v.get_total_locked(), v.get_total_locked());
    assert_eq!(v.get_locked_balance(d), v.get_locked_balance(d));
    let mut p = InkPool::new(admin());
    p.fund(user(), 90);
    assert!(p.release_liquidity(admin(), user(), 9, true).is_ok());
    assert_eq!(p.get_admin(), p.get_admin());
    assert_eq!(p.get_balance(), p.get_balance());
    assert_eq!(p.get_total_released(), p.get_total_released());
}

#[test]
fn vault_restore_checks_its_parts() {

    let d = LockEntry { owner: depositor(), amount: 30 };
    let u = LockEntry { owner: user(), amount: 12 };
    let v = VaultContract::restore(Some(admin()), vec![d, u], 42).expect("consistent parts");
    assert_eq!(v.get_locked_balance(user()), 12);
    assert_eq!(v.get_total_locked(), 42);
    assert_eq!(v.get_admin(), Some(admin()));
    assert_eq!(v.entries(), vec![d, u]);
    assert!(VaultContract::restore(Some(admin()), vec![d, u], 41).is_none());
    assert!(VaultContract::restore(None, vec![d, d], 60).is_none());
    let neg = LockEntry { owner: alice(), amount: -1 };
    assert!(VaultContract::restore(None, vec![d, neg], 29).is_none());
    assert!(VaultContract::restore(None, vec![], 0).is_some());
    assert!(VaultContract::restore(None, vec![], -1).is_none());
}

#[test]
fn pool_restore_keeps_its_parts() {
    let p = InkPool::restore(alice(), 77, 5);
    assert_eq!(p.get_admin(), alice());
    assert_eq!(p.get_total_released(), 77);
    assert_eq!(p.get_balance(), 5);
}
