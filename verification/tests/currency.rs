use escrow::currency::{Currency, CurrencyError, ExistenceRequirement};

#[test]
fn a_new_ledger_is_empty() {
    let currency = Currency::new(7);
    assert_eq!(currency.minimum_balance(), 7);
    assert_eq!(currency.free_balance(0), 0);
    assert_eq!(currency.free_balance(u64::MAX), 0);
}

#[test]
fn deposit_creating_adds_and_saturates() {
    let mut currency = Currency::new(0);
    assert_eq!(currency.deposit_creating(1, 40), 40);
    assert_eq!(currency.deposit_creating(1, 2), 2);
    assert_eq!(currency.free_balance(1), 42);
    assert_eq!(currency.free_balance(2), 0);
    assert_eq!(currency.deposit_creating(1, u64::MAX), u64::MAX - 42);
    assert_eq!(currency.free_balance(1), u64::MAX);
    assert_eq!(currency.deposit_creating(1, 1), 0);
    assert_eq!(currency.deposit_creating(3, 0), 0);
    assert_eq!(currency.free_balance(3), 0);
}

#[test]
fn deposit_into_existing_needs_a_balance() {
    let mut currency = Currency::new(0);
    assert_eq!(currency.deposit_into_existing(1, 5), Err(CurrencyError::DeadAccount));
    assert_eq!(currency.free_balance(1), 0);
    currency.deposit_creating(1, 1);
    assert_eq!(currency.deposit_into_existing(1, 5), Ok(()));
    assert_eq!(currency.free_balance(1), 6);
}

#[test]
fn withdraw_takes_exactly_the_amount() {
    let mut currency = Currency::new(0);
    currency.deposit_creating(1, 100);
    currency.deposit_creating(2, 50);
    assert_eq!(currency.withdraw(1, 30, ExistenceRequirement::KeepAlive), Ok(()));
    assert_eq!(currency.free_balance(1), 70);
    assert_eq!(currency.free_balance(2), 50);
    assert_eq!(currency.withdraw(1, 70, ExistenceRequirement::KeepAlive), Ok(()));
    assert_eq!(currency.free_balance(1), 0);
}

#[test]
fn withdraw_refuses_more_than_is_held() {
    let mut currency = Currency::new(0);
    currency.deposit_creating(1, 100);
    assert_eq!(
        currency.withdraw(1, 101, ExistenceRequirement::AllowDeath),
        Err(CurrencyError::InsufficientBalance)
    );
    assert_eq!(
        currency.withdraw(2, 1, ExistenceRequirement::KeepAlive),
        Err(CurrencyError::InsufficientBalance)
    );
    assert_eq!(currency.free_balance(1), 100);
    assert_eq!(currency.free_balance(2), 0);
}

#[test]
fn withdraw_keeps_the_minimum_where_asked() {
    let mut currency = Currency::new(10);
    currency.deposit_creating(1, 100);
    assert_eq!(
        currency.ensure_can_withdraw(1, 91, ExistenceRequirement::KeepAlive),
        Err(CurrencyError::KeepAlive)
    );
    assert_eq!(
        currency.withdraw(1, 91, ExistenceRequirement::KeepAlive),
        Err(CurrencyError::KeepAlive)
    );
    assert_eq!(currency.free_balance(1), 100);
    assert_eq!(currency.ensure_can_withdraw(1, 90, ExistenceRequirement::KeepAlive), Ok(()));
    assert_eq!(currency.ensure_can_withdraw(1, 91, ExistenceRequirement::AllowDeath), Ok(()));
    assert_eq!(currency.free_balance(1), 100);
    assert_eq!(currency.withdraw(1, 90, ExistenceRequirement::KeepAlive), Ok(()));
    assert_eq!(currency.free_balance(1), 10);
    assert_eq!(currency.withdraw(1, 10, ExistenceRequirement::AllowDeath), Ok(()));
    assert_eq!(currency.free_balance(1), 0);
}
