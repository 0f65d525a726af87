use escrow::currency::Currency;
use escrow::founders::payout::{payout_of, to_receive};
use escrow::founders::{Event, GenesisConfig, Pallet};
use escrow::primitives::{hash_eq, u128_to_balance, u32_to_balance};

const A: u64 = 10;
const B: u64 = 20;
const C: u64 = 30;

#[test]
fn distribution_by_weight() {
    let mut currency = Currency::new(0);
    let mut treasury = Pallet::new();
    treasury.insert_ticket(A, 60);
    treasury.insert_ticket(B, 40);
    treasury.add_to_bucket(100);
    assert_eq!(treasury.bucket(), 100);

    assert_eq!(
        treasury.on_finalize(&mut currency, 5),
        Some(Event::DistributionPerformed(100, 5))
    );
    assert_eq!(currency.free_balance(A), 60);
    assert_eq!(currency.free_balance(B), 40);
    assert_eq!(currency.free_balance(C), 0);
    assert_eq!(treasury.bucket(), 0);
    assert_eq!(treasury.tickets(A), 60);
    assert_eq!(treasury.tickets(B), 40);
}

#[test]
fn an_empty_bucket_distributes_nothing() {
    let mut currency = Currency::new(0);
    currency.deposit_creating(A, 7);
    let mut treasury = Pallet::new();
    treasury.insert_ticket(A, 60);
    treasury.insert_ticket(B, 40);
    assert_eq!(treasury.on_finalize(&mut currency, 1), None);
    assert_eq!(currency.free_balance(A), 7);
    assert_eq!(currency.free_balance(B), 0);
    assert_eq!(treasury.bucket(), 0);
}

#[test]
fn the_bucket_is_emptied_even_where_nobody_receives() {
    let mut currency = Currency::new(0);
    let mut treasury = Pallet::new();
    treasury.add_to_bucket(1_000);
    assert_eq!(
        treasury.on_finalize(&mut currency, 3),
        Some(Event::DistributionPerformed(1_000, 3))
    );
    assert_eq!(treasury.bucket(), 0);
    assert_eq!(treasury.on_finalize(&mut currency, 4), None);

    treasury.insert_ticket(A, 1);
    treasury.add_to_bucket(99);
    assert_eq!(
        treasury.on_finalize(&mut currency, 5),
        Some(Event::DistributionPerformed(99, 5))
    );
    assert_eq!(currency.free_balance(A), 0);
    assert_eq!(treasury.bucket(), 0);
}

#[test]
fn payouts_are_rounded_down_and_added_to_what_is_held() {
    let mut currency = Currency::new(0);
    currency.deposit_creating(A, 5);
    let mut treasury = Pallet::new();
    treasury.insert_ticket(A, 33);
    treasury.insert_ticket(B, 33);
    treasury.insert_ticket(C, 34);
    treasury.add_to_bucket(10);
    treasury.on_finalize(&mut currency, 1);
    assert_eq!(currency.free_balance(A), 8);
    assert_eq!(currency.free_balance(B), 3);
    assert_eq!(currency.free_balance(C), 3);
}

#[test]
fn a_ticket_replaces_the_one_before() {
    let mut treasury = Pallet::new();
    assert_eq!(treasury.tickets(A), 0);
    treasury.insert_ticket(A, 10);
    treasury.insert_ticket(B, 20);
    treasury.insert_ticket(A, 30);
    assert_eq!(treasury.tickets(A), 30);
    assert_eq!(treasury.tickets(B), 20);
    let mut currency = Currency::new(0);
    treasury.add_to_bucket(200);
    treasury.on_finalize(&mut currency, 1);
    assert_eq!(currency.free_balance(A), 60);
    assert_eq!(currency.free_balance(B), 40);
}

#[test]
fn the_bucket_saturates() {
    let mut treasury = Pallet::new();
    treasury.add_to_bucket(u128::MAX - 1);
    treasury.add_to_bucket(5);
    assert_eq!(treasury.bucket(), u128::MAX);
    treasury.add_to_bucket(0);
    assert_eq!(treasury.bucket(), u128::MAX);
}

#[test]
fn payouts_saturate() {
    let mut currency = Currency::new(0);
    currency.deposit_creating(B, 1);
    let mut treasury = Pallet::new();
    treasury.insert_ticket(A, 100);
    treasury.insert_ticket(B, 50);
    treasury.add_to_bucket(u128::MAX);
    assert_eq!(
        treasury.on_finalize(&mut currency, 9),
        Some(Event::DistributionPerformed(u128::MAX, 9))
    );
    assert_eq!(currency.free_balance(A), u64::MAX);
    assert_eq!(currency.free_balance(B), u64::MAX);
}

#[test]
fn shares_exact_values() {
    assert_eq!(to_receive(60, 100), 60);
    assert_eq!(to_receive(40, 100), 40);
    assert_eq!(to_receive(33, 10), 3);
    assert_eq!(to_receive(0, 12345), 0);
    assert_eq!(to_receive(100, 0), 0);
    assert_eq!(to_receive(1, 99), 0);
    assert_eq!(to_receive(1, 100), 1);
    assert_eq!(to_receive(199, 199), 396);
    assert_eq!(to_receive(100, u128::MAX), u128::MAX);
    assert_eq!(to_receive(u128::MAX, 100), u128::MAX);
    assert_eq!(to_receive(99, u128::MAX), u128::MAX / 100 * 99 + (u128::MAX % 100) * 99 / 100);
    assert_eq!(to_receive(50, u128::MAX), u128::MAX / 2);
    assert_eq!(to_receive(101, u128::MAX), u128::MAX);
    assert_eq!(to_receive(u128::MAX, u128::MAX), u128::MAX);
    assert_eq!(to_receive(1 << 64, 1 << 64), u128::MAX / 100);
    assert_eq!(to_receive(1 << 68, 1 << 67), u128::MAX);
    assert_eq!(to_receive(1 << 63, 1 << 64), (1u128 << 127) / 100);
}

#[test]
fn payouts_as_balances() {
    assert_eq!(payout_of(60, 100), 60);
    assert_eq!(payout_of(100, u64::MAX as u128), u64::MAX);
    assert_eq!(payout_of(100, u64::MAX as u128 + 1), u64::MAX);
    assert_eq!(payout_of(50, 2 * (u64::MAX as u128)), u64::MAX);
    assert_eq!(payout_of(50, 2 * (u64::MAX as u128) - 2), u64::MAX - 1);
}

#[test]
fn conversions_saturate() {
    assert_eq!(u128_to_balance(0), 0);
    assert_eq!(u128_to_balance(5), 5);
    assert_eq!(u128_to_balance(u64::MAX as u128), u64::MAX);
    assert_eq!(u128_to_balance(u64::MAX as u128 + 1), u64::MAX);
    assert_eq!(u128_to_balance(u128::MAX), u64::MAX);
    assert_eq!(Pallet::u128_to_balance(1 << 70), u64::MAX);
    assert_eq!(Pallet::u128_to_balance(1 << 20), 1 << 20);
    assert_eq!(u32_to_balance(17), 17);
    assert_eq!(Pallet::u32_to_balance(u32::MAX), u32::MAX as u64);
}

#[test]
fn genesis_without_a_first_founder() {
    let config = GenesisConfig::default();
    assert_eq!(config.first_founder, None);
    let mut treasury = config.build();
    assert_eq!(treasury.bucket(), 0);
    assert_eq!(treasury.tickets(A), 0);
    let mut currency = Currency::new(0);
    treasury.add_to_bucket(10);
    treasury.on_finalize(&mut currency, 1);
    assert_eq!(currency.free_balance(A), 0);
}

#[test]
fn genesis_with_a_first_founder() {
    let config = GenesisConfig { first_founder: Some(A) };
    let mut treasury = config.build();
    assert_eq!(treasury.bucket(), 0);
    assert_eq!(treasury.tickets(A), 100);
    assert_eq!(treasury.tickets(B), 0);
    let mut currency = Currency::new(0);
    treasury.add_to_bucket(250);
    assert_eq!(
        treasury.on_finalize(&mut currency, 2),
        Some(Event::DistributionPerformed(250, 2))
    );
    assert_eq!(currency.free_balance(A), 250);
}

#[test]
fn digests_compare_by_their_bytes() {
    let a = [1u8; 32];
    let mut b = [1u8; 32];
    assert!(hash_eq(&a, &b));
    b[31] = 2;
    assert!(!hash_eq(&a, &b));
    b[31] = 1;
    b[0] = 0;
    assert!(!hash_eq(&a, &b));
}
