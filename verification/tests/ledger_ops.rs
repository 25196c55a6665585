use subscription_pool::Error;
use subscription_pool::SubscriptionPeriod;
use subscription_pool::SubscriptionPoolContract;
use subscription_pool::MIN_SUBSCRIPTION;

/// Helper to set up a ledger with one caller identity and one token.
fn setup_test() -> (SubscriptionPoolContract, u64, u64) {
    let ledger = SubscriptionPoolContract::new();
    let user: u64 = 11;
    let token: u64 = 77;
    (ledger, user, token)
}

#[test]
fn test_pool_creation() {
    let (mut ledger, _, token) = setup_test();

    let name = String::from("Strategy A");
    let pool_id = ledger.create_pool(name.clone(), token);

    let pool = ledger.get_pool(pool_id).unwrap();
    assert_eq!(pool.pool_id, 1);
    assert_eq!(pool.name, name);
    assert_eq!(pool.total_balance, 0);
}

#[test]
fn test_subscriber_enrollment() {
    let (mut ledger, user, token) = setup_test();
    let pool_id = ledger.create_pool(String::from("Strategy A"), token);

    let amount = 500_000_000;
    ledger
        .subscribe(pool_id, user, amount, SubscriptionPeriod::Weekly, 0)
        .unwrap();

    let sub = ledger.get_subscription(pool_id, user).unwrap();
    assert_eq!(sub.amount, amount);
    assert_eq!(sub.period, SubscriptionPeriod::Weekly);
    assert_eq!(sub.subscriber, user);
}

#[test]
fn test_enrollment_counts_subscriber() {
    let (mut ledger, user, token) = setup_test();
    let pool_id = ledger.create_pool(String::from("Strategy A"), token);

    ledger
        .subscribe(pool_id, user, 500_000_000, SubscriptionPeriod::Weekly, 0)
        .unwrap();

    let pool = ledger.get_pool(pool_id).unwrap();
    assert_eq!(pool.subscriber_count, 1);
}

#[test]
fn test_process_deposits_increases_balance_after_period() {
    let (mut ledger, user, token) = setup_test();
    let pool_id = ledger.create_pool(String::from("Strategy A"), token);
    let amount = 200_000_000;

    ledger
        .subscribe(pool_id, user, amount, SubscriptionPeriod::Weekly, 0)
        .unwrap();

    // Warp time: 1 week = 604,800 seconds
    ledger.process_deposits(pool_id, user, 604_801).unwrap();

    let pool = ledger.get_pool(pool_id).unwrap();
    assert_eq!(pool.total_balance, amount);
    let sub = ledger.get_subscription(pool_id, user).unwrap();
    assert_eq!(sub.last_payment, 604_801);
}

#[test]
fn test_cannot_process_deposit_too_soon() {
    let (mut ledger, user, token) = setup_test();
    let pool_id = ledger.create_pool(String::from("Strategy A"), token);

    ledger
        .subscribe(pool_id, user, 200_000_000, SubscriptionPeriod::Monthly, 0)
        .unwrap();

    // Only 1 day passes instead of 30
    let result = ledger.process_deposits(pool_id, user, 86_400);

    assert_eq!(result, Err(Error::PeriodNotElapsed));
    let pool = ledger.get_pool(pool_id).unwrap();
    assert_eq!(pool.total_balance, 0);
    let sub = ledger.get_subscription(pool_id, user).unwrap();
    assert_eq!(sub.last_payment, 0);
}

#[test]
fn test_withdrawal_reduces_balance() {
    let (mut ledger, user, token) = setup_test();
    let pool_id = ledger.create_pool(String::from("Strategy A"), token);

    // Simulate a deposit first so there is money to withdraw
    ledger
        .subscribe(pool_id, user, 500_000_000, SubscriptionPeriod::Weekly, 0)
        .unwrap();
    ledger.process_deposits(pool_id, user, 604_801).unwrap();

    ledger.withdraw(pool_id, user, 200_000_000).unwrap();

    let pool = ledger.get_pool(pool_id).unwrap();
    assert_eq!(pool.total_balance, 300_000_000);
}

#[test]
fn test_guardrail_prevents_excessive_withdrawal() {
    let (mut ledger, user, token) = setup_test();
    let pool_id = ledger.create_pool(String::from("Strategy A"), token);

    // Pool is empty (0 balance)
    let result = ledger.withdraw(pool_id, user, 1);

    assert_eq!(result, Err(Error::InsufficientBalance));
    let pool = ledger.get_pool(pool_id).unwrap();
    assert_eq!(pool.total_balance, 0);
}

#[test]
fn test_pool_ids_are_sequential() {
    let (mut ledger, _, token) = setup_test();

    let first = ledger.create_pool(String::from("Alpha"), token);
    let second = ledger.create_pool(String::from("Beta"), token);
    let third = ledger.create_pool(String::from("Gamma"), token);

    assert_eq!(first, 1);
    assert_eq!(second, 2);
    assert_eq!(third, 3);
    assert_eq!(ledger.get_pool(2).unwrap().name, String::from("Beta"));
}

#[test]
fn test_subscribe_below_minimum_changes_nothing() {
    let (mut ledger, user, token) = setup_test();
    let pool_id = ledger.create_pool(String::from("Strategy A"), token);

    let result = ledger.subscribe(
        pool_id,
        user,
        MIN_SUBSCRIPTION - 1,
        SubscriptionPeriod::Weekly,
        0,
    );

    assert_eq!(result, Err(Error::BelowMinimum));
    assert_eq!(ledger.get_pool(pool_id).unwrap().subscriber_count, 0);
    assert_eq!(
        ledger.get_subscription(pool_id, user),
        Err(Error::SubscriptionNotFound)
    );
}

#[test]
fn test_subscribe_at_exact_minimum_succeeds() {
    let (mut ledger, user, token) = setup_test();
    let pool_id = ledger.create_pool(String::from("Strategy A"), token);

    ledger
        .subscribe(pool_id, user, MIN_SUBSCRIPTION, SubscriptionPeriod::Quarterly, 5)
        .unwrap();

    let sub = ledger.get_subscription(pool_id, user).unwrap();
    assert_eq!(sub.amount, MIN_SUBSCRIPTION);
    assert_eq!(sub.period, SubscriptionPeriod::Quarterly);
    assert_eq!(sub.last_payment, 5);
}

#[test]
fn test_subscribe_to_unknown_pool_fails() {
    let (mut ledger, user, _) = setup_test();

    let result = ledger.subscribe(9, user, 500_000_000, SubscriptionPeriod::Weekly, 0);

    assert_eq!(result, Err(Error::PoolNotFound));
}

#[test]
fn test_process_deposit_at_exact_boundary_succeeds() {
    let (mut ledger, user, token) = setup_test();
    let pool_id = ledger.create_pool(String::from("Strategy A"), token);
    ledger
        .subscribe(pool_id, user, 200_000_000, SubscriptionPeriod::Weekly, 0)
        .unwrap();

    // now == last_payment + period is sufficient: the check is strict `<`.
    ledger.process_deposits(pool_id, user, 604_800).unwrap();

    assert_eq!(ledger.get_pool(pool_id).unwrap().total_balance, 200_000_000);
}

#[test]
fn test_no_double_credit_without_period_elapse() {
    let (mut ledger, user, token) = setup_test();
    let pool_id = ledger.create_pool(String::from("Strategy A"), token);
    ledger
        .subscribe(pool_id, user, 200_000_000, SubscriptionPeriod::Weekly, 0)
        .unwrap();

    ledger.process_deposits(pool_id, user, 604_801).unwrap();
    let second = ledger.process_deposits(pool_id, user, 604_801);

    assert_eq!(second, Err(Error::PeriodNotElapsed));
    assert_eq!(ledger.get_pool(pool_id).unwrap().total_balance, 200_000_000);
}

#[test]
fn test_second_period_credits_again() {
    let (mut ledger, user, token) = setup_test();
    let pool_id = ledger.create_pool(String::from("Strategy A"), token);
    ledger
        .subscribe(pool_id, user, 200_000_000, SubscriptionPeriod::Weekly, 0)
        .unwrap();

    ledger.process_deposits(pool_id, user, 604_801).unwrap();
    ledger.process_deposits(pool_id, user, 1_209_601).unwrap();

    assert_eq!(ledger.get_pool(pool_id).unwrap().total_balance, 400_000_000);
}

#[test]
fn test_process_deposits_without_subscription_fails() {
    let (mut ledger, user, token) = setup_test();
    let pool_id = ledger.create_pool(String::from("Strategy A"), token);

    let result = ledger.process_deposits(pool_id, user, 604_801);

    assert_eq!(result, Err(Error::SubscriptionNotFound));
}

#[test]
fn test_get_pool_unknown_id_fails() {
    let (mut ledger, _, token) = setup_test();
    ledger.create_pool(String::from("Strategy A"), token);

    assert_eq!(ledger.get_pool(0), Err(Error::PoolNotFound));
    assert_eq!(ledger.get_pool(2), Err(Error::PoolNotFound));
}

#[test]
fn test_withdraw_from_unknown_pool_fails() {
    let (mut ledger, user, _) = setup_test();

    let result = ledger.withdraw(3, user, 1);

    assert_eq!(result, Err(Error::PoolNotFound));
}

#[test]
fn test_reenrollment_overwrites_and_recounts() {
    let (mut ledger, user, token) = setup_test();
    let pool_id = ledger.create_pool(String::from("Strategy A"), token);

    ledger
        .subscribe(pool_id, user, 200_000_000, SubscriptionPeriod::Weekly, 0)
        .unwrap();
    ledger
        .subscribe(pool_id, user, 300_000_000, SubscriptionPeriod::Monthly, 9)
        .unwrap();

    let sub = ledger.get_subscription(pool_id, user).unwrap();
    assert_eq!(sub.amount, 300_000_000);
    assert_eq!(sub.period, SubscriptionPeriod::Monthly);
    assert_eq!(sub.last_payment, 9);
    // The count moves on every successful enrollment, also on overwrite.
    assert_eq!(ledger.get_pool(pool_id).unwrap().subscriber_count, 2);
}

#[test]
fn test_period_lengths() {
    assert_eq!(SubscriptionPeriod::Weekly.seconds(), 604_800);
    assert_eq!(SubscriptionPeriod::Monthly.seconds(), 2_592_000);
    assert_eq!(SubscriptionPeriod::Quarterly.seconds(), 7_776_000);
}

#[test]
fn test_each_pool_keeps_its_own_books() {
    let (mut ledger, user, token) = setup_test();
    let first = ledger.create_pool(String::from("Alpha"), token);
    let second = ledger.create_pool(String::from("Beta"), token);

    ledger
        .subscribe(first, user, 200_000_000, SubscriptionPeriod::Weekly, 0)
        .unwrap();
    ledger
        .subscribe(second, user, 300_000_000, SubscriptionPeriod::Weekly, 0)
        .unwrap();
    ledger.process_deposits(first, user, 604_800).unwrap();

    assert_eq!(ledger.get_pool(first).unwrap().total_balance, 200_000_000);
    assert_eq!(ledger.get_pool(second).unwrap().total_balance, 0);
    assert_eq!(ledger.get_subscription(second, user).unwrap().amount, 300_000_000);
}
