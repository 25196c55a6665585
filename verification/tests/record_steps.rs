use subscription_pool::create_pool_step;
use subscription_pool::process_deposits_step;
use subscription_pool::subscribe_step;
use subscription_pool::withdraw_step;
use subscription_pool::Error;
use subscription_pool::Pool;
use subscription_pool::Subscription;
use subscription_pool::SubscriptionPeriod;

fn sample_pool() -> Pool {
    Pool {
        pool_id: 4,
        name: String::from("Strategy A"),
        token: 77,
        total_balance: 1_000,
        subscriber_count: 3,
    }
}

#[test]
fn test_create_pool_step_builds_fresh_record() {
    let (id, pool) = create_pool_step(6, String::from("Strategy A"), 77);

    assert_eq!(id, 7);
    assert_eq!(pool.pool_id, 7);
    assert_eq!(pool.name, String::from("Strategy A"));
    assert_eq!(pool.token, 77);
    assert_eq!(pool.total_balance, 0);
    assert_eq!(pool.subscriber_count, 0);
}

#[test]
fn test_subscribe_step_counts_and_anchors() {
    let pool = sample_pool();

    let (updated, sub) =
        subscribe_step(&pool, 11, 150_000_000, SubscriptionPeriod::Monthly, 42).unwrap();

    assert_eq!(updated.subscriber_count, 4);
    assert_eq!(updated.total_balance, 1_000);
    assert_eq!(
        sub,
        Subscription {
            subscriber: 11,
            pool_id: 4,
            amount: 150_000_000,
            period: SubscriptionPeriod::Monthly,
            last_payment: 42,
        }
    );
}

#[test]
fn test_subscribe_step_rejects_below_minimum() {
    let pool = sample_pool();

    let result = subscribe_step(&pool, 11, 99_999_999, SubscriptionPeriod::Weekly, 0);

    assert_eq!(result, Err(Error::BelowMinimum));
}

#[test]
fn test_process_deposits_step_credits_and_advances() {
    let pool = sample_pool();
    let sub = Subscription {
        subscriber: 11,
        pool_id: 4,
        amount: 200_000_000,
        period: SubscriptionPeriod::Quarterly,
        last_payment: 100,
    };

    let too_soon = process_deposits_step(&pool, &sub, 7_776_099);
    assert_eq!(too_soon, Err(Error::PeriodNotElapsed));

    let (updated_pool, updated_sub) = process_deposits_step(&pool, &sub, 7_776_100).unwrap();
    assert_eq!(updated_pool.total_balance, 200_001_000);
    assert_eq!(updated_sub.last_payment, 7_776_100);
    assert_eq!(updated_sub.amount, 200_000_000);
}

#[test]
fn test_withdraw_step_guards_balance() {
    let pool = sample_pool();

    assert_eq!(withdraw_step(&pool, 1_001), Err(Error::InsufficientBalance));

    let updated = withdraw_step(&pool, 1_000).unwrap();
    assert_eq!(updated.total_balance, 0);
    assert_eq!(updated.subscriber_count, 3);
}
