use vstd::prelude::*;

use crate::model::create_pool_step_t;
use crate::model::process_deposits_step_t;
use crate::model::subscribe_step_t;
use crate::model::withdraw_step_t;
use crate::model::Pool;
use crate::model::Subscription;
use crate::types::Error;
use crate::types::SubscriptionPeriod;
use crate::types::MIN_SUBSCRIPTION;

verus! {

/// Pool creation over a loaded counter: returns the next sequential id and
/// the new pool record to store under it.
pub fn create_pool_step(count: u64, name: String, token: u64) -> (r: (u64, Pool))
    requires
        count < u64::MAX,
    ensures
        r == create_pool_step_t(count, name, token),
{
    let id = count + 1;
    (id, Pool { pool_id: id, name, token, total_balance: 0, subscriber_count: 0 })
}

/// Enrollment over a loaded pool record: rejects amounts below the minimum,
/// otherwise returns the counted pool and the new subscription to store.
pub fn subscribe_step(
    pool: &Pool,
    subscriber: u64,
    amount: i128,
    period: SubscriptionPeriod,
    now: u64,
) -> (r: Result<(Pool, Subscription), Error>)
    requires
        amount >= MIN_SUBSCRIPTION ==> pool.subscriber_count < u32::MAX,
    ensures
        r == subscribe_step_t(*pool, subscriber, amount, period, now),
{
    if amount < MIN_SUBSCRIPTION {
        return Err(Error::BelowMinimum);
    }
    let mut updated = pool.clone();
    updated.subscriber_count = updated.subscriber_count + 1;
    let sub = Subscription {
        subscriber,
        pool_id: pool.pool_id,
        amount,
        period,
        last_payment: now,
    };
    Ok((updated, sub))
}

/// Deposit processing over loaded records: rejects while `now` is strictly
/// before `last_payment + period`, otherwise returns the credited pool and
/// the subscription advanced to `now`.
pub fn process_deposits_step(pool: &Pool, sub: &Subscription, now: u64) -> (r: Result<
    (Pool, Subscription),
    Error,
>)
    requires
        sub.last_payment + sub.period.seconds_spec() <= u64::MAX,
        sub.period_elapsed(now) ==> i128::MIN <= pool.total_balance + sub.amount <= i128::MAX,
    ensures
        r == process_deposits_step_t(*pool, *sub, now),
{
    if now < sub.last_payment + sub.period.seconds() {
        return Err(Error::PeriodNotElapsed);
    }
    let mut updated_pool = pool.clone();
    updated_pool.total_balance = updated_pool.total_balance + sub.amount;
    let mut updated_sub = *sub;
    updated_sub.last_payment = now;
    Ok((updated_pool, updated_sub))
}

/// Withdrawal over a loaded pool record: rejects amounts above the balance,
/// otherwise returns the debited pool.
pub fn withdraw_step(pool: &Pool, amount: i128) -> (r: Result<Pool, Error>)
    requires
        amount <= pool.total_balance ==> pool.total_balance - amount <= i128::MAX,
    ensures
        r == withdraw_step_t(*pool, amount),
{
    if amount > pool.total_balance {
        return Err(Error::InsufficientBalance);
    }
    let mut updated = pool.clone();
    updated.total_balance = updated.total_balance - amount;
    Ok(updated)
}

} // verus!
