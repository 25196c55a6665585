use vstd::prelude::*;

use crate::model::LedgerModel;
use crate::model::Pool;
use crate::model::Subscription;
use crate::types::Error;
use crate::types::SubscriptionPeriod;
use crate::types::MIN_SUBSCRIPTION;

verus! {

/// Creating a pool preserves well-formedness of the ledger model.
pub proof fn lemma_create_pool_t_preserves_wf(l: LedgerModel, name: String, token: u64)
    requires
        l.wf(),
        l.pool_count < u64::MAX,
    ensures
        l.create_pool_t(name, token).0.wf(),
{
    let l1 = l.create_pool_t(name, token).0;
    assert(l1.pools.dom() =~= Set::new(|id: u64| 1 <= id <= l1.pool_count));
}

/// Enrollment preserves well-formedness of the ledger model.
pub proof fn lemma_subscribe_t_preserves_wf(
    l: LedgerModel,
    pool_id: u64,
    subscriber: u64,
    amount: i128,
    period: SubscriptionPeriod,
    now: u64,
)
    requires
        l.wf(),
    ensures
        l.subscribe_t(pool_id, subscriber, amount, period, now).0.wf(),
{
    let l1 = l.subscribe_t(pool_id, subscriber, amount, period, now).0;
    assert(l1.pools.dom() =~= l.pools.dom());
}

/// Deposit processing preserves well-formedness; in particular the credited
/// balance stays non-negative.
pub proof fn lemma_process_deposits_t_preserves_wf(
    l: LedgerModel,
    pool_id: u64,
    subscriber: u64,
    now: u64,
)
    requires
        l.wf(),
        l.subs.dom().contains((pool_id, subscriber)) ==> l.pools[pool_id].total_balance + l.subs[
            (pool_id, subscriber)
        ].amount <= i128::MAX,
    ensures
        l.process_deposits_t(pool_id, subscriber, now).0.wf(),
{
    let l1 = l.process_deposits_t(pool_id, subscriber, now).0;
    assert(l1.pools.dom() =~= l.pools.dom());
}

/// Withdrawal preserves well-formedness: the guard keeps the debited balance
/// non-negative.
pub proof fn lemma_withdraw_t_preserves_wf(l: LedgerModel, pool_id: u64, amount: i128)
    requires
        l.wf(),
        l.pools.dom().contains(pool_id) ==> l.pools[pool_id].total_balance - amount <= i128::MAX,
    ensures
        l.withdraw_t(pool_id, amount).0.wf(),
{
    let l1 = l.withdraw_t(pool_id, amount).0;
    assert(l1.pools.dom() =~= l.pools.dom());
}

/// Pool ids are assigned sequentially: the next id is always
/// pool_count + 1, so the first pool of a fresh ledger gets id 1, and two
/// creations in a row return consecutive ids.
pub proof fn lemma_create_pool_ids_sequential(
    l: LedgerModel,
    n1: String,
    t1: u64,
    n2: String,
    t2: u64,
)
    requires
        l.pool_count < u64::MAX - 1,
    ensures
        l.create_pool_t(n1, t1).1 == l.pool_count + 1,
        l.create_pool_t(n1, t1).0.create_pool_t(n2, t2).1 == l.pool_count + 2,
{
}

/// A created pool is read back exactly as stored: the new id, the given name
/// and token, zero balance and zero subscribers.
pub proof fn lemma_create_pool_round_trip(l: LedgerModel, name: String, token: u64)
    requires
        l.pool_count < u64::MAX,
    ensures
        ({
            let (l1, id) = l.create_pool_t(name, token);
            l1.get_pool_t(id) == Ok::<Pool, Error>(
                Pool { pool_id: id, name, token, total_balance: 0, subscriber_count: 0 },
            )
        }),
{
}

/// An enrollment below the minimum amount is rejected with BelowMinimum and
/// changes nothing: no subscription is written and no count moves.
pub proof fn lemma_subscribe_below_minimum(
    l: LedgerModel,
    pool_id: u64,
    subscriber: u64,
    amount: i128,
    period: SubscriptionPeriod,
    now: u64,
)
    requires
        amount < MIN_SUBSCRIPTION,
    ensures
        l.subscribe_t(pool_id, subscriber, amount, period, now).0 == l,
        l.subscribe_t(pool_id, subscriber, amount, period, now).1 == Err::<(), Error>(
            Error::BelowMinimum,
        ),
{
}

/// Processing strictly before `last_payment + period` is rejected with
/// PeriodNotElapsed and leaves every balance and `last_payment` unchanged.
pub proof fn lemma_process_deposits_period_not_elapsed(
    l: LedgerModel,
    pool_id: u64,
    subscriber: u64,
    now: u64,
)
    requires
        l.subs.dom().contains((pool_id, subscriber)),
        l.pools.dom().contains(pool_id),
        now < l.subs[(pool_id, subscriber)].last_payment + l.subs[
            (pool_id, subscriber)
        ].period.seconds_spec(),
    ensures
        l.process_deposits_t(pool_id, subscriber, now).0 == l,
        l.process_deposits_t(pool_id, subscriber, now).1 == Err::<(), Error>(
            Error::PeriodNotElapsed,
        ),
{
}

/// A withdrawal of any positive amount from a pool with zero balance is
/// rejected with InsufficientBalance and leaves the balance unchanged.
pub proof fn lemma_withdraw_insufficient_balance(l: LedgerModel, pool_id: u64, amount: i128)
    requires
        l.pools.dom().contains(pool_id),
        l.pools[pool_id].total_balance == 0,
        amount > 0,
    ensures
        l.withdraw_t(pool_id, amount).0 == l,
        l.withdraw_t(pool_id, amount).1 == Err::<(), Error>(Error::InsufficientBalance),
{
}

/// No double credit: when a processing succeeds at `now`, any second call
/// before the next threshold `now + period` is rejected and changes nothing,
/// so consecutive calls without an intervening period elapse credit the pool
/// exactly once.
pub proof fn lemma_no_double_credit(
    l: LedgerModel,
    pool_id: u64,
    subscriber: u64,
    now: u64,
    now2: u64,
)
    requires
        l.wf(),
        l.subs.dom().contains((pool_id, subscriber)),
        now >= l.subs[(pool_id, subscriber)].last_payment + l.subs[
            (pool_id, subscriber)
        ].period.seconds_spec(),
        l.pools[pool_id].total_balance + l.subs[(pool_id, subscriber)].amount <= i128::MAX,
        now2 < now + l.subs[(pool_id, subscriber)].period.seconds_spec(),
    ensures
        ({
            let (l1, r1) = l.process_deposits_t(pool_id, subscriber, now);
            let (l2, r2) = l1.process_deposits_t(pool_id, subscriber, now2);
            &&& r1 == Ok::<(), Error>(())
            &&& l1.pools[pool_id].total_balance == l.pools[pool_id].total_balance + l.subs[
                (pool_id, subscriber)
            ].amount
            &&& r2 == Err::<(), Error>(Error::PeriodNotElapsed)
            &&& l2 == l1
        }),
{
    assert(l.pools.dom().contains(pool_id));
}

/// An enrollment is read back exactly as stored: after a successful
/// subscribe, the subscription under (pool_id, subscriber) carries the given
/// amount, period and subscriber with `last_payment = now`, and the pool's
/// subscriber count has moved up by one.
pub proof fn lemma_subscribe_round_trip(
    l: LedgerModel,
    pool_id: u64,
    subscriber: u64,
    amount: i128,
    period: SubscriptionPeriod,
    now: u64,
)
    requires
        amount >= MIN_SUBSCRIPTION,
        l.pools.dom().contains(pool_id),
    ensures
        ({
            let (l1, r) = l.subscribe_t(pool_id, subscriber, amount, period, now);
            &&& r == Ok::<(), Error>(())
            &&& l1.get_subscription_t(pool_id, subscriber) == Ok::<Subscription, Error>(
                Subscription { subscriber, pool_id, amount, period, last_payment: now },
            )
            &&& l1.pools[pool_id].subscriber_count == ((l.pools[pool_id].subscriber_count
                + 1) as u32)
            &&& l1.pool_count == l.pool_count
        }),
{
}

} // verus!
