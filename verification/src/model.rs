use vstd::prelude::*;

use crate::types::Error;
use crate::types::SubscriptionPeriod;
use crate::types::MIN_SUBSCRIPTION;

verus! {

/// A named collective account accruing subscriber deposits in one asset.
#[derive(Debug, PartialEq, Eq)]
pub struct Pool {
    pub pool_id: u64,
    pub name: String,
    pub token: u64,
    pub total_balance: i128,
    pub subscriber_count: u32,
}

/// A recurring-deposit commitment by one subscriber to one pool.
#[derive(Clone, Copy, Debug, PartialEq, Eq)]
pub struct Subscription {
    pub subscriber: u64,
    pub pool_id: u64,
    pub amount: i128,
    pub period: SubscriptionPeriod,
    pub last_payment: u64,
}

impl Pool {
    /// The pool after one more successful enrollment.
    pub open spec fn with_enrollment(self) -> Pool {
        Pool { subscriber_count: (self.subscriber_count + 1) as u32, ..self }
    }

    /// The pool after a deposit of `amount` is credited.
    pub open spec fn credited(self, amount: i128) -> Pool {
        Pool { total_balance: (self.total_balance + amount) as i128, ..self }
    }

    /// The pool after a withdrawal of `amount` is debited.
    pub open spec fn debited(self, amount: i128) -> Pool {
        Pool { total_balance: (self.total_balance - amount) as i128, ..self }
    }
}

impl Subscription {
    /// Whether a full period has elapsed at `now`: the boundary instant
    /// itself suffices, only strictly earlier instants are rejected.
    pub open spec fn period_elapsed(self, now: u64) -> bool {
        now >= self.last_payment + self.period.seconds_spec()
    }

    /// The subscription after a deposit processed at `now`.
    pub open spec fn paid_at(self, now: u64) -> Subscription {
        Subscription { last_payment: now, ..self }
    }
}

/// What creating a pool computes from the current counter: the next
/// sequential id and the new pool record with zero balance and subscribers.
pub open spec fn create_pool_step_t(count: u64, name: String, token: u64) -> (u64, Pool) {
    let id = (count + 1) as u64;
    (id, Pool { pool_id: id, name, token, total_balance: 0, subscriber_count: 0 })
}

/// What enrollment computes from a loaded pool record: rejected below the
/// minimum amount, otherwise the counted pool and the new subscription
/// anchored at `now`.
pub open spec fn subscribe_step_t(
    pool: Pool,
    subscriber: u64,
    amount: i128,
    period: SubscriptionPeriod,
    now: u64,
) -> Result<(Pool, Subscription), Error> {
    if amount < MIN_SUBSCRIPTION {
        Err(Error::BelowMinimum)
    } else {
        Ok(
            (
                pool.with_enrollment(),
                Subscription {
                    subscriber,
                    pool_id: pool.pool_id,
                    amount,
                    period,
                    last_payment: now,
                },
            ),
        )
    }
}

/// What deposit processing computes from the loaded records: rejected while
/// the period has not elapsed at `now`, otherwise the credited pool and the
/// subscription advanced to `now`.
pub open spec fn process_deposits_step_t(pool: Pool, sub: Subscription, now: u64) -> Result<
    (Pool, Subscription),
    Error,
> {
    if !sub.period_elapsed(now) {
        Err(Error::PeriodNotElapsed)
    } else {
        Ok((pool.credited(sub.amount), sub.paid_at(now)))
    }
}

/// What a withdrawal computes from the loaded pool record: rejected when the
/// amount exceeds the balance, otherwise the debited pool.
pub open spec fn withdraw_step_t(pool: Pool, amount: i128) -> Result<Pool, Error> {
    if amount > pool.total_balance {
        Err(Error::InsufficientBalance)
    } else {
        Ok(pool.debited(amount))
    }
}

/// The mathematical state of the ledger: the highest assigned pool id, the
/// pools keyed by id, and the subscriptions keyed by (pool id, subscriber).
#[verifier::ext_equal]
pub ghost struct LedgerModel {
    pub pool_count: u64,
    pub pools: Map<u64, Pool>,
    pub subs: Map<(u64, u64), Subscription>,
}

impl LedgerModel {
    pub open spec fn empty() -> LedgerModel {
        LedgerModel { pool_count: 0, pools: Map::empty(), subs: Map::empty() }
    }

    /// Well-formedness: ids are exactly 1..=pool_count, every pool carries its
    /// own id and a non-negative balance, and every subscription sits under
    /// the key made of its own fields, refers to an existing pool, and
    /// commits at least the minimum amount.
    pub open spec fn wf(self) -> bool {
        &&& self.pools.dom() =~= Set::new(|id: u64| 1 <= id <= self.pool_count)
        &&& forall|id: u64|
            self.pools.dom().contains(id) ==> {
                &&& (#[trigger] self.pools[id]).pool_id == id
                &&& self.pools[id].total_balance >= 0
            }
        &&& forall|k: (u64, u64)|
            self.subs.dom().contains(k) ==> {
                &&& (#[trigger] self.subs[k]).pool_id == k.0
                &&& self.subs[k].subscriber == k.1
                &&& self.subs[k].amount >= MIN_SUBSCRIPTION
                &&& self.pools.dom().contains(k.0)
            }
    }

    /// Creating a pool assigns the next sequential id and stores a pool with
    /// the given name and token, zero balance and zero subscribers.
    pub open spec fn create_pool_t(self, name: String, token: u64) -> (LedgerModel, u64) {
        let (id, pool) = create_pool_step_t(self.pool_count, name, token);
        (
            LedgerModel {
                pool_count: id,
                pools: self.pools.insert(id, pool),
                subs: self.subs,
            },
            id,
        )
    }

    pub open spec fn get_pool_t(self, pool_id: u64) -> Result<Pool, Error> {
        if self.pools.dom().contains(pool_id) {
            Ok(self.pools[pool_id])
        } else {
            Err(Error::PoolNotFound)
        }
    }

    pub open spec fn get_subscription_t(self, pool_id: u64, subscriber: u64) -> Result<
        Subscription,
        Error,
    > {
        if self.subs.dom().contains((pool_id, subscriber)) {
            Ok(self.subs[(pool_id, subscriber)])
        } else {
            Err(Error::SubscriptionNotFound)
        }
    }

    /// Enrollment: rejected below the minimum amount or for an unknown pool;
    /// otherwise the subscription is written under (pool_id, subscriber) with
    /// `last_payment = now`, and the pool's subscriber count increments.
    /// Re-enrollment under an existing key overwrites the record and still
    /// increments the count.
    pub open spec fn subscribe_t(
        self,
        pool_id: u64,
        subscriber: u64,
        amount: i128,
        period: SubscriptionPeriod,
        now: u64,
    ) -> (LedgerModel, Result<(), Error>) {
        if amount < MIN_SUBSCRIPTION {
            (self, Err(Error::BelowMinimum))
        } else if !self.pools.dom().contains(pool_id) {
            (self, Err(Error::PoolNotFound))
        } else {
            let pool = self.pools[pool_id];
            let sub = Subscription { subscriber, pool_id, amount, period, last_payment: now };
            (
                LedgerModel {
                    pool_count: self.pool_count,
                    pools: self.pools.insert(pool_id, pool.with_enrollment()),
                    subs: self.subs.insert((pool_id, subscriber), sub),
                },
                Ok(()),
            )
        }
    }

    /// Deposit processing: rejected for an unknown subscription or pool, or
    /// when `now` has not reached `last_payment + period`; otherwise the pool
    /// is credited with the subscription's amount and `last_payment` advances
    /// to `now`.
    pub open spec fn process_deposits_t(self, pool_id: u64, subscriber: u64, now: u64) -> (
        LedgerModel,
        Result<(), Error>,
    ) {
        if !self.subs.dom().contains((pool_id, subscriber)) {
            (self, Err(Error::SubscriptionNotFound))
        } else if !self.pools.dom().contains(pool_id) {
            (self, Err(Error::PoolNotFound))
        } else {
            let sub = self.subs[(pool_id, subscriber)];
            let pool = self.pools[pool_id];
            match process_deposits_step_t(pool, sub, now) {
                Err(e) => (self, Err(e)),
                Ok((updated_pool, updated_sub)) => (
                    LedgerModel {
                        pool_count: self.pool_count,
                        pools: self.pools.insert(pool_id, updated_pool),
                        subs: self.subs.insert((pool_id, subscriber), updated_sub),
                    },
                    Ok(()),
                ),
            }
        }
    }

    /// Withdrawal: rejected for an unknown pool or when the amount exceeds
    /// the pool's balance; otherwise the balance is debited by the amount.
    pub open spec fn withdraw_t(self, pool_id: u64, amount: i128) -> (
        LedgerModel,
        Result<(), Error>,
    ) {
        if !self.pools.dom().contains(pool_id) {
            (self, Err(Error::PoolNotFound))
        } else {
            match withdraw_step_t(self.pools[pool_id], amount) {
                Err(e) => (self, Err(e)),
                Ok(updated) => (
                    LedgerModel {
                        pool_count: self.pool_count,
                        pools: self.pools.insert(pool_id, updated),
                        subs: self.subs,
                    },
                    Ok(()),
                ),
            }
        }
    }
}

impl Clone for Pool {
    fn clone(&self) -> (r: Self)
        ensures
            r == *self,
    {
        Pool {
            pool_id: self.pool_id,
            name: self.name.clone(),
            token: self.token,
            total_balance: self.total_balance,
            subscriber_count: self.subscriber_count,
        }
    }
}

} // verus!
