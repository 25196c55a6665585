use vstd::prelude::*;

use crate::model::LedgerModel;
use crate::model::Pool;
use crate::model::Subscription;
use crate::steps::create_pool_step;
use crate::steps::process_deposits_step;
use crate::steps::subscribe_step;
use crate::steps::withdraw_step;
use crate::types::Error;
use crate::types::SubscriptionPeriod;
use crate::types::MIN_SUBSCRIPTION;
use crate::views::lemma_pools_map_of_push;
use crate::views::lemma_pools_map_of_update;
use crate::views::lemma_subs_map_of_contains;
use crate::views::lemma_subs_map_of_index;
use crate::views::lemma_subs_map_of_push;
use crate::views::lemma_subs_map_of_update;
use crate::views::pools_map_of;
use crate::views::sub_key;
use crate::views::subs_map_of;
use crate::views::unique_keys;

verus! {

/// The ledger of pools and subscriptions. Pools sit at the slot given by
/// their id (slot i holds id i + 1), subscriptions in enrollment order with
/// unique (pool id, subscriber) keys.
pub struct SubscriptionPoolContract {
    pool_count: u64,
    pools: Vec<Pool>,
    subs: Vec<Subscription>,
}

impl View for SubscriptionPoolContract {
    type V = LedgerModel;

    closed spec fn view(&self) -> LedgerModel {
        LedgerModel {
            pool_count: self.pool_count,
            pools: pools_map_of(self.pools@),
            subs: subs_map_of(self.subs@),
        }
    }
}

impl SubscriptionPoolContract {
    /// Representation invariant of the ledger; every operation preserves it.
    pub closed spec fn inv(self) -> bool {
        &&& self.pool_count == self.pools@.len()
        &&& forall|i: int|
            0 <= i < self.pools@.len() ==> {
                &&& (#[trigger] self.pools@[i]).pool_id == i + 1
                &&& self.pools@[i].total_balance >= 0
            }
        &&& unique_keys(self.subs@)
        &&& forall|i: int|
            0 <= i < self.subs@.len() ==> {
                &&& 1 <= (#[trigger] self.subs@[i]).pool_id <= self.pools@.len()
                &&& self.subs@[i].amount >= MIN_SUBSCRIPTION
            }
    }

    /// Every ledger that satisfies the representation invariant presents a
    /// well-formed model: ids exactly 1..=pool_count, each pool under its
    /// own id with a non-negative balance, each subscription under the key
    /// made of its own fields, above the minimum amount, in an existing
    /// pool.
    pub proof fn lemma_inv_implies_wf(&self)
        requires
            self.inv(),
        ensures
            self@.wf(),
    {
        assert(self@.pools.dom() =~= Set::new(|id: u64| 1 <= id <= self@.pool_count));
        assert forall|k: (u64, u64)| self@.subs.dom().contains(k) implies {
            &&& (#[trigger] self@.subs[k]).pool_id == k.0
            &&& self@.subs[k].subscriber == k.1
            &&& self@.subs[k].amount >= MIN_SUBSCRIPTION
            &&& self@.pools.dom().contains(k.0)
        } by {
            lemma_subs_map_of_contains(self.subs@, k);
            let i = choose|i: int| 0 <= i < self.subs@.len() && sub_key(#[trigger] self.subs@[i])
                == k;
            lemma_subs_map_of_index(self.subs@, i);
        }
    }

    /// An empty ledger: no pools, no subscriptions, counter at zero.
    pub fn new() -> (r: SubscriptionPoolContract)
        ensures
            r.inv(),
            r@ == LedgerModel::empty(),
    {
        let r = SubscriptionPoolContract { pool_count: 0, pools: Vec::new(), subs: Vec::new() };
        proof {
            assert(r@.pools =~= Map::<u64, Pool>::empty());
            assert(r@ =~= LedgerModel::empty());
        }
        r
    }

    /// Index of the subscription under (pool_id, subscriber), if any.
    fn find_sub(&self, pool_id: u64, subscriber: u64) -> (r: Option<usize>)
        ensures
            match r {
                Some(i) => {
                    &&& i < self.subs@.len()
                    &&& self.subs@[i as int].pool_id == pool_id
                    &&& self.subs@[i as int].subscriber == subscriber
                },
                None => forall|j: int|
                    0 <= j < self.subs@.len() ==> sub_key(#[trigger] self.subs@[j]) != (
                    pool_id,
                    subscriber,
                    ),
            },
    {
        let mut i: usize = 0;
        while i < self.subs.len()
            invariant
                i <= self.subs@.len(),
                forall|j: int|
                    0 <= j < i ==> sub_key(#[trigger] self.subs@[j]) != (pool_id, subscriber),
            decreases self.subs@.len() - i,
        {
            if self.subs[i].pool_id == pool_id && self.subs[i].subscriber == subscriber {
                return Some(i);
            }
            i = i + 1;
        }
        None
    }

    /// Assigns the next sequential pool id, stores the new pool with zero
    /// balance and zero subscribers, and returns the id.
    pub fn create_pool(&mut self, name: String, token: u64) -> (r: u64)
        requires
            old(self).inv(),
            old(self)@.pool_count < u64::MAX,
        ensures
            final(self).inv(),
            final(self)@ == old(self)@.create_pool_t(name, token).0,
            r == old(self)@.create_pool_t(name, token).1,
    {
        let (id, pool) = create_pool_step(self.pool_count, name, token);
        self.pools.push(pool);
        self.pool_count = id;
        proof {
            lemma_pools_map_of_push(old(self).pools@, self.pools@.last());
            assert(self@ =~= old(self)@.create_pool_t(name, token).0);
        }
        id
    }

    /// Looks a pool up by id; PoolNotFound when the id was never assigned.
    pub fn get_pool(&self, pool_id: u64) -> (r: Result<Pool, Error>)
        requires
            self.inv(),
        ensures
            r == self@.get_pool_t(pool_id),
    {
        if 1 <= pool_id && pool_id <= self.pools.len() as u64 {
            Ok(self.pools[(pool_id - 1) as usize].clone())
        } else {
            Err(Error::PoolNotFound)
        }
    }

    /// Looks a subscription up by (pool id, subscriber);
    /// SubscriptionNotFound when none was ever enrolled under that key.
    pub fn get_subscription(&self, pool_id: u64, subscriber: u64) -> (r: Result<
        Subscription,
        Error,
    >)
        requires
            self.inv(),
        ensures
            r == self@.get_subscription_t(pool_id, subscriber),
    {
        proof {
            lemma_subs_map_of_contains(self.subs@, (pool_id, subscriber));
        }
        match self.find_sub(pool_id, subscriber) {
            Some(i) => {
                proof {
                    lemma_subs_map_of_index(self.subs@, i as int);
                }
                Ok(self.subs[i])
            },
            None => Err(Error::SubscriptionNotFound),
        }
    }

    /// Enrolls (or re-enrolls) a subscriber in a pool. Rejects amounts below
    /// the minimum and unknown pools; on success the subscription is stored
    /// with `last_payment = now` and the pool's subscriber count increments,
    /// also on re-enrollment under an existing key.
    pub fn subscribe(
        &mut self,
        pool_id: u64,
        subscriber: u64,
        amount: i128,
        period: SubscriptionPeriod,
        now: u64,
    ) -> (r: Result<(), Error>)
        requires
            old(self).inv(),
            old(self)@.pools.dom().contains(pool_id) ==> old(self)@.pools[pool_id].subscriber_count
                < u32::MAX,
        ensures
            final(self).inv(),
            final(self)@ == old(self)@.subscribe_t(pool_id, subscriber, amount, period, now).0,
            r == old(self)@.subscribe_t(pool_id, subscriber, amount, period, now).1,
    {
        if amount < MIN_SUBSCRIPTION {
            return Err(Error::BelowMinimum);
        }
        if !(1 <= pool_id && pool_id <= self.pools.len() as u64) {
            return Err(Error::PoolNotFound);
        }
        let idx = (pool_id - 1) as usize;
        let (pool, sub) = match subscribe_step(&self.pools[idx], subscriber, amount, period, now) {
            Ok(updated) => updated,
            Err(e) => {
                return Err(e);
            },
        };
        match self.find_sub(pool_id, subscriber) {
            Some(i) => {
                proof {
                    lemma_subs_map_of_update(self.subs@, i as int, sub);
                    assert(unique_keys(self.subs@.update(i as int, sub)));
                }
                self.subs[i] = sub;
            },
            None => {
                proof {
                    lemma_subs_map_of_push(self.subs@, sub);
                }
                self.subs.push(sub);
            },
        }
        self.pools[idx] = pool;
        proof {
            lemma_pools_map_of_update(old(self).pools@, idx as int, self.pools@[idx as int]);
            assert(self@ =~= old(self)@.subscribe_t(pool_id, subscriber, amount, period, now).0);
        }
        Ok(())
    }

    /// Advances one subscription's billing cycle: rejected while `now` is
    /// strictly before `last_payment + period`; on success the pool is
    /// credited with the subscription's amount and `last_payment` becomes
    /// `now`.
    pub fn process_deposits(&mut self, pool_id: u64, subscriber: u64, now: u64) -> (r: Result<
        (),
        Error,
    >)
        requires
            old(self).inv(),
            old(self)@.subs.dom().contains((pool_id, subscriber)) ==> old(self)@.subs[
                (pool_id, subscriber)
            ].last_payment + old(self)@.subs[(pool_id, subscriber)].period.seconds_spec()
                <= u64::MAX,
            (old(self)@.subs.dom().contains((pool_id, subscriber)) && old(self)@.pools.dom()
                .contains(pool_id)) ==> old(self)@.pools[pool_id].total_balance + old(self)@.subs[
                (pool_id, subscriber)
            ].amount <= i128::MAX,
        ensures
            final(self).inv(),
            final(self)@ == old(self)@.process_deposits_t(pool_id, subscriber, now).0,
            r == old(self)@.process_deposits_t(pool_id, subscriber, now).1,
    {
        proof {
            lemma_subs_map_of_contains(self.subs@, (pool_id, subscriber));
        }
        let i = match self.find_sub(pool_id, subscriber) {
            Some(i) => i,
            None => {
                return Err(Error::SubscriptionNotFound);
            },
        };
        proof {
            lemma_subs_map_of_index(self.subs@, i as int);
        }
        if !(1 <= pool_id && pool_id <= self.pools.len() as u64) {
            return Err(Error::PoolNotFound);
        }
        let idx = (pool_id - 1) as usize;
        let (pool, updated_sub) = match process_deposits_step(&self.pools[idx], &self.subs[i], now) {
            Ok(updated) => updated,
            Err(e) => {
                return Err(e);
            },
        };
        proof {
            lemma_subs_map_of_update(self.subs@, i as int, updated_sub);
            assert(unique_keys(self.subs@.update(i as int, updated_sub)));
        }
        self.subs[i] = updated_sub;
        self.pools[idx] = pool;
        proof {
            lemma_pools_map_of_update(old(self).pools@, idx as int, self.pools@[idx as int]);
            assert(self@ =~= old(self)@.process_deposits_t(pool_id, subscriber, now).0);
        }
        Ok(())
    }

    /// Debits the pool's balance by the amount; rejected for an unknown pool
    /// or when the amount exceeds the balance. The subscriber identifies the
    /// caller only; entitlement is not tracked per subscriber.
    pub fn withdraw(&mut self, pool_id: u64, subscriber: u64, amount: i128) -> (r: Result<
        (),
        Error,
    >)
        requires
            old(self).inv(),
            old(self)@.pools.dom().contains(pool_id) ==> old(self)@.pools[pool_id].total_balance
                - amount <= i128::MAX,
        ensures
            final(self).inv(),
            final(self)@ == old(self)@.withdraw_t(pool_id, amount).0,
            r == old(self)@.withdraw_t(pool_id, amount).1,
    {
        if !(1 <= pool_id && pool_id <= self.pools.len() as u64) {
            return Err(Error::PoolNotFound);
        }
        let idx = (pool_id - 1) as usize;
        let pool = match withdraw_step(&self.pools[idx], amount) {
            Ok(updated) => updated,
            Err(e) => {
                return Err(e);
            },
        };
        self.pools[idx] = pool;
        proof {
            lemma_pools_map_of_update(old(self).pools@, idx as int, self.pools@[idx as int]);
            assert(self@ =~= old(self)@.withdraw_t(pool_id, amount).0);
        }
        Ok(())
    }
}

} // verus!
