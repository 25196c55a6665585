use vstd::prelude::*;

verus! {

/// Smallest recurring amount a subscriber may commit, in minor units.
pub const MIN_SUBSCRIPTION: i128 = 100_000_000;

/// Cadence at which a subscription may be processed.
#[derive(Clone, Copy, Debug, Eq, PartialEq)]
pub enum SubscriptionPeriod {
    Weekly,
    Monthly,
    Quarterly,
}

impl SubscriptionPeriod {
    /// Length of one period in seconds.
    pub open spec fn seconds_spec(self) -> u64 {
        match self {
            SubscriptionPeriod::Weekly => 604800,
            SubscriptionPeriod::Monthly => 2592000,
            SubscriptionPeriod::Quarterly => 7776000,
        }
    }

    pub fn seconds(&self) -> (r: u64)
        ensures
            r == self.seconds_spec(),
    {
        match self {
            SubscriptionPeriod::Weekly => 604800,
            SubscriptionPeriod::Monthly => 2592000,
            SubscriptionPeriod::Quarterly => 7776000,
        }
    }
}

/// Reasons an operation is rejected; every rejection leaves the ledger unchanged.
#[derive(Copy, Clone, Debug, Eq, PartialEq, PartialOrd, Ord)]
pub enum Error {
    BelowMinimum,
    InsufficientBalance,
    PeriodNotElapsed,
    PoolNotFound,
    SubscriptionNotFound,
}

} // verus!
