mod laws;
mod ledger;
mod model;
mod steps;
mod types;
mod views;

pub use laws::lemma_create_pool_ids_sequential;
pub use laws::lemma_create_pool_round_trip;
pub use laws::lemma_create_pool_t_preserves_wf;
pub use laws::lemma_no_double_credit;
pub use laws::lemma_process_deposits_period_not_elapsed;
pub use laws::lemma_process_deposits_t_preserves_wf;
pub use laws::lemma_subscribe_below_minimum;
pub use laws::lemma_subscribe_round_trip;
pub use laws::lemma_subscribe_t_preserves_wf;
pub use laws::lemma_withdraw_insufficient_balance;
pub use laws::lemma_withdraw_t_preserves_wf;
pub use ledger::SubscriptionPoolContract;
pub use model::create_pool_step_t;
pub use model::process_deposits_step_t;
pub use model::subscribe_step_t;
pub use model::withdraw_step_t;
pub use model::LedgerModel;
pub use model::Pool;
pub use model::Subscription;
pub use steps::create_pool_step;
pub use steps::process_deposits_step;
pub use steps::subscribe_step;
pub use steps::withdraw_step;
pub use types::Error;
pub use types::SubscriptionPeriod;
pub use types::MIN_SUBSCRIPTION;
