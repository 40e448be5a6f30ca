//! Proportional distribution of one transfer among up to ten registered
//! recipients, following a basis-point schedule kept per authority.

pub mod address;
pub mod config;
pub mod distribute;
pub mod error;
pub mod ledger;

pub use address::{incinerator, Address};
pub use config::{
    initialize, resolve, update_recipients, validate_schedule, Config, Initialize,
    UpdateRecipients, BASIS_POINTS, MAX_RECIPIENTS,
};
pub use distribute::{
    distribute_sol, distribute_spl_amount, shares_fit, try_distribute_sol,
    try_distribute_spl_amount, DistributeSol, DistributeSplAmount, Payout, TokenSlot, SLOT_COUNT,
};
pub use error::{AccountError, Error, ErrorCode};
