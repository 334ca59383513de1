//! Per-era staking payout under a decaying inflation schedule, with a one-time
//! catch-up mint to a fixed supply target and no issuance afterwards.

pub mod fraction;
pub mod payout;
