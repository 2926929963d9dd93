//! A capped-supply minting counter: one shared record tracks how many items
//! of each of seven fixed tiers have been issued against a fixed total
//! supply, enforces per-tier and global caps, and supports an irreversible
//! two-stage lockdown (freeze, then permanent finalization that revokes
//! administrative control).

pub mod codec;
pub mod config;
pub mod laws;
pub mod ops;
