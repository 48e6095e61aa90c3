//! Subscribing to quote feeds.
pub mod subscribe;
