//! Asking for the state of a security's market.
pub mod market_state_querier;
