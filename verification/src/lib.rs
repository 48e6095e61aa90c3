//! A client library for the moomoo OpenD wire protocol: frame layout, the
//! request and reply messages the client exchanges with OpenD, the reconnect
//! policy of a ticker stream, configuration parsing, and the small pieces of
//! signal bookkeeping that run on top of the trade tape.

mod bytes_util;
pub mod frame;
pub mod mods;
pub mod model;
pub mod engine;
pub mod errors;
pub mod client;
pub mod live_subscriber;
pub mod market_state_querier;
pub mod metrics;
pub mod signals;
pub mod config;
