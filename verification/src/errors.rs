//! The library's errors.
use vstd::prelude::*;

verus! {

/// Why a reply of OpenD was refused.
pub enum ProtocolError {
    /// InitConnect came back with a nonzero `ret_type`.
    InitConnectFailed { ret_msg: Option<String> },
    /// InitConnect came back without its server part.
    InitConnectMissingS2c,
    /// Sub came back with a nonzero `ret_type`.
    SubFailed { ret_msg: Option<String> },
    /// GetMarketState came back with a nonzero `ret_type`.
    MarketStateFailed { ret_msg: Option<String> },
    /// GetMarketState came back without its server part.
    MarketStateMissingS2c,
}

/// The system clock read earlier than the Unix epoch.
pub enum ClockError {
    BeforeUnixEpoch,
}

} // verus!
