use vstd::prelude::*;

verus! {

/// InitConnect: the handshake that opens a session.
pub const INIT_CONNECT: u32 = 1001;

/// KeepAlive: the heartbeat.
pub const KEEP_ALIVE: u32 = 1004;

/// Qot_Sub: subscribe to or unsubscribe from quote feeds.
pub const QOT_SUB: u32 = 3001;

/// Qot_UpdateTicker: the push of trade prints.
pub const QOT_UPDATE_TICKER: u32 = 3011;

/// Qot_GetMarketState: the state of the markets of some securities.
pub const QOT_GET_MARKET_STATE: u32 = 3223;

} // verus!
