use vstd::prelude::*;

use crate::mods::qot_common::Security;

verus! {

/// Client-to-server part of the GetMarketState request.
pub struct C2s {
    pub security_list: Vec<Security>,
}

/// The GetMarketState request.
pub struct Request {
    pub c2s: C2s,
}

/// The state of the market of one security.
pub struct MarketInfo {
    pub security: Security,
    pub name: String,
    pub market_state: i32,
}

/// Server-to-client part of the GetMarketState reply.
pub struct S2c {
    pub market_info_list: Vec<MarketInfo>,
}

/// The GetMarketState reply.
pub struct Response {
    pub ret_type: i32,
    pub ret_msg: Option<String>,
    pub err_code: Option<i32>,
    pub s2c: Option<S2c>,
}

} // verus!
