use vstd::prelude::*;

use crate::errors::ProtocolError;
use crate::mods::qot_common::Security;
use crate::mods::qot_get_market_state::{C2s, MarketInfo, Request, Response};

verus! {

/// The GetMarketState request for the one security `security`.
pub fn build_market_state_request(security: Security) -> (r: Request)
    ensures
        r.c2s.security_list@ == seq![security],
{
    let mut security_list: Vec<Security> = Vec::new();
    security_list.push(security);
    Request { c2s: C2s { security_list } }
}

/// The market states in a GetMarketState reply: an error if the reply
/// reports failure (nonzero `ret_type`) or lacks its server part.
pub fn parse_market_state_response(resp: Response) -> (r: Result<Vec<MarketInfo>, ProtocolError>)
    ensures
        resp.ret_type != 0 ==> r == Err::<Vec<MarketInfo>, ProtocolError>(
            ProtocolError::MarketStateFailed { ret_msg: resp.ret_msg },
        ),
        resp.ret_type == 0 && resp.s2c.is_none() ==> (r matches Err(
            ProtocolError::MarketStateMissingS2c,
        )),
        resp.ret_type == 0 && resp.s2c.is_some() ==> (r matches Ok(list) && list@
            == resp.s2c.unwrap().market_info_list@),
{
    if resp.ret_type != 0 {
        return Err(ProtocolError::MarketStateFailed { ret_msg: resp.ret_msg });
    }
    match resp.s2c {
        Some(s2c) => Ok(s2c.market_info_list),
        None => Err(ProtocolError::MarketStateMissingS2c),
    }
}

} // verus!
