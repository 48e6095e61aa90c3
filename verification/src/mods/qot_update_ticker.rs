use vstd::prelude::*;

use crate::mods::qot_common::{Security, Ticker};

verus! {

/// Server-to-client part of a ticker push.
pub struct S2c {
    pub security: Security,
    pub ticker_list: Vec<Ticker>,
}

/// A ticker push.
pub struct Response {
    pub ret_type: i32,
    pub ret_msg: Option<String>,
    pub err_code: Option<i32>,
    pub s2c: Option<S2c>,
}

} // verus!
