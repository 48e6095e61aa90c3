use vstd::prelude::*;

use crate::mods::qot_common::Security;

verus! {

/// Client-to-server part of the Sub request.
pub struct C2s {
    pub security_list: Vec<Security>,
    pub sub_type_list: Vec<i32>,
    pub is_sub_or_un_sub: bool,
    pub is_reg_or_un_reg_push: Option<bool>,
    pub reg_push_rehab_type_list: Vec<i32>,
    pub is_first_push: Option<bool>,
    pub is_unsub_all: Option<bool>,
    pub is_sub_order_book_detail: Option<bool>,
    pub extended_time: Option<bool>,
    pub session: Option<i32>,
}

/// The Sub request.
pub struct Request {
    pub c2s: C2s,
}

/// The Sub reply.
pub struct Response {
    pub ret_type: i32,
    pub ret_msg: Option<String>,
    pub err_code: Option<i32>,
}

} // verus!
