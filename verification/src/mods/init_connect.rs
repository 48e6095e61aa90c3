use vstd::prelude::*;

verus! {

/// Client-to-server part of the InitConnect request.
pub struct C2s {
    pub client_ver: i32,
    pub client_id: String,
    pub recv_notify: Option<bool>,
    pub packet_enc_algo: Option<i32>,
    pub push_proto_fmt: Option<i32>,
    pub programming_language: Option<String>,
    pub ai_type: Option<i32>,
}

/// The InitConnect request.
pub struct Request {
    pub c2s: C2s,
}

/// Server-to-client part of the InitConnect reply.
pub struct S2c {
    pub server_ver: i32,
    pub login_user_id: u64,
    pub conn_id: u64,
    pub conn_aes_key: String,
    pub keep_alive_interval: i32,
    pub aes_cb_civ: Option<String>,
    pub user_attribution: Option<i32>,
}

/// The InitConnect reply.
pub struct Response {
    pub ret_type: i32,
    pub ret_msg: Option<String>,
    pub err_code: Option<i32>,
    pub s2c: Option<S2c>,
}

} // verus!
