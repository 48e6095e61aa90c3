use vstd::prelude::*;

verus! {

/// Client-to-server part of the KeepAlive request.
pub struct C2s {
    /// Seconds since the Unix epoch.
    pub time: i64,
}

/// The KeepAlive request.
pub struct Request {
    pub c2s: C2s,
}

} // verus!
