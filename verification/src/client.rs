//! The requests of the session handshake and of the heartbeat.
use std::time::{Duration, SystemTime, SystemTimeError};
use vstd::prelude::*;

use crate::errors::ClockError;
use crate::mods::init_connect::{C2s, Request};
use crate::mods::keep_alive;

verus! {

#[verifier::external_type_specification]
#[verifier::external_body]
pub struct ExSystemTime(SystemTime);

#[verifier::external_type_specification]
#[verifier::external_body]
pub struct ExSystemTimeError(SystemTimeError);

/// The InitConnect request of a client with the given version and id: it
/// asks for notifications, no encryption, protobuf pushes, and names Rust as
/// the programming language and the client as not an AI.
pub fn build_init_conn_req(client_ver: i32, client_id: String) -> (r: Request)
    ensures
        r.c2s.client_ver == client_ver,
        r.c2s.client_id@ == client_id@,
        r.c2s.recv_notify == Some(true),
        r.c2s.packet_enc_algo == Some(-1i32),
        r.c2s.push_proto_fmt == Some(0i32),
        r.c2s.programming_language.is_some(),
        r.c2s.programming_language.unwrap()@ == "Rust"@,
        r.c2s.ai_type == Some(0i32),
{
    let raw = C2s {
        client_ver,
        client_id,
        recv_notify: Some(true),
        packet_enc_algo: Some(-1),
        push_proto_fmt: Some(0),
        programming_language: Some("Rust".to_owned()),
        ai_type: Some(0),
    };
    Request { c2s: raw }
}

/// The KeepAlive request stamped with `time`, in seconds since the Unix
/// epoch.
pub fn keep_alive_request(time: i64) -> (r: keep_alive::Request)
    ensures
        r.c2s.time == time,
{
    keep_alive::Request { c2s: keep_alive::C2s { time } }
}

/// Calls `std::time::SystemTime::now`. Trusted; nothing is promised of the
/// reading, which depends on the clock.
#[verifier::external_body]
fn clock_now() -> SystemTime {
    SystemTime::now()
}

/// Calls `SystemTime::duration_since` with the Unix epoch. Trusted; it fails
/// for readings before the epoch, and nothing is promised of the result.
#[verifier::external_body]
fn since_unix_epoch(t: &SystemTime) -> Result<Duration, SystemTimeError> {
    t.duration_since(std::time::UNIX_EPOCH)
}

/// Calls `Duration::as_secs`. Trusted; nothing is stated of the result, as
/// `Duration` is opaque here.
#[verifier::external_body]
fn whole_secs(d: &Duration) -> u64 {
    d.as_secs()
}

/// The KeepAlive request for a clock reading: stamped with the reading's
/// whole seconds since the Unix epoch, reinterpreted as `i64`; the reading's
/// error when the clock read earlier than the epoch.
pub fn keep_alive_from_reading(reading: Result<u64, ClockError>) -> (r: Result<keep_alive::Request, ClockError>)
    ensures
        reading matches Ok(secs) ==> (r matches Ok(req) && req.c2s.time == secs as i64),
        reading matches Err(e) ==> (r matches Err(e2) && e2 == e),
{
    match reading {
        Ok(secs) => Ok(keep_alive_request(secs as i64)),
        Err(e) => Err(e),
    }
}

/// The KeepAlive request stamped with the current time in whole seconds
/// since the Unix epoch (reinterpreted as `i64`); fails if the clock reads
/// earlier than the epoch.
pub fn build_keep_alive_ereq() -> (r: Result<keep_alive::Request, ClockError>) {
    let now = clock_now();
    let reading = match since_unix_epoch(&now) {
        Ok(d) => Ok(whole_secs(&d)),
        Err(_) => Err(ClockError::BeforeUnixEpoch),
    };
    keep_alive_from_reading(reading)
}

} // verus!
