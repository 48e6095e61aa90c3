use moomoo_adaptor::engine::{
    accept_init_connect, accept_sub_response, classify_push, tick_rows, Backoff, PushKind, RetryDecision,
    SeqCounter, TradeSide,
};
use moomoo_adaptor::errors::ProtocolError;
use moomoo_adaptor::mods::qot_common::{Security, Ticker};
use moomoo_adaptor::mods::{init_connect, qot_sub, qot_update_ticker};

#[test]
fn serial_numbers_start_at_one_and_count_up() {
    let mut c = SeqCounter::new();
    assert_eq!(c.get_seq_no(), 1);
    assert_eq!(c.get_seq_no(), 2);
    assert_eq!(c.get_seq_no(), 3);
}

#[test]
fn serial_numbers_wrap_around() {
    let mut c = SeqCounter { next: u32::MAX };
    assert_eq!(c.get_seq_no(), u32::MAX);
    assert_eq!(c.get_seq_no(), 0);
    assert_eq!(c.get_seq_no(), 1);
}

fn s2c(interval: i32) -> init_connect::S2c {
    init_connect::S2c {
        server_ver: 1,
        login_user_id: 2,
        conn_id: 123456789,
        conn_aes_key: String::new(),
        keep_alive_interval: interval,
        aes_cb_civ: None,
        user_attribution: None,
    }
}

#[test]
fn init_connect_success_gives_server_part() {
    let resp = init_connect::Response { ret_type: 0, ret_msg: None, err_code: None, s2c: Some(s2c(10)) };
    let s = accept_init_connect(resp).ok().unwrap();
    assert_eq!(s.conn_id, 123456789);
    assert_eq!(s.keep_alive_interval, 10);
}

#[test]
fn init_connect_failure_is_an_error() {
    let resp = init_connect::Response {
        ret_type: -1,
        ret_msg: Some("not logged in".to_string()),
        err_code: None,
        s2c: Some(s2c(10)),
    };
    match accept_init_connect(resp) {
        Err(ProtocolError::InitConnectFailed { ret_msg }) => assert_eq!(ret_msg.as_deref(), Some("not logged in")),
        _ => panic!("expected InitConnectFailed"),
    }
}

#[test]
fn init_connect_without_s2c_is_an_error() {
    let resp = init_connect::Response { ret_type: 0, ret_msg: None, err_code: None, s2c: None };
    assert!(matches!(accept_init_connect(resp), Err(ProtocolError::InitConnectMissingS2c)));
}

#[test]
fn sub_reply_is_checked() {
    let ok = qot_sub::Response { ret_type: 0, ret_msg: None, err_code: None };
    assert!(accept_sub_response(ok).is_ok());
    let bad = qot_sub::Response { ret_type: -1, ret_msg: Some("quota".to_string()), err_code: Some(7) };
    match accept_sub_response(bad) {
        Err(ProtocolError::SubFailed { ret_msg }) => assert_eq!(ret_msg.as_deref(), Some("quota")),
        _ => panic!("expected SubFailed"),
    }
}

#[test]
fn pushes_are_sorted_by_proto_id() {
    assert!(matches!(classify_push(1004), PushKind::KeepAliveReply));
    assert!(matches!(classify_push(3011), PushKind::Ticker));
    assert!(matches!(classify_push(3005), PushKind::Unhandled));
    assert!(matches!(classify_push(0), PushKind::Unhandled));
}

#[test]
fn direction_codes_map_to_sides() {
    assert_eq!(TradeSide::from_dir(1), TradeSide::Buy);
    assert_eq!(TradeSide::from_dir(2), TradeSide::Sell);
    assert_eq!(TradeSide::from_dir(3), TradeSide::Neutral);
    assert_eq!(TradeSide::from_dir(0), TradeSide::Unknown);
    assert_eq!(TradeSide::from_dir(4), TradeSide::Unknown);
    assert_eq!(TradeSide::Buy.label(), "BUY");
    assert_eq!(TradeSide::Sell.label(), "SELL");
    assert_eq!(TradeSide::Neutral.label(), "NEUTRAL");
    assert_eq!(TradeSide::Unknown.label(), "UNKNOWN");
}

fn ticker(seq: i64, dir: i32, price: f64, volume: i64, recv: Option<f64>) -> Ticker {
    Ticker {
        time: String::new(),
        sequence: seq,
        dir,
        price_bits: price.to_bits(),
        volume,
        turnover_bits: 0,
        recv_time_bits: recv.map(f64::to_bits),
    }
}

#[test]
fn ticker_push_becomes_one_row_per_print() {
    let push = qot_update_ticker::Response {
        ret_type: 0,
        ret_msg: None,
        err_code: None,
        s2c: Some(qot_update_ticker::S2c {
            security: Security { market: 11, code: "AAPL".to_string() },
            ticker_list: vec![ticker(48213, 1, 213.5, 100, Some(1.5)), ticker(48214, 2, 213.48, 200, None)],
        }),
    };
    let rows = tick_rows(&push);
    assert_eq!(rows.len(), 2);
    assert_eq!(rows[0].symbol, "AAPL");
    assert_eq!(rows[0].side, TradeSide::Buy);
    assert_eq!(f64::from_bits(rows[0].price_bits), 213.5);
    assert_eq!(rows[0].volume, 100);
    assert_eq!(rows[0].sequence, 48213);
    assert_eq!(rows[0].recv_time_bits.map(f64::from_bits), Some(1.5));
    assert_eq!(rows[1].side, TradeSide::Sell);
    assert_eq!(rows[1].sequence, 48214);
    assert_eq!(rows[1].recv_time_bits, None);
}

#[test]
fn ticker_push_without_s2c_gives_no_rows() {
    let push = qot_update_ticker::Response { ret_type: 0, ret_msg: None, err_code: None, s2c: None };
    assert!(tick_rows(&push).is_empty());
}

fn sleep_of(d: RetryDecision) -> Option<u64> {
    match d {
        RetryDecision::GiveUp => None,
        RetryDecision::RetryAfter { backoff_secs } => Some(backoff_secs),
    }
}

#[test]
fn quick_failures_double_the_wait_then_give_up() {
    let mut b = Backoff::new(1, 60, 5, 30);
    let waits: Vec<Option<u64>> = (0..6).map(|_| sleep_of(b.on_failure(0))).collect();
    assert_eq!(waits, vec![Some(1), Some(2), Some(4), Some(8), Some(16), None]);
}

#[test]
fn wait_is_capped_after_the_first_retry() {
    let mut b = Backoff::new(40, 60, 10, 30);
    assert_eq!(sleep_of(b.on_failure(0)), Some(40));
    assert_eq!(sleep_of(b.on_failure(0)), Some(60));
    assert_eq!(sleep_of(b.on_failure(0)), Some(60));
    let mut c = Backoff::new(100, 60, 10, 30);
    assert_eq!(sleep_of(c.on_failure(0)), Some(100));
    assert_eq!(sleep_of(c.on_failure(0)), Some(60));
}

#[test]
fn healthy_session_resets_the_count_and_wait() {
    let mut b = Backoff::new(1, 60, 2, 30);
    assert_eq!(sleep_of(b.on_failure(0)), Some(1));
    assert_eq!(sleep_of(b.on_failure(29_999_999_999)), Some(2));
    // a session of exactly the threshold is healthy: the count starts over
    let mut c = Backoff { ..b };
    assert_eq!(sleep_of(c.on_failure(30_000_000_000)), Some(1));
    assert_eq!(c.consecutive_failures, 1);
    assert_eq!(sleep_of(c.on_failure(0)), Some(2));
    assert_eq!(sleep_of(c.on_failure(0)), None);
    // just under it is not: the third quick failure gives up
    assert_eq!(sleep_of(b.on_failure(29_999_999_999)), None);
}

#[test]
fn the_largest_attempt_limit_still_gives_up() {
    let mut b = Backoff::new(0, 0, 255, 30);
    for _ in 0..255 {
        assert!(b.can_record_failure(0));
        assert_eq!(sleep_of(b.on_failure(0)), Some(0));
    }
    assert_eq!(b.consecutive_failures, 255);
    assert!(b.can_record_failure(0));
    assert_eq!(sleep_of(b.on_failure(0)), None);
}

#[test]
fn zero_retries_gives_up_at_once() {
    let mut b = Backoff::new(1, 60, 0, 30);
    assert_eq!(sleep_of(b.on_failure(0)), None);
}

#[test]
fn failure_that_would_overflow_is_flagged() {
    let b = Backoff::new(u64::MAX, u64::MAX, 5, 30);
    assert!(!b.can_record_failure(0));
    let c = Backoff::new(u64::MAX, u64::MAX, 0, 30);
    assert!(c.can_record_failure(0));
    let d = Backoff::new(1, 60, 5, 30);
    assert!(d.can_record_failure(0));
}
