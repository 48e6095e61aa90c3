use moomoo_adaptor::config::{
    env_or_string, env_or_u64, env_or_u8, parse_i32, parse_securities, parse_u64, parse_u8, Config,
    securities_or_default, ConfigError, EnvVar, IntErrorKind,
};
use moomoo_adaptor::metrics::{QdbStats, ReconnectCounter};
use moomoo_adaptor::signals::{SideTracker, SignalSide, SlidingWindow, WINDOW};

#[test]
fn i32_parsing_follows_std() {
    for s in ["91", "-2147483648", "2147483647", "+5", "-0", "007", "-", "+", "", " 5", "5 ", "2147483648",
        "-2147483649", "99999999999x", "12x999999999", "1_0", "٣", "+-1", "--1"] {
        let expected = s.parse::<i32>().map_err(|e| e.kind().clone());
        let got = parse_i32(s);
        match (got, expected) {
            (Ok(a), Ok(b)) => assert_eq!(a, b, "{s}"),
            (Err(a), Err(b)) => assert_eq!(format!("{a:?}"), format!("{b:?}"), "{s}"),
            (a, b) => panic!("{s}: {a:?} vs {b:?}"),
        }
    }
}

#[test]
fn i32_parsing_kinds() {
    assert_eq!(parse_i32("91"), Ok(91));
    assert_eq!(parse_i32("-2147483648"), Ok(i32::MIN));
    assert_eq!(parse_i32("2147483648"), Err(IntErrorKind::PosOverflow));
    assert_eq!(parse_i32("-2147483649"), Err(IntErrorKind::NegOverflow));
    assert_eq!(parse_i32(""), Err(IntErrorKind::Empty));
    assert_eq!(parse_i32("-"), Err(IntErrorKind::InvalidDigit));
    assert_eq!(parse_i32("99999999999x"), Err(IntErrorKind::PosOverflow));
    assert_eq!(parse_i32("12x999999999"), Err(IntErrorKind::InvalidDigit));
}

#[test]
fn unsigned_parsing_follows_std() {
    for s in ["0", "60", "+60", "-1", "-", "", "18446744073709551615", "18446744073709551616", "1e3", "255", "256"] {
        let e64 = s.parse::<u64>().map_err(|e| format!("{:?}", e.kind()));
        let g64 = parse_u64(s).map_err(|e| format!("{e:?}"));
        assert_eq!(g64, e64, "{s}");
        let e8 = s.parse::<u8>().map_err(|e| format!("{:?}", e.kind()));
        let g8 = parse_u8(s).map_err(|e| format!("{e:?}"));
        assert_eq!(g8, e8, "{s}");
    }
}

#[test]
fn unset_setting_falls_back_to_default() {
    assert!(matches!(env_or_u64("RETRY_MAX_BACKOFF_SECS", EnvVar::NotPresent, 60), Ok(60)));
    assert!(matches!(env_or_u8("RETRY_MAX_ATTEMPTS", EnvVar::NotPresent, 5), Ok(5)));
    match env_or_string("OPEND_ADDR", EnvVar::NotPresent, "127.0.0.1:11111".to_string()) {
        Ok(s) => assert_eq!(s, "127.0.0.1:11111"),
        Err(_) => panic!("expected the default"),
    }
}

#[test]
fn set_setting_is_parsed() {
    assert!(matches!(env_or_u64("RETRY_MAX_BACKOFF_SECS", EnvVar::Present("120".to_string()), 60), Ok(120)));
    assert!(matches!(env_or_u8("RETRY_MAX_ATTEMPTS", EnvVar::Present("0".to_string()), 5), Ok(0)));
    match env_or_string("OPEND_ADDR", EnvVar::Present("10.0.0.1:1".to_string()), "x".to_string()) {
        Ok(s) => assert_eq!(s, "10.0.0.1:1"),
        Err(_) => panic!("expected the value"),
    }
}

#[test]
fn set_but_unparsable_setting_is_an_error() {
    match env_or_u64("RETRY_MAX_BACKOFF_SECS", EnvVar::Present("sixty".to_string()), 60) {
        Err(ConfigError::InvalidValue { key, reason }) => {
            assert_eq!(key, "RETRY_MAX_BACKOFF_SECS");
            assert_eq!(reason, IntErrorKind::InvalidDigit);
        },
        _ => panic!("expected InvalidValue"),
    }
    match env_or_u8("RETRY_MAX_ATTEMPTS", EnvVar::Present("300".to_string()), 5) {
        Err(ConfigError::InvalidValue { key, reason }) => {
            assert_eq!(key, "RETRY_MAX_ATTEMPTS");
            assert_eq!(reason, IntErrorKind::PosOverflow);
        },
        _ => panic!("expected InvalidValue"),
    }
    match env_or_u64("K", EnvVar::Present(String::new()), 1) {
        Err(ConfigError::InvalidValue { reason, .. }) => assert_eq!(reason, IntErrorKind::Empty),
        _ => panic!("expected InvalidValue"),
    }
}

#[test]
fn unreadable_setting_is_an_error() {
    match env_or_u64("K", EnvVar::NotUnicode, 1) {
        Err(ConfigError::UnreadableVar { key }) => assert_eq!(key, "K"),
        _ => panic!("expected UnreadableVar"),
    }
    assert!(matches!(env_or_string("K", EnvVar::NotUnicode, String::new()), Err(ConfigError::UnreadableVar { .. })));
}

fn pairs(r: Result<Vec<moomoo_adaptor::mods::qot_common::Security>, ConfigError>) -> Vec<(i32, String)> {
    match r {
        Ok(v) => v.into_iter().map(|s| (s.market, s.code)).collect(),
        Err(_) => panic!("expected securities"),
    }
}

#[test]
fn securities_list_parses_in_order() {
    assert_eq!(pairs(parse_securities("91:BTC,11:AAPL")), vec![(91, "BTC".to_string()), (11, "AAPL".to_string())]);
    assert_eq!(pairs(parse_securities("11:A:B")), vec![(11, "A:B".to_string())]);
    assert_eq!(pairs(parse_securities("11:")), vec![(11, String::new())]);
    assert_eq!(pairs(parse_securities("1:腾讯")), vec![(1, "腾讯".to_string())]);
}

#[test]
fn securities_entry_without_colon_is_an_error() {
    match parse_securities("BTC") {
        Err(ConfigError::InvalidSecurity { entry }) => assert_eq!(entry, "BTC"),
        _ => panic!("expected InvalidSecurity"),
    }
    match parse_securities("91:BTC,") {
        Err(ConfigError::InvalidSecurity { entry }) => assert_eq!(entry, ""),
        _ => panic!("expected InvalidSecurity"),
    }
    match parse_securities("") {
        Err(ConfigError::InvalidSecurity { entry }) => assert_eq!(entry, ""),
        _ => panic!("expected InvalidSecurity"),
    }
}

#[test]
fn securities_entry_with_bad_market_is_an_error() {
    match parse_securities("91:BTC,us:AAPL,x") {
        Err(ConfigError::InvalidMarket { entry, reason }) => {
            assert_eq!(entry, "us:AAPL");
            assert_eq!(reason, IntErrorKind::InvalidDigit);
        },
        _ => panic!("expected InvalidMarket"),
    }
    match parse_securities(" 91:BTC") {
        Err(ConfigError::InvalidMarket { entry, .. }) => assert_eq!(entry, " 91:BTC"),
        _ => panic!("expected InvalidMarket"),
    }
}

#[test]
fn securities_default_to_bitcoin() {
    assert_eq!(pairs(securities_or_default(EnvVar::NotPresent)), vec![(91, "BTC".to_string())]);
    assert_eq!(pairs(securities_or_default(EnvVar::Present("11:AAPL".to_string()))), vec![(11, "AAPL".to_string())]);
    assert!(matches!(securities_or_default(EnvVar::NotUnicode), Err(ConfigError::UnreadableSecurities)));
}

#[test]
fn reconnect_counter_counts_and_resets() {
    let mut c = ReconnectCounter::default();
    assert_eq!(c.take(), 0);
    c.bump();
    c.bump();
    c.bump();
    assert_eq!(c.take(), 3);
    assert_eq!(c.take(), 0);
    c.bump();
    assert_eq!(c.take(), 1);
}

#[test]
fn qdb_stats_start_at_zero() {
    let s = QdbStats::default();
    assert_eq!(s.last_flush_micros, 0);
    assert_eq!(s.rows_flushed, 0);
}

#[test]
fn window_keeps_the_latest_values() {
    let mut w: SlidingWindow<u32> = SlidingWindow::new();
    for x in 0..(WINDOW as u32 - 1) {
        w.push(x);
        assert!(!w.is_full());
    }
    w.push(100);
    assert!(w.is_full());
    assert_eq!(w.len(), WINDOW);
    w.push(101);
    w.push(102);
    assert_eq!(w.len(), WINDOW);
    let items: Vec<u32> = w.items().iter().copied().collect();
    let mut expected: Vec<u32> = (2..(WINDOW as u32 - 1)).collect();
    expected.extend([100, 101, 102]);
    assert_eq!(items, expected);
}

#[test]
fn signal_goes_out_only_when_the_side_changes() {
    let mut t = SideTracker::new();
    assert!(t.observe(SignalSide::Buy));
    assert!(!t.observe(SignalSide::Buy));
    assert!(t.observe(SignalSide::Sell));
    assert!(!t.observe(SignalSide::Sell));
    assert!(t.observe(SignalSide::Buy));
    assert_eq!(SignalSide::Buy.label(), "BUY");
    assert_eq!(SignalSide::Sell.label(), "SELL");
}

#[test]
fn settings_from_unset_variables_are_the_defaults() {
    let c = match Config::from_vars(
        EnvVar::NotPresent,
        EnvVar::NotPresent,
        EnvVar::NotPresent,
        EnvVar::NotPresent,
        EnvVar::NotPresent,
        EnvVar::NotPresent,
        EnvVar::NotPresent,
    ) {
        Ok(c) => c,
        Err(_) => panic!("expected the defaults"),
    };
    assert_eq!(c.opend_addr, "127.0.0.1:11111");
    assert_eq!(c.questdb_conf, "http::addr=localhost:9000;");
    assert_eq!(c.initial_backoff, 1);
    assert_eq!(c.max_backoff, 60);
    assert_eq!(c.max_retries, 5);
    assert_eq!(c.healthy_threshold, 30);
    assert_eq!(c.securities.len(), 1);
    assert_eq!(c.securities[0].market, 91);
    assert_eq!(c.securities[0].code, "BTC");
}

#[test]
fn settings_from_set_variables_are_parsed() {
    let p = |s: &str| EnvVar::Present(s.to_string());
    let c = match Config::from_vars(
        p("10.0.0.2:11111"),
        p("http::addr=db:9000;"),
        p("2"),
        p("120"),
        p("7"),
        p("45"),
        p("91:BTC,11:AAPL"),
    ) {
        Ok(c) => c,
        Err(_) => panic!("expected settings"),
    };
    assert_eq!(c.opend_addr, "10.0.0.2:11111");
    assert_eq!(c.questdb_conf, "http::addr=db:9000;");
    assert_eq!((c.initial_backoff, c.max_backoff, c.max_retries, c.healthy_threshold), (2, 120, 7, 45));
    assert_eq!(c.securities.len(), 2);
    assert_eq!(c.securities[1].code, "AAPL");
}

#[test]
fn settings_report_the_first_bad_variable() {
    let p = |s: &str| EnvVar::Present(s.to_string());
    match Config::from_vars(
        EnvVar::NotPresent,
        EnvVar::NotPresent,
        p("1"),
        p("ten"),
        p("999"),
        EnvVar::NotPresent,
        p("bad"),
    ) {
        Err(ConfigError::InvalidValue { key, reason }) => {
            assert_eq!(key, "RETRY_MAX_BACKOFF_SECS");
            assert_eq!(reason, IntErrorKind::InvalidDigit);
        },
        _ => panic!("expected the max backoff error"),
    }
    match Config::from_vars(
        EnvVar::NotPresent,
        EnvVar::NotPresent,
        EnvVar::NotPresent,
        EnvVar::NotPresent,
        EnvVar::NotPresent,
        EnvVar::NotPresent,
        p("bad"),
    ) {
        Err(ConfigError::InvalidSecurity { entry }) => assert_eq!(entry, "bad"),
        _ => panic!("expected the securities error"),
    }
    assert!(matches!(
        Config::from_vars(
            EnvVar::NotUnicode,
            p("x"),
            p("y"),
            EnvVar::NotPresent,
            EnvVar::NotPresent,
            EnvVar::NotPresent,
            EnvVar::NotPresent,
        ),
        Err(ConfigError::UnreadableVar { .. })
    ));
}
