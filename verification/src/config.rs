//! Settings: their values, the parsing of the settings read from the
//! environment, and the defaults that stand in for unset ones. A setting that
//! is set but does not parse is an error rather than a silent fallback to its
//! default.
use vstd::prelude::*;
use vstd::string::*;

use crate::mods::qot_common::{Security, QOT_MARKET_CC_SECURITY};

verus! {

/// The settings of the adaptor. Durations are in whole seconds.
pub struct Config {
    pub opend_addr: String,
    pub questdb_conf: String,
    pub initial_backoff: u64,
    pub max_backoff: u64,
    pub max_retries: u8,
    pub healthy_threshold: u64,
    pub securities: Vec<Security>,
}

/// Default wait before the first reconnect, in seconds.
pub const DEFAULT_INITIAL_BACKOFF_SECS: u64 = 1;

/// Default cap on the reconnect wait, in seconds.
pub const DEFAULT_MAX_BACKOFF_SECS: u64 = 60;

/// Default number of consecutive failures tolerated.
pub const DEFAULT_MAX_RETRIES: u8 = 5;

/// Default time a session must stay up to count as healthy, in seconds.
pub const DEFAULT_HEALTHY_THRESHOLD_SECS: u64 = 30;

/// Default address of OpenD.
pub fn default_opend_addr() -> (s: String)
    ensures
        s@ == "127.0.0.1:11111"@,
{
    "127.0.0.1:11111".to_owned()
}

/// Default QuestDB client configuration string.
pub fn default_questdb_conf() -> (s: String)
    ensures
        s@ == "http::addr=localhost:9000;"@,
{
    "http::addr=localhost:9000;".to_owned()
}

/// Why a decimal integer did not parse; the same kinds as std's
/// `IntErrorKind`.
#[derive(Clone, Copy, PartialEq, Eq, Structural, Debug)]
pub enum IntErrorKind {
    Empty,
    InvalidDigit,
    PosOverflow,
    NegOverflow,
}

/// The outcome of reading an environment variable.
pub enum EnvVar {
    /// Set, to this value.
    Present(String),
    /// Not set.
    NotPresent,
    /// Set, but not to valid Unicode.
    NotUnicode,
}

/// Why the settings could not be read.
pub enum ConfigError {
    /// The variable `key` is set to a value that does not parse.
    InvalidValue { key: String, reason: IntErrorKind },
    /// The variable `key` could not be read.
    UnreadableVar { key: String },
    /// A securities entry without a ':'.
    InvalidSecurity { entry: String },
    /// A securities entry whose market is not an `i32`.
    InvalidMarket { entry: String, reason: IntErrorKind },
    /// The securities variable could not be read.
    UnreadableSecurities,
}

/// A `ConfigError` with its texts as character sequences.
pub enum ConfigErrorView {
    InvalidValue { key: Seq<char>, reason: IntErrorKind },
    UnreadableVar { key: Seq<char> },
    InvalidSecurity { entry: Seq<char> },
    InvalidMarket { entry: Seq<char>, reason: IntErrorKind },
    UnreadableSecurities,
}

impl View for ConfigError {
    type V = ConfigErrorView;

    open spec fn view(&self) -> ConfigErrorView {
        match self {
            ConfigError::InvalidValue { key, reason } => ConfigErrorView::InvalidValue {
                key: key@,
                reason: *reason,
            },
            ConfigError::UnreadableVar { key } => ConfigErrorView::UnreadableVar { key: key@ },
            ConfigError::InvalidSecurity { entry } => ConfigErrorView::InvalidSecurity { entry: entry@ },
            ConfigError::InvalidMarket { entry, reason } => ConfigErrorView::InvalidMarket {
                entry: entry@,
                reason: *reason,
            },
            ConfigError::UnreadableSecurities => ConfigErrorView::UnreadableSecurities,
        }
    }
}

/// The settings with texts as character sequences and each security as its
/// market and code.
pub struct ConfigView {
    pub opend_addr: Seq<char>,
    pub questdb_conf: Seq<char>,
    pub initial_backoff: u64,
    pub max_backoff: u64,
    pub max_retries: u8,
    pub healthy_threshold: u64,
    pub securities: Seq<(int, Seq<char>)>,
}

/// A list of securities as (market, code) pairs.
pub open spec fn spec_securities_view(v: Seq<Security>) -> Seq<(int, Seq<char>)> {
    v.map_values(|s: Security| (s.market as int, s.code@))
}

impl View for Config {
    type V = ConfigView;

    open spec fn view(&self) -> ConfigView {
        ConfigView {
            opend_addr: self.opend_addr@,
            questdb_conf: self.questdb_conf@,
            initial_backoff: self.initial_backoff,
            max_backoff: self.max_backoff,
            max_retries: self.max_retries,
            healthy_threshold: self.healthy_threshold,
            securities: spec_securities_view(self.securities@),
        }
    }
}

// ---------------------------------------------------------------------------
// Decimal integers
// ---------------------------------------------------------------------------

/// An ASCII decimal digit.
pub open spec fn spec_is_digit(c: char) -> bool {
    48 <= (c as u32) <= 57
}

/// The value of an ASCII decimal digit.
pub open spec fn spec_digit(c: char) -> int {
    (c as u32) - 48
}

/// Reading the first `n` characters of `ds` as decimal digits, left to
/// right, into a magnitude that may not exceed `bound`: the first non-digit
/// gives `InvalidDigit` and the first step past `bound` gives `overflow`,
/// whichever comes first.
pub open spec fn spec_scan_digits(ds: Seq<char>, n: nat, bound: int, overflow: IntErrorKind) -> Result<
    int,
    IntErrorKind,
>
    decreases n,
{
    if n == 0 {
        Ok(0)
    } else {
        match spec_scan_digits(ds, (n - 1) as nat, bound, overflow) {
            Err(k) => Err(k),
            Ok(v) => {
                if !spec_is_digit(ds[n - 1]) {
                    Err(IntErrorKind::InvalidDigit)
                } else if v * 10 + spec_digit(ds[n - 1]) > bound {
                    Err(overflow)
                } else {
                    Ok(v * 10 + spec_digit(ds[n - 1]))
                }
            },
        }
    }
}

/// What std's `from_str` gives for a decimal integer type whose largest
/// value is `max_pos` and, if `signed`, whose smallest is `-max_neg`: an
/// empty text is `Empty`, a lone sign is `InvalidDigit`, a leading '+' (or,
/// for signed types, '-') is allowed, and the digits are read left to right.
pub open spec fn spec_parse_int(s: Seq<char>, signed: bool, max_pos: int, max_neg: int) -> Result<
    int,
    IntErrorKind,
> {
    if s.len() == 0 {
        Err(IntErrorKind::Empty)
    } else if s.len() == 1 && (s[0] == '+' || s[0] == '-') {
        Err(IntErrorKind::InvalidDigit)
    } else if s[0] == '+' {
        spec_scan_digits(s.drop_first(), (s.len() - 1) as nat, max_pos, IntErrorKind::PosOverflow)
    } else if s[0] == '-' && signed {
        match spec_scan_digits(
            s.drop_first(),
            (s.len() - 1) as nat,
            max_neg,
            IntErrorKind::NegOverflow,
        ) {
            Ok(m) => Ok(-m),
            Err(k) => Err(k),
        }
    } else {
        spec_scan_digits(s, s.len(), max_pos, IntErrorKind::PosOverflow)
    }
}

/// Once the scan fails it stays failed with the same kind; while it
/// succeeds its value lies within `0..=bound`.
proof fn lemma_scan_digits(ds: Seq<char>, k: nat, n: nat, bound: int, overflow: IntErrorKind)
    requires
        k <= n,
        bound >= 0,
    ensures
        spec_scan_digits(ds, k, bound, overflow) is Err ==> spec_scan_digits(ds, n, bound, overflow)
            == spec_scan_digits(ds, k, bound, overflow),
        spec_scan_digits(ds, n, bound, overflow) matches Ok(v) ==> 0 <= v <= bound,
    decreases n,
{
    if n > k {
        lemma_scan_digits(ds, k, (n - 1) as nat, bound, overflow);
    } else if n > 0 {
        lemma_scan_digits(ds, (n - 1) as nat, (n - 1) as nat, bound, overflow);
    }
}

/// A parsed number lies within its type: from `-max_neg` (or 0 when
/// unsigned) up to `max_pos`.
proof fn lemma_parse_int_in_range(s: Seq<char>, signed: bool, max_pos: int, max_neg: int)
    requires
        max_pos >= 0,
        max_neg >= 0,
    ensures
        spec_parse_int(s, signed, max_pos, max_neg) matches Ok(n) ==> (if signed {
            -max_neg
        } else {
            0
        }) <= n <= max_pos,
{
    if s.len() > 0 {
        lemma_scan_digits(s.drop_first(), (s.len() - 1) as nat, (s.len() - 1) as nat, max_pos, IntErrorKind::PosOverflow);
        lemma_scan_digits(s.drop_first(), (s.len() - 1) as nat, (s.len() - 1) as nat, max_neg, IntErrorKind::NegOverflow);
        lemma_scan_digits(s, s.len(), s.len(), max_pos, IntErrorKind::PosOverflow);
    }
}

/// Reads the characters of `s` from `start` on as decimal digits.
fn scan_digits(s: &str, start: usize, bound: u64, overflow: IntErrorKind) -> (r: Result<u64, IntErrorKind>)
    requires
        start <= s@.len(),
    ensures
        spec_scan_digits(
            s@.subrange(start as int, s@.len() as int),
            (s@.len() - start) as nat,
            bound as int,
            overflow,
        ) == match r {
            Ok(v) => Ok::<int, IntErrorKind>(v as int),
            Err(k) => Err::<int, IntErrorKind>(k),
        },
{
    let n = s.unicode_len();
    let ghost ds = s@.subrange(start as int, n as int);
    let mut acc: u64 = 0;
    let mut i: usize = start;
    while i < n
        invariant
            start <= i <= n,
            n == s@.len(),
            ds == s@.subrange(start as int, n as int),
            spec_scan_digits(ds, (i - start) as nat, bound as int, overflow) == Ok::<int, IntErrorKind>(
                acc as int,
            ),
            acc <= bound,
        decreases n - i,
    {
        let c = s.get_char(i);
        let u = c as u32;
        assert(ds[i - start] == c);
        if u < 48 || u > 57 {
            proof {
                lemma_scan_digits(ds, (i + 1 - start) as nat, (n - start) as nat, bound as int, overflow);
            }
            return Err(IntErrorKind::InvalidDigit);
        }
        let next: u128 = (acc as u128) * 10 + ((u - 48) as u128);
        if next > bound as u128 {
            proof {
                lemma_scan_digits(ds, (i + 1 - start) as nat, (n - start) as nat, bound as int, overflow);
            }
            return Err(overflow);
        }
        acc = next as u64;
        i = i + 1;
    }
    Ok(acc)
}

/// Parses `s` as std's `from_str` does for an integer type with the given
/// largest value and, if `signed`, the given magnitude of its smallest.
fn parse_int(s: &str, signed: bool, max_pos: u64, max_neg: u64) -> (r: Result<i128, IntErrorKind>)
    ensures
        spec_parse_int(s@, signed, max_pos as int, max_neg as int) == match r {
            Ok(v) => Ok::<int, IntErrorKind>(v as int),
            Err(k) => Err::<int, IntErrorKind>(k),
        },
        r matches Ok(v) ==> (if signed { -(max_neg as int) } else { 0 }) <= v <= max_pos,
{
    let n = s.unicode_len();
    if n == 0 {
        return Err(IntErrorKind::Empty);
    }
    let first = s.get_char(0);
    if n == 1 && (first == '+' || first == '-') {
        return Err(IntErrorKind::InvalidDigit);
    }
    proof {
        assert(s@.drop_first() =~= s@.subrange(1, s@.len() as int));
        assert(s@ =~= s@.subrange(0, s@.len() as int));
    }
    if first == '+' {
        let r = scan_digits(s, 1, max_pos, IntErrorKind::PosOverflow);
        proof {
            lemma_scan_digits(s@.drop_first(), (n - 1) as nat, (n - 1) as nat, max_pos as int, IntErrorKind::PosOverflow);
        }
        match r {
            Ok(v) => Ok(v as i128),
            Err(k) => Err(k),
        }
    } else if first == '-' && signed {
        let r = scan_digits(s, 1, max_neg, IntErrorKind::NegOverflow);
        proof {
            lemma_scan_digits(s@.drop_first(), (n - 1) as nat, (n - 1) as nat, max_neg as int, IntErrorKind::NegOverflow);
        }
        match r {
            Ok(v) => Ok(-(v as i128)),
            Err(k) => Err(k),
        }
    } else {
        let r = scan_digits(s, 0, max_pos, IntErrorKind::PosOverflow);
        proof {
            lemma_scan_digits(s@, n as nat, n as nat, max_pos as int, IntErrorKind::PosOverflow);
        }
        match r {
            Ok(v) => Ok(v as i128),
            Err(k) => Err(k),
        }
    }
}

/// Parses an `i32` as `str::parse::<i32>` does.
pub fn parse_i32(s: &str) -> (r: Result<i32, IntErrorKind>)
    ensures
        spec_parse_int(s@, true, i32::MAX as int, 0x8000_0000) == match r {
            Ok(v) => Ok::<int, IntErrorKind>(v as int),
            Err(k) => Err::<int, IntErrorKind>(k),
        },
{
    match parse_int(s, true, 0x7fff_ffff, 0x8000_0000) {
        Ok(v) => Ok(v as i32),
        Err(k) => Err(k),
    }
}

/// Parses a `u64` as `str::parse::<u64>` does.
pub fn parse_u64(s: &str) -> (r: Result<u64, IntErrorKind>)
    ensures
        spec_parse_int(s@, false, u64::MAX as int, 0) == match r {
            Ok(v) => Ok::<int, IntErrorKind>(v as int),
            Err(k) => Err::<int, IntErrorKind>(k),
        },
{
    match parse_int(s, false, 0xffff_ffff_ffff_ffff, 0) {
        Ok(v) => Ok(v as u64),
        Err(k) => Err(k),
    }
}

/// Parses a `u8` as `str::parse::<u8>` does.
pub fn parse_u8(s: &str) -> (r: Result<u8, IntErrorKind>)
    ensures
        spec_parse_int(s@, false, u8::MAX as int, 0) == match r {
            Ok(v) => Ok::<int, IntErrorKind>(v as int),
            Err(k) => Err::<int, IntErrorKind>(k),
        },
{
    match parse_int(s, false, 0xff, 0) {
        Ok(v) => Ok(v as u8),
        Err(k) => Err(k),
    }
}

// ---------------------------------------------------------------------------
// Settings from the environment
// ---------------------------------------------------------------------------

/// What a numeric setting named `key` with values up to `max` comes to:
/// the default when unset, an error when unreadable, else the parsed value
/// or, if the value does not parse, an error naming the key and why.
pub open spec fn spec_int_setting(key: Seq<char>, var: EnvVar, default: int, max: int) -> Result<
    int,
    ConfigErrorView,
> {
    match var {
        EnvVar::NotPresent => Ok(default),
        EnvVar::NotUnicode => Err(ConfigErrorView::UnreadableVar { key }),
        EnvVar::Present(v) => match spec_parse_int(v@, false, max, 0) {
            Ok(n) => Ok(n),
            Err(kind) => Err(ConfigErrorView::InvalidValue { key, reason: kind }),
        },
    }
}

/// What a text setting named `key` comes to: the default when unset, an
/// error when unreadable, else the value as it is.
pub open spec fn spec_string_setting(key: Seq<char>, var: EnvVar, default: Seq<char>) -> Result<
    Seq<char>,
    ConfigErrorView,
> {
    match var {
        EnvVar::NotPresent => Ok(default),
        EnvVar::NotUnicode => Err(ConfigErrorView::UnreadableVar { key }),
        EnvVar::Present(v) => Ok(v@),
    }
}

/// The `u64` setting named `key`: `default` when unset.
pub fn env_or_u64(key: &str, var: EnvVar, default: u64) -> (r: Result<u64, ConfigError>)
    ensures
        spec_int_setting(key@, var, default as int, u64::MAX as int) == match r {
            Ok(v) => Ok::<int, ConfigErrorView>(v as int),
            Err(e) => Err::<int, ConfigErrorView>(e@),
        },
{
    match var {
        EnvVar::NotPresent => Ok(default),
        EnvVar::NotUnicode => Err(ConfigError::UnreadableVar { key: key.to_owned() }),
        EnvVar::Present(v) => match parse_u64(v.as_str()) {
            Ok(n) => Ok(n),
            Err(kind) => Err(ConfigError::InvalidValue { key: key.to_owned(), reason: kind }),
        },
    }
}

/// The `u8` setting named `key`: `default` when unset.
pub fn env_or_u8(key: &str, var: EnvVar, default: u8) -> (r: Result<u8, ConfigError>)
    ensures
        spec_int_setting(key@, var, default as int, u8::MAX as int) == match r {
            Ok(v) => Ok::<int, ConfigErrorView>(v as int),
            Err(e) => Err::<int, ConfigErrorView>(e@),
        },
{
    match var {
        EnvVar::NotPresent => Ok(default),
        EnvVar::NotUnicode => Err(ConfigError::UnreadableVar { key: key.to_owned() }),
        EnvVar::Present(v) => match parse_u8(v.as_str()) {
            Ok(n) => Ok(n),
            Err(kind) => Err(ConfigError::InvalidValue { key: key.to_owned(), reason: kind }),
        },
    }
}

/// The text setting named `key`: `default` when unset; any value that is
/// set is taken as it is.
pub fn env_or_string(key: &str, var: EnvVar, default: String) -> (r: Result<String, ConfigError>)
    ensures
        spec_string_setting(key@, var, default@) == match r {
            Ok(s) => Ok::<Seq<char>, ConfigErrorView>(s@),
            Err(e) => Err::<Seq<char>, ConfigErrorView>(e@),
        },
{
    match var {
        EnvVar::NotPresent => Ok(default),
        EnvVar::NotUnicode => Err(ConfigError::UnreadableVar { key: key.to_owned() }),
        EnvVar::Present(v) => Ok(v),
    }
}

// ---------------------------------------------------------------------------
// Securities
// ---------------------------------------------------------------------------

/// Why one `market:code` entry did not parse.
pub enum EntryError {
    /// The entry has no ':'.
    NoColon,
    /// The text before the first ':' is not an `i32`.
    BadMarket(IntErrorKind),
}

/// `s` split at every `sep`, as `str::split` does: `n` separators give
/// `n + 1` pieces, empty ones included.
pub open spec fn spec_split(s: Seq<char>, sep: char) -> Seq<Seq<char>>
    decreases s.len(),
{
    if s.len() == 0 {
        seq![Seq::<char>::empty()]
    } else {
        let init = spec_split(s.drop_last(), sep);
        if s.last() == sep {
            init.push(Seq::<char>::empty())
        } else {
            init.update(init.len() - 1, init.last().push(s.last()))
        }
    }
}

/// `p` is the position of the first ':' in `e`.
pub open spec fn spec_first_colon_at(e: Seq<char>, p: int) -> bool {
    &&& 0 <= p < e.len()
    &&& e[p] == ':'
    &&& forall|j: int| 0 <= j < p ==> e[j] != ':'
}

/// One entry `market:code`, split at its first ':': the market must parse
/// as an `i32`; the code is the rest, possibly empty or holding more ':'.
pub open spec fn spec_parse_entry(e: Seq<char>) -> Result<(int, Seq<char>), EntryError> {
    if exists|p: int| #[trigger] spec_first_colon_at(e, p) {
        let p = choose|p: int| #[trigger] spec_first_colon_at(e, p);
        match spec_parse_int(e.subrange(0, p), true, i32::MAX as int, 0x8000_0000) {
            Ok(m) => Ok((m, e.subrange(p + 1, e.len() as int))),
            Err(k) => Err(EntryError::BadMarket(k)),
        }
    } else {
        Err(EntryError::NoColon)
    }
}

/// The entries parsed in order; the first entry that does not parse is the
/// error, together with that entry.
pub open spec fn spec_parse_entries(es: Seq<Seq<char>>) -> Result<
    Seq<(int, Seq<char>)>,
    (Seq<char>, EntryError),
>
    decreases es.len(),
{
    if es.len() == 0 {
        Ok(Seq::empty())
    } else {
        match spec_parse_entries(es.drop_last()) {
            Err(e) => Err(e),
            Ok(v) => match spec_parse_entry(es.last()) {
                Ok(x) => Ok(v.push(x)),
                Err(k) => Err((es.last(), k)),
            },
        }
    }
}

/// What the comma-separated list `s` of `market:code` entries comes to:
/// the securities in order, or the error for its first bad entry.
pub open spec fn spec_securities(s: Seq<char>) -> Result<Seq<(int, Seq<char>)>, ConfigErrorView> {
    match spec_parse_entries(spec_split(s, ',')) {
        Ok(v) => Ok(v),
        Err((e, EntryError::NoColon)) => Err(ConfigErrorView::InvalidSecurity { entry: e }),
        Err((e, EntryError::BadMarket(k))) => Err(ConfigErrorView::InvalidMarket { entry: e, reason: k }),
    }
}

/// What the securities setting comes to: the parsed list when set, the
/// crypto market's "BTC" when unset, an error when unreadable.
pub open spec fn spec_securities_setting(var: EnvVar) -> Result<Seq<(int, Seq<char>)>, ConfigErrorView> {
    match var {
        EnvVar::Present(v) => spec_securities(v@),
        EnvVar::NotPresent => Ok(seq![(QOT_MARKET_CC_SECURITY as int, "BTC"@)]),
        EnvVar::NotUnicode => Err(ConfigErrorView::UnreadableSecurities),
    }
}

/// An entry reads as its market, the first ':', then its code: when the
/// text before the first ':' is a valid `i32`, the entry is that market and
/// everything after that ':' (further ':' included); an entry with no ':' is
/// refused as such.
pub proof fn lemma_entry_parts(market: Seq<char>, code: Seq<char>)
    requires
        forall|j: int| 0 <= j < market.len() ==> market[j] != ':',
    ensures
        ({
            let e = market + seq![':'] + code;
            &&& spec_parse_int(market, true, i32::MAX as int, 0x8000_0000) matches Ok(n) ==> spec_parse_entry(e)
                == Ok::<(int, Seq<char>), EntryError>((n, code))
            &&& spec_parse_int(market, true, i32::MAX as int, 0x8000_0000) matches Err(k) ==> spec_parse_entry(
                e,
            ) == Err::<(int, Seq<char>), EntryError>(EntryError::BadMarket(k))
        }),
        (forall|j: int| 0 <= j < code.len() ==> code[j] != ':') ==> spec_parse_entry(code) == Err::<
            (int, Seq<char>),
            EntryError,
        >(EntryError::NoColon),
{
    let e = market + seq![':'] + code;
    let p = market.len() as int;
    assert(e[p] == ':');
    assert forall|j: int| 0 <= j < p implies e[j] != ':' by {
        assert(e[j] == market[j]);
    }
    assert(spec_first_colon_at(e, p));
    let q = choose|q: int| #[trigger] spec_first_colon_at(e, q);
    if q < p {
        assert(e[q] == market[q]);
    }
    if p < q {
        assert(e[p] != ':');
    }
    assert(q == p);
    assert(e.subrange(0, p) =~= market);
    assert(e.subrange(p + 1, e.len() as int) =~= code);
    if forall|j: int| 0 <= j < code.len() ==> code[j] != ':' {
        assert forall|r: int| !spec_first_colon_at(code, r) by {
            if spec_first_colon_at(code, r) {
                assert(code[r] != ':');
            }
        }
    }
}

/// One result per entry: when every entry parses, the list has as many
/// securities as entries, the `i`-th being the `i`-th entry's market and
/// code, whatever the markets and codes are.
pub proof fn lemma_entries_all_parse(es: Seq<Seq<char>>)
    requires
        forall|i: int| 0 <= i < es.len() ==> #[trigger] spec_parse_entry(es[i]) is Ok,
    ensures
        spec_parse_entries(es) is Ok,
        spec_parse_entries(es)->Ok_0.len() == es.len(),
        forall|i: int|
            0 <= i < es.len() ==> #[trigger] spec_parse_entries(es)->Ok_0[i] == spec_parse_entry(
                es[i],
            )->Ok_0,
    decreases es.len(),
{
    if es.len() > 0 {
        let init = es.drop_last();
        assert forall|i: int| 0 <= i < init.len() implies #[trigger] spec_parse_entry(init[i]) is Ok by {
            assert(init[i] == es[i]);
        }
        lemma_entries_all_parse(init);
        assert(spec_parse_entry(es[es.len() - 1]) is Ok);
        let v = spec_parse_entries(init)->Ok_0;
        assert forall|i: int| 0 <= i < es.len() implies #[trigger] spec_parse_entries(es)->Ok_0[i]
            == spec_parse_entry(es[i])->Ok_0 by {
            if i < es.len() - 1 {
                assert(init[i] == es[i]);
                assert(spec_parse_entries(init)->Ok_0[i] == spec_parse_entry(init[i])->Ok_0);
            }
        }
    }
}

/// The first entry that does not parse is the error: when all entries
/// before the `k`-th parse and the `k`-th does not, the list is that entry
/// with the reason it does not parse, whatever follows.
pub proof fn lemma_entries_first_error(es: Seq<Seq<char>>, k: int)
    requires
        0 <= k < es.len(),
        forall|i: int| 0 <= i < k ==> #[trigger] spec_parse_entry(es[i]) is Ok,
        spec_parse_entry(es[k]) is Err,
    ensures
        spec_parse_entries(es) == Err::<Seq<(int, Seq<char>)>, (Seq<char>, EntryError)>(
            (es[k], spec_parse_entry(es[k])->Err_0),
        ),
{
    let pre = es.subrange(0, k);
    let upto = es.subrange(0, k + 1);
    assert forall|i: int| 0 <= i < pre.len() implies #[trigger] spec_parse_entry(pre[i]) is Ok by {
        assert(pre[i] == es[i]);
    }
    lemma_entries_all_parse(pre);
    assert(upto.drop_last() =~= pre);
    assert(upto.last() == es[k]);
    lemma_entries_error_prefix(es, k + 1);
}

/// The pieces put back together with `sep` between them.
pub open spec fn spec_join(pieces: Seq<Seq<char>>, sep: char) -> Seq<char>
    decreases pieces.len(),
{
    if pieces.len() == 0 {
        Seq::empty()
    } else if pieces.len() == 1 {
        pieces[0]
    } else {
        spec_join(pieces.drop_last(), sep) + seq![sep] + pieces.last()
    }
}

/// Splitting loses and invents nothing: the pieces hold no separator, and
/// joined with it they give back the text.
pub proof fn lemma_split_pieces(s: Seq<char>, sep: char)
    ensures
        spec_split(s, sep).len() >= 1,
        spec_join(spec_split(s, sep), sep) == s,
        forall|i: int, j: int|
            0 <= i < spec_split(s, sep).len() && 0 <= j < spec_split(s, sep)[i].len() ==> #[trigger] spec_split(
                s,
                sep,
            )[i][j] != sep,
    decreases s.len(),
{
    if s.len() > 0 {
        let init = s.drop_last();
        let ps = spec_split(init, sep);
        lemma_split_pieces(init, sep);
        let c = s.last();
        if c == sep {
            let qs = ps.push(Seq::<char>::empty());
            assert(qs.drop_last() =~= ps);
            assert(spec_join(qs, sep) =~= s);
            assert forall|i: int, j: int| 0 <= i < qs.len() && 0 <= j < qs[i].len() implies #[trigger] qs[i][j]
                != sep by {
                if i < ps.len() {
                    assert(qs[i] == ps[i]);
                }
            }
        } else {
            let last = ps.len() - 1;
            let qs = ps.update(last, ps.last().push(c));
            if ps.len() == 1 {
                assert(spec_join(qs, sep) == qs[0]);
                assert(qs[0] =~= s);
            } else {
                assert(qs.drop_last() =~= ps.drop_last());
                assert(qs.last() == ps.last().push(c));
                assert(spec_join(ps, sep) == spec_join(ps.drop_last(), sep) + seq![sep] + ps.last());
                assert(spec_join(qs, sep) == spec_join(ps.drop_last(), sep) + seq![sep] + qs.last());
                assert(spec_join(qs, sep) =~= init.push(c));
                assert(init.push(c) =~= s);
            }
            assert forall|i: int, j: int| 0 <= i < qs.len() && 0 <= j < qs[i].len() implies #[trigger] qs[i][j]
                != sep by {
                if i < last {
                    assert(qs[i] == ps[i]);
                } else {
                    if j < ps.last().len() {
                        assert(qs[i][j] == ps[last][j]);
                    }
                }
            }
        }
    }
}

proof fn lemma_split_nonempty(s: Seq<char>, sep: char)
    ensures
        spec_split(s, sep).len() >= 1,
    decreases s.len(),
{
    if s.len() > 0 {
        lemma_split_nonempty(s.drop_last(), sep);
    }
}

/// An error among the first `k` entries is the error of all of them.
proof fn lemma_entries_error_prefix(es: Seq<Seq<char>>, k: int)
    requires
        0 <= k <= es.len(),
        spec_parse_entries(es.subrange(0, k)) is Err,
    ensures
        spec_parse_entries(es) == spec_parse_entries(es.subrange(0, k)),
    decreases es.len(),
{
    if k < es.len() {
        assert(es.drop_last().subrange(0, k) =~= es.subrange(0, k));
        lemma_entries_error_prefix(es.drop_last(), k);
    } else {
        assert(es.subrange(0, k) =~= es);
    }
}

/// Parses one `market:code` entry.
fn parse_security_entry(entry: &str) -> (r: Result<Security, ConfigError>)
    ensures
        match spec_parse_entry(entry@) {
            Ok((m, code)) => r matches Ok(sec) && sec.market == m && sec.code@ == code,
            Err(EntryError::NoColon) => r matches Err(ConfigError::InvalidSecurity { entry: e })
                && e@ == entry@,
            Err(EntryError::BadMarket(k)) => r matches Err(
                ConfigError::InvalidMarket { entry: e, reason },
            ) && e@ == entry@ && reason == k,
        },
{
    let n = entry.unicode_len();
    let mut p: usize = 0;
    while p < n
        invariant
            0 <= p <= n,
            n == entry@.len(),
            forall|j: int| 0 <= j < p ==> entry@[j] != ':',
        ensures
            0 <= p <= n,
            forall|j: int| 0 <= j < p ==> entry@[j] != ':',
            p < n ==> entry@[p as int] == ':',
        decreases n - p,
    {
        if entry.get_char(p) == ':' {
            break;
        }
        p = p + 1;
    }
    if p == n {
        proof {
            assert forall|q: int| !spec_first_colon_at(entry@, q) by {
                if spec_first_colon_at(entry@, q) {
                    assert(entry@[q] != ':');
                }
            }
        }
        return Err(ConfigError::InvalidSecurity { entry: entry.to_owned() });
    }
    proof {
        assert(spec_first_colon_at(entry@, p as int));
        let q = choose|q: int| #[trigger] spec_first_colon_at(entry@, q);
        assert(spec_first_colon_at(entry@, q));
        if q < p {
            assert(entry@[q] != ':');
        }
        if p < q {
            assert(entry@[p as int] != ':');
        }
        assert(q == p);
    }
    let market_str = entry.substring_char(0, p);
    let code = entry.substring_char(p + 1, n).to_owned();
    match parse_i32(market_str) {
        Ok(market) => Ok(Security { market, code }),
        Err(k) => Err(ConfigError::InvalidMarket { entry: entry.to_owned(), reason: k }),
    }
}

/// Where the pieces of `s` split at ',' begin and end: the `k`-th piece is
/// `s[spans[k].0 .. spans[k].1]`.
fn comma_spans(s: &str) -> (spans: Vec<(usize, usize)>)
    ensures
        spans@.len() == spec_split(s@, ',').len(),
        forall|k: int|
            0 <= k < spans@.len() ==> {
                let (a, b) = #[trigger] spans@[k];
                &&& a <= b <= s@.len()
                &&& s@.subrange(a as int, b as int) == spec_split(s@, ',')[k]
            },
{
    let n = s.unicode_len();
    let mut spans: Vec<(usize, usize)> = Vec::new();
    let mut start: usize = 0;
    let mut i: usize = 0;
    while i < n
        invariant
            0 <= start <= i <= n,
            n == s@.len(),
            spec_split(s@.subrange(0, i as int), ',').len() == spans@.len() + 1,
            forall|k: int|
                0 <= k < spans@.len() ==> {
                    let (a, b) = #[trigger] spans@[k];
                    &&& a <= b <= i
                    &&& s@.subrange(a as int, b as int) == spec_split(s@.subrange(0, i as int), ',')[k]
                },
            s@.subrange(start as int, i as int) == spec_split(s@.subrange(0, i as int), ',').last(),
        decreases n - i,
    {
        let c = s.get_char(i);
        let ghost prev = s@.subrange(0, i as int);
        let ghost next = s@.subrange(0, i + 1);
        proof {
            assert(next.drop_last() =~= prev);
            assert(next.last() == c);
            lemma_split_nonempty(prev, ',');
        }
        if c == ',' {
            spans.push((start, i));
            start = i + 1;
            proof {
                assert(s@.subrange(start as int, i + 1) =~= Seq::<char>::empty());
            }
        } else {
            proof {
                assert(s@.subrange(start as int, i + 1) =~= s@.subrange(start as int, i as int).push(c));
            }
        }
        i = i + 1;
    }
    spans.push((start, n));
    proof {
        assert(s@.subrange(0, n as int) =~= s@);
    }
    spans
}

/// Parses a comma-separated list of `market:code` entries, such as
/// "91:BTC,11:AAPL", stopping at the first entry that does not parse.
pub fn parse_securities(val: &str) -> (r: Result<Vec<Security>, ConfigError>)
    ensures
        spec_securities(val@) == match r {
            Ok(v) => Ok::<Seq<(int, Seq<char>)>, ConfigErrorView>(spec_securities_view(v@)),
            Err(e) => Err::<Seq<(int, Seq<char>)>, ConfigErrorView>(e@),
        },
        ({
            let pieces = spec_split(val@, ',');
            (forall|i: int| 0 <= i < pieces.len() ==> #[trigger] spec_parse_entry(pieces[i]) is Ok)
                ==> (r matches Ok(secs) && secs@.len() == pieces.len() && forall|i: int|
                0 <= i < pieces.len() ==> #[trigger] secs@[i].market == spec_parse_entry(
                    pieces[i],
                )->Ok_0.0 && secs@[i].code@ == spec_parse_entry(pieces[i])->Ok_0.1)
        }),
{
    let spans = comma_spans(val);
    let ghost es = spec_split(val@, ',');
    let mut out: Vec<Security> = Vec::new();
    let mut k: usize = 0;
    while k < spans.len()
        invariant
            0 <= k <= spans@.len(),
            spans@.len() == es.len(),
            es == spec_split(val@, ','),
            forall|j: int|
                0 <= j < spans@.len() ==> {
                    let (a, b) = #[trigger] spans@[j];
                    &&& a <= b <= val@.len()
                    &&& val@.subrange(a as int, b as int) == es[j]
                },
            spec_parse_entries(es.subrange(0, k as int)) matches Ok(v) && out@.len() == v.len()
                && forall|i: int|
                0 <= i < v.len() ==> #[trigger] out@[i].market == v[i].0 && out@[i].code@ == v[i].1,
        decreases spans@.len() - k,
    {
        let (a, b) = spans[k];
        let entry = val.substring_char(a, b);
        let ghost prefix = es.subrange(0, k as int);
        let ghost next = es.subrange(0, k + 1);
        proof {
            assert(next.drop_last() =~= prefix);
            assert(next.last() == es[k as int]);
        }
        match parse_security_entry(entry) {
            Ok(sec) => {
                out.push(sec);
            },
            Err(e) => {
                proof {
                    lemma_entries_error_prefix(es, k + 1);
                    if forall|i: int| 0 <= i < es.len() ==> #[trigger] spec_parse_entry(es[i]) is Ok {
                        lemma_entries_all_parse(es);
                    }
                }
                return Err(e);
            },
        }
        k = k + 1;
    }
    proof {
        assert(es.subrange(0, es.len() as int) =~= es);
        let v = spec_parse_entries(es)->Ok_0;
        assert(spec_securities_view(out@) =~= v);
        if forall|i: int| 0 <= i < es.len() ==> #[trigger] spec_parse_entry(es[i]) is Ok {
            lemma_entries_all_parse(es);
        }
    }
    Ok(out)
}

/// The securities setting: parsed when set, the crypto market's "BTC" when
/// unset, an error when unreadable.
pub fn securities_or_default(var: EnvVar) -> (r: Result<Vec<Security>, ConfigError>)
    ensures
        spec_securities_setting(var) == match r {
            Ok(v) => Ok::<Seq<(int, Seq<char>)>, ConfigErrorView>(spec_securities_view(v@)),
            Err(e) => Err::<Seq<(int, Seq<char>)>, ConfigErrorView>(e@),
        },
{
    match var {
        EnvVar::Present(v) => parse_securities(v.as_str()),
        EnvVar::NotPresent => {
            let mut secs: Vec<Security> = Vec::new();
            secs.push(Security { market: QOT_MARKET_CC_SECURITY, code: "BTC".to_owned() });
            proof {
                assert(spec_securities_view(secs@) =~= seq![(QOT_MARKET_CC_SECURITY as int, "BTC"@)]);
            }
            Ok(secs)
        },
        EnvVar::NotUnicode => Err(ConfigError::UnreadableSecurities),
    }
}

// ---------------------------------------------------------------------------
// All settings
// ---------------------------------------------------------------------------

/// What the seven setting variables come to, read in this order:
/// OPEND_ADDR, QDB_CLIENT_CONF, RETRY_INITIAL_BACKOFF_SECS,
/// RETRY_MAX_BACKOFF_SECS, RETRY_MAX_ATTEMPTS, RETRY_HEALTHY_THRESHOLD_SECS,
/// MOOMOO_SECURITIES; the first one that fails gives the error.
pub open spec fn spec_config(
    opend_addr: EnvVar,
    questdb_conf: EnvVar,
    initial_backoff: EnvVar,
    max_backoff: EnvVar,
    max_retries: EnvVar,
    healthy_threshold: EnvVar,
    securities: EnvVar,
) -> Result<ConfigView, ConfigErrorView> {
    match spec_string_setting("OPEND_ADDR"@, opend_addr, "127.0.0.1:11111"@) {
        Err(e) => Err(e),
        Ok(a) => match spec_string_setting("QDB_CLIENT_CONF"@, questdb_conf, "http::addr=localhost:9000;"@) {
            Err(e) => Err(e),
            Ok(q) => match spec_int_setting(
                "RETRY_INITIAL_BACKOFF_SECS"@,
                initial_backoff,
                DEFAULT_INITIAL_BACKOFF_SECS as int,
                u64::MAX as int,
            ) {
                Err(e) => Err(e),
                Ok(ib) => match spec_int_setting(
                    "RETRY_MAX_BACKOFF_SECS"@,
                    max_backoff,
                    DEFAULT_MAX_BACKOFF_SECS as int,
                    u64::MAX as int,
                ) {
                    Err(e) => Err(e),
                    Ok(mb) => match spec_int_setting(
                        "RETRY_MAX_ATTEMPTS"@,
                        max_retries,
                        DEFAULT_MAX_RETRIES as int,
                        u8::MAX as int,
                    ) {
                        Err(e) => Err(e),
                        Ok(mr) => match spec_int_setting(
                            "RETRY_HEALTHY_THRESHOLD_SECS"@,
                            healthy_threshold,
                            DEFAULT_HEALTHY_THRESHOLD_SECS as int,
                            u64::MAX as int,
                        ) {
                            Err(e) => Err(e),
                            Ok(ht) => match spec_securities_setting(securities) {
                                Err(e) => Err(e),
                                Ok(secs) => Ok(
                                    ConfigView {
                                        opend_addr: a,
                                        questdb_conf: q,
                                        initial_backoff: ib as u64,
                                        max_backoff: mb as u64,
                                        max_retries: mr as u8,
                                        healthy_threshold: ht as u64,
                                        securities: secs,
                                    },
                                ),
                            },
                        },
                    },
                },
            },
        },
    }
}

impl Config {
    /// The settings from the values of their environment variables, each
    /// falling back to its default when unset; the first variable (in the
    /// order of `spec_config`) that is unreadable or does not parse is the
    /// error.
    pub fn from_vars(
        opend_addr_var: EnvVar,
        questdb_conf_var: EnvVar,
        initial_backoff_var: EnvVar,
        max_backoff_var: EnvVar,
        max_retries_var: EnvVar,
        healthy_threshold_var: EnvVar,
        securities_var: EnvVar,
    ) -> (r: Result<Config, ConfigError>)
        ensures
            spec_config(
                opend_addr_var,
                questdb_conf_var,
                initial_backoff_var,
                max_backoff_var,
                max_retries_var,
                healthy_threshold_var,
                securities_var,
            ) == match r {
                Ok(c) => Ok::<ConfigView, ConfigErrorView>(c@),
                Err(e) => Err::<ConfigView, ConfigErrorView>(e@),
            },
            spec_set_but_unparsable(initial_backoff_var, u64::MAX as int) || spec_set_but_unparsable(
                max_backoff_var,
                u64::MAX as int,
            ) || spec_set_but_unparsable(max_retries_var, u8::MAX as int) || spec_set_but_unparsable(
                healthy_threshold_var,
                u64::MAX as int,
            ) ==> r is Err,
            r matches Ok(c) ==> {
                &&& spec_numeric_value_of(initial_backoff_var, u64::MAX as int, 1, c.initial_backoff as int)
                &&& spec_numeric_value_of(max_backoff_var, u64::MAX as int, 60, c.max_backoff as int)
                &&& spec_numeric_value_of(max_retries_var, u8::MAX as int, 5, c.max_retries as int)
                &&& spec_numeric_value_of(
                    healthy_threshold_var,
                    u64::MAX as int,
                    30,
                    c.healthy_threshold as int,
                )
            },
    {
        proof {
            lemma_unparsable_setting_is_an_error(
                opend_addr_var,
                questdb_conf_var,
                initial_backoff_var,
                max_backoff_var,
                max_retries_var,
                healthy_threshold_var,
                securities_var,
            );
        }
        let opend_addr = match env_or_string("OPEND_ADDR", opend_addr_var, default_opend_addr()) {
            Ok(v) => v,
            Err(e) => return Err(e),
        };
        let questdb_conf = match env_or_string("QDB_CLIENT_CONF", questdb_conf_var, default_questdb_conf()) {
            Ok(v) => v,
            Err(e) => return Err(e),
        };
        let initial_backoff = match env_or_u64(
            "RETRY_INITIAL_BACKOFF_SECS",
            initial_backoff_var,
            DEFAULT_INITIAL_BACKOFF_SECS,
        ) {
            Ok(v) => v,
            Err(e) => return Err(e),
        };
        let max_backoff = match env_or_u64("RETRY_MAX_BACKOFF_SECS", max_backoff_var, DEFAULT_MAX_BACKOFF_SECS) {
            Ok(v) => v,
            Err(e) => return Err(e),
        };
        let max_retries = match env_or_u8("RETRY_MAX_ATTEMPTS", max_retries_var, DEFAULT_MAX_RETRIES) {
            Ok(v) => v,
            Err(e) => return Err(e),
        };
        let healthy_threshold = match env_or_u64(
            "RETRY_HEALTHY_THRESHOLD_SECS",
            healthy_threshold_var,
            DEFAULT_HEALTHY_THRESHOLD_SECS,
        ) {
            Ok(v) => v,
            Err(e) => return Err(e),
        };
        let securities = match securities_or_default(securities_var) {
            Ok(v) => v,
            Err(e) => return Err(e),
        };
        Ok(
            Config {
                opend_addr,
                questdb_conf,
                initial_backoff,
                max_backoff,
                max_retries,
                healthy_threshold,
                securities,
            },
        )
    }
}

/// A numeric setting variable is set to text that is not a valid number of
/// its type (values up to `max`).
pub open spec fn spec_set_but_unparsable(var: EnvVar, max: int) -> bool {
    match var {
        EnvVar::Present(v) => spec_parse_int(v@, false, max, 0) is Err,
        _ => false,
    }
}

/// A numeric setting variable raises no error: unset, or set to a valid
/// number of its type.
pub open spec fn spec_numeric_var_fine(var: EnvVar, max: int) -> bool {
    match var {
        EnvVar::NotPresent => true,
        EnvVar::Present(v) => spec_parse_int(v@, false, max, 0) is Ok,
        EnvVar::NotUnicode => false,
    }
}

/// `value` is the setting the variable `var` stands for: the default when
/// unset, else the number its text parses to.
pub open spec fn spec_numeric_value_of(var: EnvVar, max: int, default: int, value: int) -> bool {
    match var {
        EnvVar::NotPresent => value == default,
        EnvVar::Present(v) => spec_parse_int(v@, false, max, 0) == Ok::<int, IntErrorKind>(value),
        EnvVar::NotUnicode => false,
    }
}

/// The error for a variable set to text that does not parse: its name and
/// why.
pub open spec fn spec_is_parse_error_of(e: ConfigErrorView, name: Seq<char>, var: EnvVar, max: int) -> bool {
    match (e, var) {
        (ConfigErrorView::InvalidValue { key, reason }, EnvVar::Present(v)) => key == name && spec_parse_int(
            v@,
            false,
            max,
            0,
        ) == Err::<int, IntErrorKind>(reason),
        _ => false,
    }
}

/// A set value that does not parse never yields settings, and is never
/// replaced by its default: when any numeric variable is set to text that is
/// not a valid number, the settings are an error; when the variables read
/// before it raise no error, it is the error, naming that variable and why
/// its value does not parse. When the settings come out, every numeric one
/// is its variable's number, or its default when unset.
pub proof fn lemma_unparsable_setting_is_an_error(
    opend_addr: EnvVar,
    questdb_conf: EnvVar,
    initial_backoff: EnvVar,
    max_backoff: EnvVar,
    max_retries: EnvVar,
    healthy_threshold: EnvVar,
    securities: EnvVar,
)
    ensures
        ({
            let r = spec_config(
                opend_addr,
                questdb_conf,
                initial_backoff,
                max_backoff,
                max_retries,
                healthy_threshold,
                securities,
            );
            let strings_fine = !(opend_addr is NotUnicode) && !(questdb_conf is NotUnicode);
            &&& (spec_set_but_unparsable(initial_backoff, u64::MAX as int) || spec_set_but_unparsable(
                max_backoff,
                u64::MAX as int,
            ) || spec_set_but_unparsable(max_retries, u8::MAX as int) || spec_set_but_unparsable(
                healthy_threshold,
                u64::MAX as int,
            )) ==> r is Err
            &&& (strings_fine && spec_set_but_unparsable(initial_backoff, u64::MAX as int)) ==> (r is Err
                && spec_is_parse_error_of(r->Err_0, "RETRY_INITIAL_BACKOFF_SECS"@, initial_backoff, u64::MAX as int))
            &&& (strings_fine && spec_numeric_var_fine(initial_backoff, u64::MAX as int)
                && spec_set_but_unparsable(max_backoff, u64::MAX as int)) ==> (r is Err
                && spec_is_parse_error_of(r->Err_0, "RETRY_MAX_BACKOFF_SECS"@, max_backoff, u64::MAX as int))
            &&& (strings_fine && spec_numeric_var_fine(initial_backoff, u64::MAX as int)
                && spec_numeric_var_fine(max_backoff, u64::MAX as int) && spec_set_but_unparsable(
                max_retries,
                u8::MAX as int,
            )) ==> (r is Err
                && spec_is_parse_error_of(r->Err_0, "RETRY_MAX_ATTEMPTS"@, max_retries, u8::MAX as int))
            &&& (strings_fine && spec_numeric_var_fine(initial_backoff, u64::MAX as int)
                && spec_numeric_var_fine(max_backoff, u64::MAX as int) && spec_numeric_var_fine(
                max_retries,
                u8::MAX as int,
            ) && spec_set_but_unparsable(healthy_threshold, u64::MAX as int)) ==> (r is Err
                && spec_is_parse_error_of(r->Err_0, "RETRY_HEALTHY_THRESHOLD_SECS"@, healthy_threshold, u64::MAX as int))
            &&& (r matches Ok(c) ==> {
                &&& spec_numeric_value_of(initial_backoff, u64::MAX as int, 1, c.initial_backoff as int)
                &&& spec_numeric_value_of(max_backoff, u64::MAX as int, 60, c.max_backoff as int)
                &&& spec_numeric_value_of(max_retries, u8::MAX as int, 5, c.max_retries as int)
                &&& spec_numeric_value_of(healthy_threshold, u64::MAX as int, 30, c.healthy_threshold as int)
            })
        }),
{
    if let EnvVar::Present(v) = initial_backoff {
        lemma_parse_int_in_range(v@, false, u64::MAX as int, 0);
    }
    if let EnvVar::Present(v) = max_backoff {
        lemma_parse_int_in_range(v@, false, u64::MAX as int, 0);
    }
    if let EnvVar::Present(v) = max_retries {
        lemma_parse_int_in_range(v@, false, u8::MAX as int, 0);
    }
    if let EnvVar::Present(v) = healthy_threshold {
        lemma_parse_int_in_range(v@, false, u64::MAX as int, 0);
    }
}

} // verus!
