//! The decisions of a ticker stream: serial numbers for outgoing frames,
//! the checks on OpenD's replies, what to do with each pushed frame, how a
//! trade print becomes a row, and the reconnect policy with its backoff.
use vstd::arithmetic::power2::*;
use vstd::prelude::*;

use crate::errors::ProtocolError;
use crate::model::proto_ids::{KEEP_ALIVE, QOT_UPDATE_TICKER};
use crate::mods::qot_common::Ticker;
use crate::mods::{init_connect, qot_sub, qot_update_ticker};

verus! {

// ---------------------------------------------------------------------------
// Serial numbers
// ---------------------------------------------------------------------------

/// Hands out the serial numbers of a session's outgoing frames. It starts
/// at 1, since 0 marks a failed request, and counts up by one, wrapping
/// around at the end of the `u32` range.
pub struct SeqCounter {
    pub next: u32,
}

/// The number after `n`, wrapping around at the end of the `u32` range.
pub open spec fn spec_next_seq(n: u32) -> u32 {
    if n == u32::MAX {
        0
    } else {
        (n + 1) as u32
    }
}

impl SeqCounter {
    /// A counter whose first number is 1.
    pub fn new() -> (c: SeqCounter)
        ensures
            c.next == 1,
    {
        SeqCounter { next: 1 }
    }

    /// The next serial number.
    pub fn get_seq_no(&mut self) -> (n: u32)
        ensures
            n == old(self).next,
            final(self).next == spec_next_seq(old(self).next),
    {
        let n = self.next;
        self.next = if n == u32::MAX {
            0
        } else {
            n + 1
        };
        n
    }
}

/// The serial number handed out by the `k`-th call (counting from 0) on a
/// counter whose next number is `start`.
pub open spec fn spec_seq_after(start: u32, k: nat) -> u32
    decreases k,
{
    if k == 0 {
        start
    } else {
        spec_next_seq(spec_seq_after(start, (k - 1) as nat))
    }
}

/// A fresh counter hands out 1, 2, 3, ... : the `k`-th number (from 0) is
/// `k + 1`, so no number is 0 and none repeats before the range wraps.
pub proof fn lemma_seq_numbers_count_up(k: nat)
    requires
        k < u32::MAX,
    ensures
        spec_seq_after(1, k) == k + 1,
        spec_seq_after(1, k) != 0,
    decreases k,
{
    if k > 0 {
        lemma_seq_numbers_count_up((k - 1) as nat);
    }
}

// ---------------------------------------------------------------------------
// Replies
// ---------------------------------------------------------------------------

/// Accepts the InitConnect reply: it must report success (`ret_type` 0) and
/// carry its server part, which is returned.
pub fn accept_init_connect(resp: init_connect::Response) -> (r: Result<init_connect::S2c, ProtocolError>)
    ensures
        resp.ret_type != 0 ==> r == Err::<init_connect::S2c, ProtocolError>(
            ProtocolError::InitConnectFailed { ret_msg: resp.ret_msg },
        ),
        resp.ret_type == 0 && resp.s2c.is_none() ==> r matches Err(
            ProtocolError::InitConnectMissingS2c,
        ),
        resp.ret_type == 0 && resp.s2c.is_some() ==> r == Ok::<init_connect::S2c, ProtocolError>(
            resp.s2c.unwrap(),
        ),
{
    if resp.ret_type != 0 {
        return Err(ProtocolError::InitConnectFailed { ret_msg: resp.ret_msg });
    }
    match resp.s2c {
        Some(s2c) => Ok(s2c),
        None => Err(ProtocolError::InitConnectMissingS2c),
    }
}

/// Accepts the Sub reply: it must report success (`ret_type` 0).
pub fn accept_sub_response(resp: qot_sub::Response) -> (r: Result<(), ProtocolError>)
    ensures
        resp.ret_type == 0 <==> r is Ok,
        resp.ret_type != 0 ==> r == Err::<(), ProtocolError>(
            ProtocolError::SubFailed { ret_msg: resp.ret_msg },
        ),
{
    if resp.ret_type != 0 {
        return Err(ProtocolError::SubFailed { ret_msg: resp.ret_msg });
    }
    Ok(())
}

// ---------------------------------------------------------------------------
// Pushed frames
// ---------------------------------------------------------------------------

/// What the stream does with a frame that arrives after subscribing.
pub enum PushKind {
    /// The reply to a heartbeat: logged and otherwise ignored.
    KeepAliveReply,
    /// A ticker push: decoded and turned into rows.
    Ticker,
    /// Any other frame: ignored.
    Unhandled,
}

/// Sorts a pushed frame by its proto id.
pub fn classify_push(proto_id: u32) -> (k: PushKind)
    ensures
        proto_id == KEEP_ALIVE ==> k is KeepAliveReply,
        proto_id == QOT_UPDATE_TICKER ==> k is Ticker,
        proto_id != KEEP_ALIVE && proto_id != QOT_UPDATE_TICKER ==> k is Unhandled,
{
    if proto_id == KEEP_ALIVE {
        PushKind::KeepAliveReply
    } else if proto_id == QOT_UPDATE_TICKER {
        PushKind::Ticker
    } else {
        PushKind::Unhandled
    }
}

/// The side of a trade print.
#[derive(Clone, Copy, PartialEq, Eq, Structural, Debug)]
pub enum TradeSide {
    Buy,
    Sell,
    Neutral,
    Unknown,
}

/// The side that a ticker's `dir` code stands for: 1 buy, 2 sell,
/// 3 neutral, anything else unknown.
pub open spec fn spec_side_of_dir(dir: i32) -> TradeSide {
    if dir == 1 {
        TradeSide::Buy
    } else if dir == 2 {
        TradeSide::Sell
    } else if dir == 3 {
        TradeSide::Neutral
    } else {
        TradeSide::Unknown
    }
}

impl TradeSide {
    /// The side that a ticker's `dir` code stands for.
    pub fn from_dir(dir: i32) -> (s: TradeSide)
        ensures
            s == spec_side_of_dir(dir),
    {
        if dir == 1 {
            TradeSide::Buy
        } else if dir == 2 {
            TradeSide::Sell
        } else if dir == 3 {
            TradeSide::Neutral
        } else {
            TradeSide::Unknown
        }
    }

    /// The label written for this side: "BUY", "SELL", "NEUTRAL" or "UNKNOWN".
    pub fn label(&self) -> (l: &'static str)
        ensures
            *self is Buy ==> l@ == "BUY"@,
            *self is Sell ==> l@ == "SELL"@,
            *self is Neutral ==> l@ == "NEUTRAL"@,
            *self is Unknown ==> l@ == "UNKNOWN"@,
    {
        match self {
            TradeSide::Buy => "BUY",
            TradeSide::Sell => "SELL",
            TradeSide::Neutral => "NEUTRAL",
            TradeSide::Unknown => "UNKNOWN",
        }
    }
}

/// One trade print as a row for storage. Floating-point values are the bit
/// patterns of the doubles of the push.
pub struct TickRow {
    pub symbol: String,
    pub side: TradeSide,
    pub price_bits: u64,
    pub volume: i64,
    pub sequence: i64,
    /// The time at which OpenD received the trade, in seconds, if sent.
    pub recv_time_bits: Option<u64>,
}

/// Row `r` is trade print `t` of the security with symbol `symbol`.
pub open spec fn spec_row_of(symbol: Seq<char>, t: Ticker, r: TickRow) -> bool {
    &&& r.symbol@ == symbol
    &&& r.side == spec_side_of_dir(t.dir)
    &&& r.price_bits == t.price_bits
    &&& r.volume == t.volume
    &&& r.sequence == t.sequence
    &&& r.recv_time_bits == t.recv_time_bits
}

/// The rows of a ticker push: none when the push has no server part, else
/// one per trade print, in order, each under the symbol of the push's
/// security.
pub fn tick_rows(push: &qot_update_ticker::Response) -> (rows: Vec<TickRow>)
    ensures
        push.s2c.is_none() ==> rows@.len() == 0,
        push.s2c.is_some() ==> {
            let s2c = push.s2c.unwrap();
            &&& rows@.len() == s2c.ticker_list@.len()
            &&& forall|i: int|
                0 <= i < rows@.len() ==> #[trigger] spec_row_of(
                    s2c.security.code@,
                    s2c.ticker_list@[i],
                    rows@[i],
                )
        },
{
    let mut rows: Vec<TickRow> = Vec::new();
    match &push.s2c {
        None => rows,
        Some(s2c) => {
            let mut i: usize = 0;
            while i < s2c.ticker_list.len()
                invariant
                    0 <= i <= s2c.ticker_list@.len(),
                    rows@.len() == i,
                    forall|j: int|
                        0 <= j < i ==> #[trigger] spec_row_of(
                            s2c.security.code@,
                            s2c.ticker_list@[j],
                            rows@[j],
                        ),
                decreases s2c.ticker_list@.len() - i,
            {
                let t = &s2c.ticker_list[i];
                let row = TickRow {
                    symbol: s2c.security.code.clone(),
                    side: TradeSide::from_dir(t.dir),
                    price_bits: t.price_bits,
                    volume: t.volume,
                    sequence: t.sequence,
                    recv_time_bits: t.recv_time_bits,
                };
                rows.push(row);
                i = i + 1;
            }
            rows
        },
    }
}

// ---------------------------------------------------------------------------
// Reconnect policy
// ---------------------------------------------------------------------------

/// What the stream does after a session ended in an error.
pub enum RetryDecision {
    /// Too many consecutive failures: the stream ends with the error.
    GiveUp,
    /// Wait this many seconds, then open a new session.
    RetryAfter { backoff_secs: u64 },
}

/// The reconnect state of one ticker stream. A session that fails is
/// retried after a backoff that doubles on each consecutive failure, up to
/// `max_secs`; after more than `max_retries` consecutive failures the stream
/// gives up. A session that stayed up at least as long as the healthy
/// threshold resets the backoff and the failure count before its own failure
/// counts.
pub struct Backoff {
    pub initial_secs: u64,
    pub max_secs: u64,
    pub max_retries: u8,
    pub healthy_threshold_secs: u64,
    /// The wait before the next retry.
    pub backoff_secs: u64,
    /// Consecutive failures so far.
    pub consecutive_failures: u8,
}

/// A session that lasted `elapsed_nanos` counts as healthy when it lasted
/// at least as long as the threshold.
pub open spec fn spec_was_healthy(threshold_secs: u64, elapsed_nanos: u128) -> bool {
    elapsed_nanos >= threshold_secs * 1_000_000_000
}

/// The state of a stream that has not failed yet.
pub open spec fn spec_fresh_backoff(
    initial_secs: u64,
    max_secs: u64,
    max_retries: u8,
    healthy_threshold_secs: u64,
) -> Backoff {
    Backoff {
        initial_secs,
        max_secs,
        max_retries,
        healthy_threshold_secs,
        backoff_secs: initial_secs,
        consecutive_failures: 0,
    }
}

/// The smaller of two integers.
pub open spec fn spec_min(a: int, b: int) -> int {
    if a <= b {
        a
    } else {
        b
    }
}

impl Backoff {
    /// Failures counted before this one: none after a healthy session.
    pub open spec fn spec_failures_before(self, elapsed_nanos: u128) -> int {
        if spec_was_healthy(self.healthy_threshold_secs, elapsed_nanos) {
            0
        } else {
            self.consecutive_failures as int
        }
    }

    /// The wait in force for this failure: the initial one after a healthy
    /// session.
    pub open spec fn spec_backoff_before(self, elapsed_nanos: u128) -> u64 {
        if spec_was_healthy(self.healthy_threshold_secs, elapsed_nanos) {
            self.initial_secs
        } else {
            self.backoff_secs
        }
    }

    /// Whether this failure makes the stream give up: it would be failure
    /// number `max_retries + 1` or later in a row.
    pub open spec fn spec_gives_up(self, elapsed_nanos: u128) -> bool {
        self.spec_failures_before(elapsed_nanos) >= self.max_retries
    }

    /// When the stream retries, the doubled wait stays within the range of a
    /// `Duration`'s seconds; beyond it the stream panics.
    pub open spec fn spec_can_record_failure(self, elapsed_nanos: u128) -> bool {
        !self.spec_gives_up(elapsed_nanos) ==> self.spec_backoff_before(elapsed_nanos) * 2
            <= u64::MAX
    }

    /// The state and the decision after a session that lasted
    /// `elapsed_nanos` failed. On giving up the count stays where it was.
    pub open spec fn spec_after_failure(self, elapsed_nanos: u128) -> (Backoff, RetryDecision) {
        let failures = self.spec_failures_before(elapsed_nanos);
        let wait = self.spec_backoff_before(elapsed_nanos);
        if self.spec_gives_up(elapsed_nanos) {
            (
                Backoff { consecutive_failures: failures as u8, backoff_secs: wait, ..self },
                RetryDecision::GiveUp,
            )
        } else {
            (
                Backoff {
                    consecutive_failures: (failures + 1) as u8,
                    backoff_secs: spec_min(wait * 2, self.max_secs as int) as u64,
                    ..self
                },
                RetryDecision::RetryAfter { backoff_secs: wait },
            )
        }
    }

    /// The state of a stream that has not failed yet.
    pub fn new(initial_secs: u64, max_secs: u64, max_retries: u8, healthy_threshold_secs: u64) -> (b: Backoff)
        ensures
            b == spec_fresh_backoff(initial_secs, max_secs, max_retries, healthy_threshold_secs),
    {
        Backoff {
            initial_secs,
            max_secs,
            max_retries,
            healthy_threshold_secs,
            backoff_secs: initial_secs,
            consecutive_failures: 0,
        }
    }

    /// Whether the session that lasted `elapsed_nanos` was healthy.
    pub fn was_healthy(&self, elapsed_nanos: u128) -> (h: bool)
        ensures
            h == spec_was_healthy(self.healthy_threshold_secs, elapsed_nanos),
    {
        elapsed_nanos >= (self.healthy_threshold_secs as u128) * 1_000_000_000u128
    }

    /// Whether `on_failure` may be called for a session that lasted
    /// `elapsed_nanos` (see `spec_can_record_failure`).
    pub fn can_record_failure(&self, elapsed_nanos: u128) -> (ok: bool)
        ensures
            ok == self.spec_can_record_failure(elapsed_nanos),
    {
        let healthy = self.was_healthy(elapsed_nanos);
        let failures: u8 = if healthy {
            0
        } else {
            self.consecutive_failures
        };
        let wait: u64 = if healthy {
            self.initial_secs
        } else {
            self.backoff_secs
        };
        let gives_up = failures >= self.max_retries;
        gives_up || wait <= u64::MAX / 2
    }

    /// Records that a session which lasted `elapsed_nanos` failed, and
    /// decides whether and after how long to retry.
    pub fn on_failure(&mut self, elapsed_nanos: u128) -> (d: RetryDecision)
        requires
            old(self).spec_can_record_failure(elapsed_nanos),
        ensures
            (*final(self), d) == old(self).spec_after_failure(elapsed_nanos),
    {
        if self.was_healthy(elapsed_nanos) {
            self.backoff_secs = self.initial_secs;
            self.consecutive_failures = 0;
        }
        if self.consecutive_failures >= self.max_retries {
            return RetryDecision::GiveUp;
        }
        self.consecutive_failures = self.consecutive_failures + 1;
        let wait = self.backoff_secs;
        let doubled = wait * 2;
        self.backoff_secs = if doubled <= self.max_secs {
            doubled
        } else {
            self.max_secs
        };
        RetryDecision::RetryAfter { backoff_secs: wait }
    }
}

/// The wait after `k` consecutive retries, starting from `initial`: doubled
/// each time, and capped at `max` from the first doubling on.
pub open spec fn spec_backoff_after(initial: int, max: int, k: nat) -> int
    decreases k,
{
    if k == 0 {
        initial
    } else {
        spec_min(2 * spec_backoff_after(initial, max, (k - 1) as nat), max)
    }
}

/// The state after `n` consecutive failures of sessions that each lasted
/// `elapsed_nanos`.
pub open spec fn spec_quick_failures(b: Backoff, n: nat, elapsed_nanos: u128) -> Backoff
    decreases n,
{
    if n == 0 {
        b
    } else {
        spec_quick_failures(b, (n - 1) as nat, elapsed_nanos).spec_after_failure(elapsed_nanos).0
    }
}

/// Exponential backoff with a cap: after `k >= 1` retries the wait is
/// `min(initial * 2^k, max)`.
pub proof fn lemma_backoff_doubles_up_to_cap(initial: nat, max: nat, k: nat)
    requires
        k >= 1,
    ensures
        spec_backoff_after(initial as int, max as int, k) == spec_min(
            initial * pow2(k) as int,
            max as int,
        ),
    decreases k,
{
    lemma_pow2_unfold(k);
    if k == 1 {
        assert(pow2(0) == 1) by {
            vstd::arithmetic::power::lemma_pow0(2);
        }
        assert(pow2(1) == 2);
        assert(initial * pow2(1) == initial * 2);
        assert(spec_backoff_after(initial as int, max as int, 0) == initial);
    } else {
        let p = pow2((k - 1) as nat);
        lemma_backoff_doubles_up_to_cap(initial, max, (k - 1) as nat);
        assert(initial * pow2(k) == 2 * (initial * p)) by (nonlinear_arith)
            requires
                pow2(k) == 2 * p,
        ;
        let prev = spec_backoff_after(initial as int, max as int, (k - 1) as nat);
        assert(prev == spec_min((initial * p) as int, max as int));
        assert(spec_backoff_after(initial as int, max as int, k) == spec_min(2 * prev, max as int));
    }
}

/// A stream whose sessions keep failing without ever staying up as long as
/// the healthy threshold retries exactly `max_retries` times and gives up on
/// the failure after that: after `n <= max_retries` such failures it has
/// counted `n`, its next wait is `spec_backoff_after(initial, max, n)`, and
/// the next failure gives up if and only if `n + 1 > max_retries`, else
/// waits that long.
pub proof fn lemma_quick_failures(
    initial_secs: u64,
    max_secs: u64,
    max_retries: u8,
    healthy_threshold_secs: u64,
    elapsed_nanos: u128,
    n: nat,
)
    requires
        !spec_was_healthy(healthy_threshold_secs, elapsed_nanos),
        n <= max_retries,
    ensures
        ({
            let b = spec_quick_failures(
                spec_fresh_backoff(initial_secs, max_secs, max_retries, healthy_threshold_secs),
                n,
                elapsed_nanos,
            );
            &&& b.consecutive_failures == n
            &&& b.backoff_secs == spec_backoff_after(initial_secs as int, max_secs as int, n)
            &&& b.initial_secs == initial_secs && b.max_secs == max_secs
            &&& b.max_retries == max_retries && b.healthy_threshold_secs == healthy_threshold_secs
            &&& (b.spec_after_failure(elapsed_nanos).1 is GiveUp <==> n + 1 > max_retries)
            &&& (n + 1 <= max_retries ==> b.spec_after_failure(elapsed_nanos).1
                == RetryDecision::RetryAfter {
                backoff_secs: b.backoff_secs,
            })
        }),
    decreases n,
{
    if n > 0 {
        lemma_quick_failures(
            initial_secs,
            max_secs,
            max_retries,
            healthy_threshold_secs,
            elapsed_nanos,
            (n - 1) as nat,
        );
        let prev = spec_quick_failures(
            spec_fresh_backoff(initial_secs, max_secs, max_retries, healthy_threshold_secs),
            (n - 1) as nat,
            elapsed_nanos,
        );
        assert(prev.spec_backoff_before(elapsed_nanos) == prev.backoff_secs);
        assert(0 <= spec_min(prev.backoff_secs * 2, max_secs as int) <= max_secs);
    }
}

/// A failure after a healthy session starts the count over: unless no
/// retry is allowed at all, it is counted as the first and the wait is the
/// initial one.
pub proof fn lemma_healthy_failure_resets(b: Backoff, elapsed_nanos: u128)
    requires
        spec_was_healthy(b.healthy_threshold_secs, elapsed_nanos),
    ensures
        b.max_retries >= 1 ==> b.spec_after_failure(elapsed_nanos).0.consecutive_failures == 1,
        b.max_retries >= 1 ==> b.spec_after_failure(elapsed_nanos).1 == (RetryDecision::RetryAfter {
            backoff_secs: b.initial_secs,
        }),
        b.max_retries == 0 ==> (b.spec_after_failure(elapsed_nanos).1 is GiveUp),
{
}

/// Healthy means "stayed up at least the threshold": a session is healthy
/// exactly when it lasted `threshold_secs` seconds or longer, so every
/// longer session is healthy too.
pub proof fn lemma_healthy_means_at_least_threshold(threshold_secs: u64, elapsed_nanos: u128)
    ensures
        spec_was_healthy(threshold_secs, elapsed_nanos) <==> elapsed_nanos >= threshold_secs as int
            * 1_000_000_000,
        forall|longer: u128|
            longer >= elapsed_nanos && spec_was_healthy(threshold_secs, elapsed_nanos) ==> #[trigger] spec_was_healthy(
                threshold_secs,
                longer,
            ),
{
}

/// What one failure does, from any state. A session counts as healthy when
/// it lasted at least the threshold; then the failures before it count as
/// none and the wait in force is the initial one, else they are the count so
/// far and the current wait. The stream gives up when those failures already
/// reach `max_retries`; otherwise it waits that long, counts one more
/// failure, and the next wait is twice this one, capped at `max_secs`. The
/// settings never change.
pub proof fn lemma_failure_outcome(b: Backoff, elapsed_nanos: u128)
    ensures
        ({
            let next = b.spec_after_failure(elapsed_nanos).0;
            let d = b.spec_after_failure(elapsed_nanos).1;
            let healthy = elapsed_nanos >= b.healthy_threshold_secs as int * 1_000_000_000;
            let before: int = if healthy {
                0
            } else {
                b.consecutive_failures as int
            };
            let wait: u64 = if healthy {
                b.initial_secs
            } else {
                b.backoff_secs
            };
            &&& next.initial_secs == b.initial_secs
            &&& next.max_secs == b.max_secs
            &&& next.max_retries == b.max_retries
            &&& next.healthy_threshold_secs == b.healthy_threshold_secs
            &&& (d is GiveUp <==> before >= b.max_retries)
            &&& (d is GiveUp ==> next.consecutive_failures == before)
            &&& (!(d is GiveUp) ==> {
                &&& d == (RetryDecision::RetryAfter { backoff_secs: wait })
                &&& next.consecutive_failures == before + 1
                &&& next.backoff_secs == (if 2 * wait <= b.max_secs {
                    2 * wait
                } else {
                    b.max_secs as int
                })
                &&& next.backoff_secs <= b.max_secs
            })
        }),
{
}

/// A session that stayed up at least the healthy threshold, however long,
/// starts the count over: with any retries allowed, its failure waits the
/// initial time, counts as the first, and the next wait is twice the initial
/// one capped at `max_secs`.
pub proof fn lemma_long_session_resets(b: Backoff, elapsed_nanos: u128)
    requires
        b.max_retries >= 1,
        elapsed_nanos >= b.healthy_threshold_secs as int * 1_000_000_000,
    ensures
        b.spec_after_failure(elapsed_nanos).1 == (RetryDecision::RetryAfter {
            backoff_secs: b.initial_secs,
        }),
        b.spec_after_failure(elapsed_nanos).0.consecutive_failures == 1,
        b.spec_after_failure(elapsed_nanos).0.backoff_secs == (if 2 * b.initial_secs <= b.max_secs {
            2 * b.initial_secs
        } else {
            b.max_secs as int
        }),
{
    lemma_failure_outcome(b, elapsed_nanos);
}

/// The side of each direction code: 1 buy, 2 sell, 3 neutral, any other
/// code unknown.
pub proof fn lemma_side_of_dir(dir: i32)
    ensures
        dir == 1 ==> spec_side_of_dir(dir) == TradeSide::Buy,
        dir == 2 ==> spec_side_of_dir(dir) == TradeSide::Sell,
        dir == 3 ==> spec_side_of_dir(dir) == TradeSide::Neutral,
        dir != 1 && dir != 2 && dir != 3 ==> spec_side_of_dir(dir) == TradeSide::Unknown,
{
}

/// A row made from a trade print carries the print's symbol, sequence,
/// volume, price and receive time, and the side its direction code stands
/// for: 1 buy, 2 sell, 3 neutral, any other code unknown.
pub proof fn lemma_row_of_print(symbol: Seq<char>, t: Ticker, r: TickRow)
    requires
        spec_row_of(symbol, t, r),
    ensures
        r.symbol@ == symbol,
        r.sequence == t.sequence,
        r.volume == t.volume,
        r.price_bits == t.price_bits,
        r.recv_time_bits == t.recv_time_bits,
        t.dir == 1 ==> r.side == TradeSide::Buy,
        t.dir == 2 ==> r.side == TradeSide::Sell,
        t.dir == 3 ==> r.side == TradeSide::Neutral,
        t.dir != 1 && t.dir != 2 && t.dir != 3 ==> r.side == TradeSide::Unknown,
{
}

} // verus!
