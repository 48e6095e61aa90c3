//! Counters that the periodic metrics report reads.
use vstd::prelude::*;

verus! {

/// Counts the reconnects of one ticker stream since the last report.
pub struct ReconnectCounter {
    count: u64,
}

impl View for ReconnectCounter {
    type V = u64;

    closed spec fn view(&self) -> u64 {
        self.count
    }
}

/// One more than `n`, wrapping around at the end of the `u64` range.
pub open spec fn spec_bumped(n: u64) -> u64 {
    if n == u64::MAX {
        0
    } else {
        (n + 1) as u64
    }
}

impl Default for ReconnectCounter {
    fn default() -> (c: ReconnectCounter)
        ensures
            c@ == 0,
    {
        ReconnectCounter { count: 0 }
    }
}

impl ReconnectCounter {
    /// Counts one more reconnect (wrapping around at the end of the `u64`
    /// range).
    pub fn bump(&mut self)
        ensures
            final(self)@ == spec_bumped(old(self)@),
    {
        self.count = if self.count == u64::MAX {
            0
        } else {
            self.count + 1
        };
    }

    /// Returns the reconnects counted so far and starts the count over.
    pub fn take(&mut self) -> (n: u64)
        ensures
            n == old(self)@,
            final(self)@ == 0,
    {
        let n = self.count;
        self.count = 0;
        n
    }
}

/// The count after `k` bumps from `n`.
pub open spec fn spec_bumps(n: u64, k: nat) -> u64
    decreases k,
{
    if k == 0 {
        n
    } else {
        spec_bumped(spec_bumps(n, (k - 1) as nat))
    }
}

/// `take` reports the number of bumps since the previous `take`: after `k`
/// bumps from zero the count is `k` modulo 2^64.
pub proof fn lemma_take_counts_bumps(k: nat)
    ensures
        spec_bumps(0, k) == k % 0x1_0000_0000_0000_0000,
    decreases k,
{
    if k > 0 {
        lemma_take_counts_bumps((k - 1) as nat);
    }
}

/// Figures of the last flush to the database.
pub struct QdbStats {
    /// How long the last flush took, in microseconds.
    pub last_flush_micros: u64,
    /// Rows flushed since the last report.
    pub rows_flushed: u64,
}

impl Default for QdbStats {
    fn default() -> (s: QdbStats)
        ensures
            s.last_flush_micros == 0,
            s.rows_flushed == 0,
    {
        QdbStats { last_flush_micros: 0, rows_flushed: 0 }
    }
}

} // verus!
