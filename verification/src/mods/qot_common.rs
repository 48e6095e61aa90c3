use vstd::prelude::*;

verus! {

/// A security: its market code and its symbol.
pub struct Security {
    pub market: i32,
    pub code: String,
}

impl Clone for Security {
    fn clone(&self) -> (out: Security)
        ensures
            out.market == self.market,
            out.code@ == self.code@,
    {
        Security { market: self.market, code: self.code.clone() }
    }
}

/// Market code of crypto securities.
pub const QOT_MARKET_CC_SECURITY: i32 = 91;

/// The kinds of quote feeds a client can subscribe to.
#[derive(Clone, Copy, PartialEq, Eq, Structural, Debug)]
pub enum SubType {
    Unset,
    Basic,
    OrderBook,
    Ticker,
    Rt,
    KlDay,
    Kl5Min,
    Kl15Min,
    Kl30Min,
    Kl60Min,
    Kl1Min,
    KlWeek,
    KlMonth,
    Broker,
    KlQurater,
    KlYear,
    Kl3Min,
}

/// The protocol's number for each subscription kind.
pub open spec fn spec_sub_type_code(t: SubType) -> i32 {
    match t {
        SubType::Unset => 0,
        SubType::Basic => 1,
        SubType::OrderBook => 2,
        SubType::Ticker => 4,
        SubType::Rt => 5,
        SubType::KlDay => 6,
        SubType::Kl5Min => 7,
        SubType::Kl15Min => 8,
        SubType::Kl30Min => 9,
        SubType::Kl60Min => 10,
        SubType::Kl1Min => 11,
        SubType::KlWeek => 12,
        SubType::KlMonth => 13,
        SubType::Broker => 14,
        SubType::KlQurater => 15,
        SubType::KlYear => 16,
        SubType::Kl3Min => 17,
    }
}

impl SubType {
    /// The protocol's number for this subscription kind.
    pub fn code(&self) -> (c: i32)
        ensures
            c == spec_sub_type_code(*self),
    {
        match self {
            SubType::Unset => 0,
            SubType::Basic => 1,
            SubType::OrderBook => 2,
            SubType::Ticker => 4,
            SubType::Rt => 5,
            SubType::KlDay => 6,
            SubType::Kl5Min => 7,
            SubType::Kl15Min => 8,
            SubType::Kl30Min => 9,
            SubType::Kl60Min => 10,
            SubType::Kl1Min => 11,
            SubType::KlWeek => 12,
            SubType::KlMonth => 13,
            SubType::Broker => 14,
            SubType::KlQurater => 15,
            SubType::KlYear => 16,
            SubType::Kl3Min => 17,
        }
    }
}

/// One trade print. Floating-point fields of the wire message are carried as
/// the bit patterns of their IEEE-754 doubles.
pub struct Ticker {
    pub time: String,
    pub sequence: i64,
    pub dir: i32,
    pub price_bits: u64,
    pub volume: i64,
    pub turnover_bits: u64,
    pub recv_time_bits: Option<u64>,
}

} // verus!
