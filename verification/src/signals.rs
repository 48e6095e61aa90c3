//! The bookkeeping of the moving-average signal: the window of the last
//! prices and the side of the last signal. The average itself and the
//! comparison of a price against it are done over floating point, where
//! the signal is assembled.
use std::collections::VecDeque;
use vstd::prelude::*;

verus! {

/// How many of the latest values the moving average spans.
pub const WINDOW: usize = 20;

/// The latest values, at most `WINDOW` of them, oldest first.
pub struct SlidingWindow<T> {
    items: VecDeque<T>,
}

impl<T> View for SlidingWindow<T> {
    type V = Seq<T>;

    closed spec fn view(&self) -> Seq<T> {
        self.items@
    }
}

/// The window after `x` arrives: `x` is appended, and the oldest value
/// leaves when that makes more than `WINDOW`.
pub open spec fn spec_window_push<T>(w: Seq<T>, x: T) -> Seq<T> {
    if w.len() + 1 > WINDOW {
        w.push(x).subrange(1, w.len() + 1int)
    } else {
        w.push(x)
    }
}

/// The window after the values `xs` arrived, one by one, into `w`.
pub open spec fn spec_window_after<T>(w: Seq<T>, xs: Seq<T>) -> Seq<T>
    decreases xs.len(),
{
    if xs.len() == 0 {
        w
    } else {
        spec_window_push(spec_window_after(w, xs.drop_last()), xs.last())
    }
}

impl<T> SlidingWindow<T> {
    /// An empty window.
    pub fn new() -> (w: SlidingWindow<T>)
        ensures
            w@ == Seq::<T>::empty(),
    {
        SlidingWindow { items: VecDeque::new() }
    }

    /// Takes in `x`, dropping the oldest value when the window overflows.
    pub fn push(&mut self, x: T)
        ensures
            final(self)@ == spec_window_push(old(self)@, x),
    {
        self.items.push_back(x);
        if self.items.len() > WINDOW {
            self.items.pop_front();
        }
    }

    /// How many values the window holds.
    pub fn len(&self) -> (n: usize)
        ensures
            n == self@.len(),
    {
        self.items.len()
    }

    /// Whether the window holds `WINDOW` values, so that its average may be
    /// taken.
    pub fn is_full(&self) -> (b: bool)
        ensures
            b == (self@.len() >= WINDOW),
    {
        self.items.len() >= WINDOW
    }

    /// The values, oldest first.
    pub fn items(&self) -> (d: &VecDeque<T>)
        ensures
            d@ == self@,
    {
        &self.items
    }
}

/// Started empty, the window holds the last `min(n, WINDOW)` of the `n`
/// values that arrived, in arrival order.
pub proof fn lemma_window_keeps_latest<T>(xs: Seq<T>)
    ensures
        spec_window_after(Seq::<T>::empty(), xs) == if xs.len() <= WINDOW {
            xs
        } else {
            xs.subrange(xs.len() - WINDOW, xs.len() as int)
        },
    decreases xs.len(),
{
    if xs.len() > 0 {
        let ys = xs.drop_last();
        lemma_window_keeps_latest(ys);
        let w = spec_window_after(Seq::<T>::empty(), ys);
        if xs.len() <= WINDOW {
            assert(w.push(xs.last()) =~= xs);
        } else if ys.len() < WINDOW {
            assert(w.push(xs.last()).subrange(1, w.len() + 1int) =~= xs.subrange(
                xs.len() - WINDOW,
                xs.len() as int,
            ));
        } else {
            assert(w.push(xs.last()).subrange(1, w.len() + 1int) =~= xs.subrange(
                xs.len() - WINDOW,
                xs.len() as int,
            ));
        }
    }
}

/// The side a signal points to.
#[derive(Clone, Copy, PartialEq, Eq, Structural, Debug)]
pub enum SignalSide {
    Buy,
    Sell,
}

impl SignalSide {
    /// The label written for this side: "BUY" or "SELL".
    pub fn label(&self) -> (l: &'static str)
        ensures
            *self is Buy ==> l@ == "BUY"@,
            *self is Sell ==> l@ == "SELL"@,
    {
        match self {
            SignalSide::Buy => "BUY",
            SignalSide::Sell => "SELL",
        }
    }
}

/// Remembers the side of the last full-window observation, so that a signal
/// goes out only when the side changes.
pub struct SideTracker {
    pub last_side: Option<SignalSide>,
}

impl SideTracker {
    /// A tracker that has seen no side yet.
    pub fn new() -> (t: SideTracker)
        ensures
            t.last_side.is_none(),
    {
        SideTracker { last_side: None }
    }

    /// Records `side`; returns whether it differs from the side recorded
    /// before (always so for the first one), that is, whether a signal goes
    /// out.
    pub fn observe(&mut self, side: SignalSide) -> (changed: bool)
        ensures
            changed == (old(self).last_side != Some(side)),
            final(self).last_side == Some(side),
    {
        let changed = match self.last_side {
            Some(prev) => prev != side,
            None => true,
        };
        self.last_side = Some(side);
        changed
    }
}

} // verus!
