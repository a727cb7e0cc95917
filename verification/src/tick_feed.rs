//! The tick producer: at each firing, one synthetic price for each of its
//! securities.

use vstd::prelude::*;

use crate::models::Price;
use crate::models::SecurityId;
use crate::models::Tick;
use crate::random::draw_u32;

verus! {

/// The price of a tick is drawn from `TICK_PRICE_LOW..TICK_PRICE_HIGH`.
pub const TICK_PRICE_LOW: Price = 10_000;

pub const TICK_PRICE_HIGH: Price = 20_000;

/// A producer of ticks for a fixed list of securities.
pub struct TickFeed {
    timescale_ms: u64,
    securities: Vec<SecurityId>,
}

impl TickFeed {
    /// The securities that the feed prices, in order.
    pub closed spec fn securities(&self) -> Seq<SecurityId> {
        self.securities@
    }

    /// The time between two firings, in milliseconds.
    pub closed spec fn timescale(&self) -> u64 {
        self.timescale_ms
    }

    /// A feed that prices `securities` every `timescale_ms` milliseconds.
    pub fn new(securities: Vec<SecurityId>, timescale_ms: u64) -> (feed: Self)
        ensures
            feed.securities() == securities@,
            feed.timescale() == timescale_ms,
    {
        TickFeed { timescale_ms, securities }
    }

    /// The time between two firings, in milliseconds.
    pub fn timescale_ms(&self) -> (ms: u64)
        ensures
            ms == self.timescale(),
    {
        self.timescale_ms
    }

    /// The ticks of one firing: one for each security, in order, each with a
    /// price drawn from `TICK_PRICE_LOW..TICK_PRICE_HIGH`.
    pub fn fire(&self) -> (ticks: Vec<Tick>)
        ensures
            ticks@.len() == self.securities().len(),
            forall|i: int|
                0 <= i < ticks@.len() ==> {
                    &&& (#[trigger] ticks@[i]).security_id == self.securities()[i]
                    &&& TICK_PRICE_LOW <= ticks@[i].price < TICK_PRICE_HIGH
                },
    {
        let mut ticks: Vec<Tick> = Vec::new();
        let mut index: usize = 0;
        while index < self.securities.len()
            invariant
                index <= self.securities@.len(),
                ticks@.len() == index,
                forall|i: int|
                    0 <= i < index ==> {
                        &&& (#[trigger] ticks@[i]).security_id == self.securities@[i]
                        &&& TICK_PRICE_LOW <= ticks@[i].price < TICK_PRICE_HIGH
                    },
            decreases self.securities@.len() - index,
        {
            let price = draw_u32(TICK_PRICE_LOW, TICK_PRICE_HIGH);
            ticks.push(Tick { security_id: self.securities[index], price });
            index += 1;
        }
        ticks
    }
}

} // verus!
