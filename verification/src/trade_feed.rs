//! The trade producer. At each firing it makes a batch of opens, each for a
//! portfolio drawn at random, and plans for each the close that follows it
//! after a delay of its own. It alone hands out position ids.

use vstd::prelude::*;

use crate::error::DeskError;
use crate::models::lemma_valuation_bounds;
use crate::models::Position;
use crate::models::PositionId;
use crate::models::Price;
use crate::models::Security;
use crate::models::SecurityId;
use crate::models::Trade;
use crate::models::TradeType;
use crate::random::draw_in_range;
use crate::random::draw_index;
use crate::random::draw_u32;
use crate::security_cache::CacheState;
use crate::security_cache::SecurityCache;

verus! {

/// The number of trades that one firing makes.
pub const BATCH_SIZE: u32 = 5;

/// The size of a position is drawn from `SIZE_LOW..SIZE_HIGH`.
pub const SIZE_LOW: u32 = 1;

pub const SIZE_HIGH: u32 = 500;

/// The price at which a position is opened is drawn from
/// `TRADE_PRICE_LOW..TRADE_PRICE_HIGH`.
pub const TRADE_PRICE_LOW: Price = 5_000;

pub const TRADE_PRICE_HIGH: Price = 100_000;

/// The delay of a close after its open, in milliseconds, is drawn from
/// `CLOSE_DELAY_LOW_MS..CLOSE_DELAY_HIGH_MS`.
pub const CLOSE_DELAY_LOW_MS: u64 = 1;

pub const CLOSE_DELAY_HIGH_MS: u64 = 50;

/// An open to send now, and the close of the same position to send once,
/// `close_after_ms` milliseconds after the open was delivered.
#[derive(Debug, PartialEq, Eq)]
pub struct ScheduledTrade {
    pub open: Trade,
    pub close: Trade,
    pub close_after_ms: u64,
}

impl ScheduledTrade {
    /// The position that the open creates.
    pub open spec fn position(self) -> Position {
        match self.open.trade_type {
            TradeType::Open(position) => position,
            TradeType::Close(_) => arbitrary(),
        }
    }

    /// The open creates a position, and the close is the close of that
    /// position, addressed to the same portfolio.
    pub open spec fn wf(self) -> bool {
        &&& self.open.trade_type is Open
        &&& self.close.trade_type == TradeType::Close(self.position().id)
        &&& self.close.portfolio_code@ == self.open.portfolio_code@
    }

    /// The open of `position` for the portfolio `code`, with its close
    /// `close_after_ms` milliseconds later.
    pub fn new(code: String, position: Position, close_after_ms: u64) -> (scheduled: Self)
        ensures
            scheduled.wf(),
            scheduled.open.portfolio_code@ == code@,
            scheduled.position() == position,
            scheduled.close_after_ms == close_after_ms,
    {
        let id = position.id;
        ScheduledTrade {
            open: Trade { portfolio_code: code.clone(), trade_type: TradeType::Open(position) },
            close: Trade { portfolio_code: code, trade_type: TradeType::Close(id) },
            close_after_ms,
        }
    }

    /// The open, to send now, and the close that waits for its delivery.
    pub fn dispatch(self) -> (parts: (Trade, PendingClose))
        ensures
            parts.0 == self.open,
            parts.1 == (PendingClose { close: self.close, after_ms: self.close_after_ms }),
    {
        (self.open, PendingClose { close: self.close, after_ms: self.close_after_ms })
    }
}

/// The close of a position whose open is on its way.
#[derive(Debug, PartialEq, Eq)]
pub struct PendingClose {
    pub close: Trade,
    pub after_ms: u64,
}

impl PendingClose {
    /// What follows the attempt to deliver the open. If it was delivered,
    /// the close is due after the delay. If it was not, the close is dropped
    /// with it, and `ChannelUnavailable` says so: no close is sent for an
    /// open that never landed.
    pub fn after_open(self, delivered: bool) -> (due: Result<(u64, Trade), DeskError>)
        ensures
            due == (if delivered {
                Ok::<(u64, Trade), DeskError>((self.after_ms, self.close))
            } else {
                Err::<(u64, Trade), DeskError>(DeskError::ChannelUnavailable)
            }),
    {
        if delivered {
            Ok((self.after_ms, self.close))
        } else {
            Err(DeskError::ChannelUnavailable)
        }
    }
}

/// A producer of trades for a fixed list of portfolios.
pub struct TradeFeed {
    timescale_ms: u64,
    portfolios: Vec<String>,
    internal_next_trade_id: u32,
}

impl TradeFeed {
    /// The codes of the portfolios that the feed trades for, in order.
    pub closed spec fn portfolios(&self) -> Seq<Seq<char>> {
        Seq::new(self.portfolios@.len(), |i: int| self.portfolios@[i]@)
    }

    /// The id that the next position gets. Every id below it was handed
    /// out, and none of them is handed out again.
    pub closed spec fn next_id(&self) -> nat {
        self.internal_next_trade_id as nat
    }

    /// The time between two firings, in milliseconds.
    pub closed spec fn timescale(&self) -> u64 {
        self.timescale_ms
    }

    /// A feed that trades for `portfolios` every `timescale_ms`
    /// milliseconds. Its first position gets the id 0.
    pub fn new(portfolios: Vec<String>, timescale_ms: u64) -> (feed: Self)
        ensures
            feed.portfolios().len() == portfolios@.len(),
            forall|i: int| 0 <= i < portfolios@.len() ==> feed.portfolios()[i] == portfolios@[i]@,
            feed.next_id() == 0,
            feed.timescale() == timescale_ms,
    {
        TradeFeed { timescale_ms, portfolios, internal_next_trade_id: 0 }
    }

    /// The time between two firings, in milliseconds.
    pub fn timescale_ms(&self) -> (ms: u64)
        ensures
            ms == self.timescale(),
    {
        self.timescale_ms
    }

    /// The number of portfolios that the feed trades for.
    pub fn portfolio_count(&self) -> (count: usize)
        ensures
            count == self.portfolios().len(),
    {
        self.portfolios.len()
    }

    /// The id that the next position gets.
    pub fn peek_next_trade_id(&self) -> (id: PositionId)
        ensures
            id == self.next_id(),
    {
        self.internal_next_trade_id
    }

    /// Hands out the next position id.
    pub fn next_trade_id(&mut self) -> (id: PositionId)
        requires
            old(self).next_id() < u32::MAX,
        ensures
            id == old(self).next_id(),
            final(self).next_id() == old(self).next_id() + 1,
            final(self).portfolios() == old(self).portfolios(),
            final(self).timescale() == old(self).timescale(),
    {
        let id = self.internal_next_trade_id;
        self.internal_next_trade_id = self.internal_next_trade_id + 1;
        id
    }

    /// A size drawn from `SIZE_LOW..SIZE_HIGH`.
    pub fn gen_size() -> (size: u32)
        ensures
            SIZE_LOW <= size < SIZE_HIGH,
    {
        draw_u32(SIZE_LOW, SIZE_HIGH)
    }

    /// A price drawn from `TRADE_PRICE_LOW..TRADE_PRICE_HIGH`.
    pub fn gen_price() -> (price: Price)
        ensures
            TRADE_PRICE_LOW <= price < TRADE_PRICE_HIGH,
    {
        draw_u32(TRADE_PRICE_LOW, TRADE_PRICE_HIGH)
    }

    /// A delay in milliseconds drawn from
    /// `CLOSE_DELAY_LOW_MS..CLOSE_DELAY_HIGH_MS`.
    pub fn gen_duration() -> (ms: u64)
        ensures
            CLOSE_DELAY_LOW_MS <= ms < CLOSE_DELAY_HIGH_MS,
    {
        draw_in_range(CLOSE_DELAY_LOW_MS, CLOSE_DELAY_HIGH_MS)
    }

    /// A security drawn uniformly from those that `cache` holds; `Empty` if
    /// it holds none.
    pub fn gen_security(cache: &mut SecurityCache) -> (drawn: Result<Security, DeskError>)
        requires
            old(cache).wf(),
        ensures
            final(cache).wf(),
            match drawn {
                Ok(security) => {
                    &&& old(cache)@.security_order.contains(security.id)
                    &&& security.ticker@ == old(cache)@.tickers[security.id]
                    &&& final(cache)@ == old(cache)@.security_read(security.id)
                },
                Err(error) => {
                    &&& error == DeskError::Empty
                    &&& old(cache)@.security_order.len() == 0
                    &&& final(cache)@ == old(cache)@
                },
            },
    {
        cache.get_random_security()
    }

    /// The code of the portfolio at `index`.
    pub fn portfolio_code_at(&self, index: usize) -> (code: String)
        requires
            index < self.portfolios().len(),
        ensures
            code@ == self.portfolios()[index as int],
    {
        self.portfolios[index].clone()
    }

    /// A portfolio drawn uniformly from those of the feed: its index and its
    /// code.
    pub fn pick_random_portfolio(&self) -> (picked: (usize, String))
        requires
            self.portfolios().len() > 0,
        ensures
            picked.0 < self.portfolios().len(),
            picked.1@ == self.portfolios()[picked.0 as int],
    {
        let index = draw_index(self.portfolios.len());
        (index, self.portfolio_code_at(index))
    }

    /// The code of a portfolio drawn uniformly from those of the feed.
    pub fn gen_portfolio_code(&self) -> (code: String)
        requires
            self.portfolios().len() > 0,
        ensures
            self.portfolios().contains(code@),
    {
        let picked = self.pick_random_portfolio();
        assert(self.portfolios()[picked.0 as int] == picked.1@);
        picked.1
    }

    /// The position that opens `size` units of `security` at `price`: its
    /// cost basis is `price * size`, and nothing is gained or lost yet.
    pub fn mock_position(id: PositionId, security: Security, size: u32, price: Price) -> (position:
        Position)
        ensures
            position == (Position {
                id,
                security,
                cost_basis: (price * size) as u64,
                size,
                unrealized_pnl: 0,
            }),
            position.cost_basis == price * size,
            size > 0 ==> position.wf(),
    {
        proof {
            lemma_valuation_bounds(price, size, 0);
        }
        let cost_basis: u64 = (price as u64) * (size as u64);
        Position::new(id, security, size, cost_basis)
    }

    /// Whether `position` is one that the feed opens in `security` with the
    /// id `id`: a size and a price from their ranges, the cost basis their
    /// product, and nothing gained or lost yet.
    pub open spec fn opens(id: nat, security: Security, position: Position) -> bool {
        &&& position.id == id
        &&& position.security == security
        &&& SIZE_LOW <= position.size < SIZE_HIGH
        &&& exists|price: Price|
            TRADE_PRICE_LOW <= price < TRADE_PRICE_HIGH && position.cost_basis == #[trigger] (price
                * position.size)
        &&& position.unrealized_pnl == 0
        &&& position.wf()
    }

    /// Whether `position` is one that the feed makes with the id `id` from
    /// what `cache` holds: a position that it opens in a security of the
    /// cache.
    pub open spec fn makes(cache: CacheState, id: nat, position: Position) -> bool {
        &&& cache.security_order.contains(position.security.id)
        &&& position.security.ticker@ == cache.tickers[position.security.id]
        &&& Self::opens(id, position.security, position)
    }

    /// A position in `security` with the next id, of a size and at a price
    /// drawn from their ranges.
    pub fn open_position(&mut self, security: Security) -> (position: Position)
        requires
            old(self).next_id() < u32::MAX,
        ensures
            Self::opens(old(self).next_id(), security, position),
            final(self).next_id() == old(self).next_id() + 1,
            final(self).portfolios() == old(self).portfolios(),
            final(self).timescale() == old(self).timescale(),
    {
        let size = Self::gen_size();
        let price = Self::gen_price();
        let id = self.next_trade_id();
        let position = Self::mock_position(id, security, size, price);
        assert(position.cost_basis == price * position.size);
        position
    }

    /// A position with the next id, for a security drawn from `cache`, of a
    /// size and at a price drawn from their ranges; `Empty` if the cache
    /// holds no security, in which case no id is used.
    pub fn gen_mock_position(&mut self, cache: &mut SecurityCache) -> (made: Result<
        Position,
        DeskError,
    >)
        requires
            old(cache).wf(),
            old(self).next_id() < u32::MAX,
        ensures
            final(cache).wf(),
            final(self).portfolios() == old(self).portfolios(),
            final(self).timescale() == old(self).timescale(),
            match made {
                Ok(position) => {
                    &&& Self::makes(old(cache)@, old(self).next_id(), position)
                    &&& final(self).next_id() == old(self).next_id() + 1
                    &&& final(cache)@ == old(cache)@.security_read(position.security.id)
                },
                Err(error) => {
                    &&& error == DeskError::Empty
                    &&& old(cache)@.security_order.len() == 0
                    &&& final(self).next_id() == old(self).next_id()
                    &&& final(cache)@ == old(cache)@
                },
            },
    {
        match Self::gen_security(cache) {
            Err(error) => Err(error),
            Ok(security) => Ok(self.open_position(security)),
        }
    }

    /// Whether `entry` is a trade that the feed plans in `security` with the
    /// id `id`: an open and its close for one of `portfolios`, the position
    /// one that the feed opens, and a delay from its range.
    pub open spec fn plans(
        portfolios: Seq<Seq<char>>,
        id: nat,
        security: Security,
        entry: ScheduledTrade,
    ) -> bool {
        &&& entry.wf()
        &&& portfolios.contains(entry.open.portfolio_code@)
        &&& Self::opens(id, security, entry.position())
        &&& CLOSE_DELAY_LOW_MS <= entry.close_after_ms < CLOSE_DELAY_HIGH_MS
    }

    /// One trade in `security`: the open of a new position for a portfolio
    /// drawn at random, with its close and the delay after which the close
    /// is due.
    pub fn mock_trade(&mut self, security: Security) -> (entry: ScheduledTrade)
        requires
            old(self).portfolios().len() > 0,
            old(self).next_id() < u32::MAX,
        ensures
            Self::plans(old(self).portfolios(), old(self).next_id(), security, entry),
            final(self).next_id() == old(self).next_id() + 1,
            final(self).portfolios() == old(self).portfolios(),
            final(self).timescale() == old(self).timescale(),
    {
        let code = self.gen_portfolio_code();
        let position = self.open_position(security);
        let delay = Self::gen_duration();
        ScheduledTrade::new(code, position, delay)
    }

    /// The ids of the securities of the positions that `trades` open, in
    /// order.
    pub open spec fn traded(trades: Seq<ScheduledTrade>) -> Seq<SecurityId> {
        Seq::new(trades.len(), |i: int| trades[i].position().security.id)
    }

    /// The trades of one firing: `BATCH_SIZE` trades with consecutive new
    /// ids, each in a security drawn from `cache` and read there. `Empty`,
    /// and nothing changed, if `cache` holds no security to trade.
    pub fn schedule_trade_generation(&mut self, cache: &mut SecurityCache) -> (batch: Result<
        Vec<ScheduledTrade>,
        DeskError,
    >)
        requires
            old(cache).wf(),
            old(self).portfolios().len() > 0,
            old(self).next_id() + BATCH_SIZE <= u32::MAX,
        ensures
            final(cache).wf(),
            final(self).portfolios() == old(self).portfolios(),
            final(self).timescale() == old(self).timescale(),
            match batch {
                Ok(trades) => {
                    &&& old(cache)@.security_order.len() > 0
                    &&& trades@.len() == BATCH_SIZE
                    &&& final(self).next_id() == old(self).next_id() + BATCH_SIZE
                    &&& forall|i: int|
                        0 <= i < trades@.len() ==> {
                            &&& Self::plans(
                                old(self).portfolios(),
                                (old(self).next_id() + i) as nat,
                                (#[trigger] trades@[i]).position().security,
                                trades@[i],
                            )
                            &&& Self::makes(
                                old(cache)@,
                                (old(self).next_id() + i) as nat,
                                trades@[i].position(),
                            )
                        }
                    &&& final(cache)@ == old(cache)@.securities_read(Self::traded(trades@))
                },
                Err(error) => {
                    &&& error == DeskError::Empty
                    &&& old(cache)@.security_order.len() == 0
                    &&& final(self).next_id() == old(self).next_id()
                    &&& final(cache)@ == old(cache)@
                },
            },
    {
        if cache.security_count() == 0 {
            return Err(DeskError::Empty);
        }
        let ghost start = cache@;
        let ghost first_id = self.next_id();
        let ghost portfolios = self.portfolios();
        let mut trades: Vec<ScheduledTrade> = Vec::new();
        let mut made: u32 = 0;
        proof {
            cache.lemma_wf();
            assert(Self::traded(trades@) =~= Seq::<SecurityId>::empty());
        }
        while made < BATCH_SIZE
            invariant
                made <= BATCH_SIZE,
                trades@.len() == made,
                start == old(cache)@,
                start.wf(),
                first_id == old(self).next_id(),
                portfolios == old(self).portfolios(),
                first_id + BATCH_SIZE <= u32::MAX,
                portfolios.len() > 0,
                self.portfolios() == portfolios,
                self.timescale() == old(self).timescale(),
                self.next_id() == first_id + made,
                cache.wf(),
                start.security_order.len() > 0,
                cache@ == start.securities_read(Self::traded(trades@)),
                forall|i: int|
                    0 <= i < made ==> {
                        &&& Self::plans(
                            portfolios,
                            (first_id + i) as nat,
                            (#[trigger] trades@[i]).position().security,
                            trades@[i],
                        )
                        &&& Self::makes(start, (first_id + i) as nat, trades@[i].position())
                    },
            decreases BATCH_SIZE - made,
        {
            let ghost current = cache@;
            let ghost so_far = trades@;
            proof {
                start.lemma_securities_read(Self::traded(so_far));
            }
            match Self::gen_security(cache) {
                Err(error) => {
                    return Err(error);
                },
                Ok(security) => {
                    proof {
                        assert(current.security_order.to_set().contains(security.id));
                        assert(start.security_order.to_set().contains(security.id));
                    }
                    let entry = self.mock_trade(security);
                    trades.push(entry);
                    proof {
                        assert(Self::traded(trades@).drop_last() =~= Self::traded(so_far));
                        assert(Self::traded(trades@).last() == security.id);
                    }
                },
            }
            made = made + 1;
        }
        Ok(trades)
    }
}

} // verus!
