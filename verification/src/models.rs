//! The data model of the desk: securities, positions, ticks, trades and the
//! statistics that a portfolio reports.
//!
//! Money is counted in whole minor units of the currency (hundredths), so that
//! every amount is an integer and the profit-and-loss arithmetic is exact.

use vstd::prelude::*;

verus! {

pub type SecurityId = u32;

pub type PositionId = u32;

/// A price per unit of a security, in minor currency units.
pub type Price = u32;

/// A signed amount of money, in minor currency units.
pub type Amount = i128;

/// The number of minor currency units in one unit of the currency.
pub const MINOR_UNITS: u32 = 100;

/// Every unrealized profit or loss of a position lies strictly between
/// `-PNL_LIMIT` and `PNL_LIMIT`: the market value `price * size` and the cost
/// basis are both below 2^64.
pub const PNL_LIMIT: i128 = 0x1_0000_0000_0000_0000;

/// A tradable instrument. Its identity is `id`.
#[derive(Debug, PartialEq, Eq)]
pub struct Security {
    pub id: SecurityId,
    pub ticker: String,
}

impl Clone for Security {
    fn clone(&self) -> (copy: Self)
        ensures
            copy == *self,
    {
        Security { id: self.id, ticker: self.ticker.clone() }
    }
}

/// An open holding with a fixed cost basis and a derived unrealized
/// profit or loss.
#[derive(Debug, PartialEq, Eq)]
pub struct Position {
    pub id: PositionId,
    pub security: Security,
    pub cost_basis: u64,
    pub size: u32,
    pub unrealized_pnl: Amount,
}

impl Position {
    /// A position holds at least one unit, and its unrealized profit or loss
    /// is one that a valuation can produce.
    pub open spec fn wf(&self) -> bool {
        &&& self.size > 0
        &&& -PNL_LIMIT < self.unrealized_pnl < PNL_LIMIT
    }

    /// The unrealized profit or loss of this position at `price`.
    pub open spec fn valuation(&self, price: Price) -> int {
        price * self.size - self.cost_basis
    }

    /// This position with its unrealized profit or loss taken at `price`.
    pub open spec fn revalued(self, price: Price) -> Position {
        Position { unrealized_pnl: self.valuation(price) as i128, ..self }
    }

    /// A position as it is opened: nothing gained or lost yet.
    pub fn new(id: PositionId, security: Security, size: u32, cost_basis: u64) -> (position: Self)
        ensures
            position == (Position { id, security, cost_basis, size, unrealized_pnl: 0 }),
    {
        Position { id, security, cost_basis, size, unrealized_pnl: 0 }
    }

    /// Whether this position is well formed.
    pub fn is_wf(&self) -> (ok: bool)
        ensures
            ok == self.wf(),
    {
        self.size > 0 && -PNL_LIMIT < self.unrealized_pnl && self.unrealized_pnl < PNL_LIMIT
    }

    /// Sets the unrealized profit or loss to `price * size - cost_basis`.
    pub fn revalue(&mut self, price: Price)
        ensures
            *final(self) == old(self).revalued(price),
            -PNL_LIMIT < old(self).valuation(price) < PNL_LIMIT,
            old(self).size > 0 ==> final(self).wf(),
    {
        proof {
            lemma_valuation_bounds(price, self.size, self.cost_basis);
        }
        let value: i128 = (price as i128) * (self.size as i128);
        self.unrealized_pnl = value - (self.cost_basis as i128);
    }
}

impl Clone for Position {
    fn clone(&self) -> (copy: Self)
        ensures
            copy == *self,
    {
        Position {
            id: self.id,
            security: self.security.clone(),
            cost_basis: self.cost_basis,
            size: self.size,
            unrealized_pnl: self.unrealized_pnl,
        }
    }
}

/// The market value of a holding is below 2^64, and so is its cost basis:
/// their difference lies strictly within the limit.
pub proof fn lemma_valuation_bounds(price: Price, size: u32, cost_basis: u64)
    ensures
        0 <= price * size < PNL_LIMIT,
        -PNL_LIMIT < price * size - cost_basis < PNL_LIMIT,
{
    assert(0 <= price * size <= 0xFFFF_FFFF * 0xFFFF_FFFF) by (nonlinear_arith)
        requires
            0 <= price <= 0xFFFF_FFFF,
            0 <= size <= 0xFFFF_FFFF,
    ;
}

/// A single price update for one security.
#[derive(Debug, Clone, Copy, PartialEq, Eq)]
pub struct Tick {
    pub security_id: SecurityId,
    pub price: Price,
}

/// What a trade does: it creates a position or realizes and removes one.
#[derive(Debug, PartialEq, Eq)]
pub enum TradeType {
    Open(Position),
    Close(PositionId),
}

/// A trade event, addressed to the portfolio with the given code.
#[derive(Debug, PartialEq, Eq)]
pub struct Trade {
    pub portfolio_code: String,
    pub trade_type: TradeType,
}

/// A point-in-time report of one portfolio.
#[derive(Debug, PartialEq, Eq)]
pub struct PortfolioStats {
    pub code: String,
    pub positions: Vec<Position>,
    pub trade_count: u32,
    pub realized_pnl: Amount,
    pub unrealized_pnl_total: Amount,
}

/// The sum of the unrealized profit or loss over `positions`.
pub open spec fn total_unrealized(positions: Seq<Position>) -> int
    decreases positions.len(),
{
    if positions.len() == 0 {
        0
    } else {
        total_unrealized(positions.drop_last()) + positions.last().unrealized_pnl
    }
}

} // verus!
