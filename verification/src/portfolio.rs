//! A portfolio: one account's positions, its realized profit and loss and
//! its count of trades. It alone changes them, one message at a time.

use vstd::prelude::*;

use crate::error::DeskError;
use crate::models::lemma_valuation_bounds;
use crate::models::total_unrealized;
use crate::models::Amount;
use crate::models::PortfolioStats;
use crate::models::Position;
use crate::models::PositionId;
use crate::models::Price;
use crate::models::SecurityId;
use crate::models::Trade;
use crate::models::TradeType;
use crate::models::PNL_LIMIT;
use crate::security_cache::SecurityCache;
use crate::stats::PortfolioStatsEvent;

verus! {

/// What became of a trade that a portfolio was handed.
#[derive(Debug, Clone, Copy, PartialEq, Eq, Structural)]
pub enum TradeOutcome {
    /// The trade was addressed to another portfolio and changed nothing.
    Ignored,
    /// The position was taken into the portfolio.
    Opened,
    /// The position was removed and its profit or loss realized.
    Closed,
}

/// What a portfolio holds: its code, its positions in the order in which
/// they were opened, the profit and loss realized so far, and the number of
/// trades processed.
pub struct PortfolioState {
    pub code: Seq<char>,
    pub positions: Seq<Position>,
    pub realized_pnl: int,
    pub trade_count: nat,
}

impl PortfolioState {
    /// A portfolio that has seen no trade.
    pub open spec fn fresh(code: Seq<char>) -> PortfolioState {
        PortfolioState { code, positions: Seq::empty(), realized_pnl: 0, trade_count: 0 }
    }

    /// Whether the portfolio holds a position with this id.
    pub open spec fn holds(self, id: PositionId) -> bool {
        exists|i: int| 0 <= i < self.positions.len() && #[trigger] self.positions[i].id == id
    }

    /// Where the position with this id stands, if the portfolio holds it.
    pub open spec fn index_of(self, id: PositionId) -> int {
        choose|i: int| 0 <= i < self.positions.len() && #[trigger] self.positions[i].id == id
    }

    /// The position with this id, if the portfolio holds it.
    pub open spec fn position(self, id: PositionId) -> Option<Position> {
        if self.holds(id) {
            Some(self.positions[self.index_of(id)])
        } else {
            None
        }
    }

    /// No two positions share an id, every position is well formed, each
    /// position was opened by a trade that was counted, the count fits its
    /// type, and the realized profit and loss is within what that many closes
    /// can have realized.
    pub open spec fn wf(self) -> bool {
        &&& forall|i: int, j: int|
            0 <= i < self.positions.len() && 0 <= j < self.positions.len() && i != j
                ==> self.positions[i].id != self.positions[j].id
        &&& forall|i: int| 0 <= i < self.positions.len() ==> (#[trigger] self.positions[i]).wf()
        &&& self.positions.len() <= self.trade_count <= u32::MAX
        &&& -(self.trade_count * PNL_LIMIT) <= self.realized_pnl <= self.trade_count * PNL_LIMIT
    }

    /// Whether the trade is addressed to this portfolio.
    pub open spec fn addressed_by(self, trade: Trade) -> bool {
        trade.portfolio_code@ == self.code
    }

    /// The portfolio after the trade. A trade for another portfolio changes
    /// nothing. Any other trade is counted once; an open puts the position
    /// under its id, in the place of one that had the same id; a close of a
    /// position that is held removes it and adds its unrealized profit or
    /// loss, as stored, to the realized one; a close of a position that is
    /// not held does no more than count.
    pub open spec fn apply(self, trade: Trade) -> PortfolioState {
        if !self.addressed_by(trade) {
            self
        } else {
            match trade.trade_type {
                TradeType::Open(position) => PortfolioState {
                    positions: if self.holds(position.id) {
                        self.positions.update(self.index_of(position.id), position)
                    } else {
                        self.positions.push(position)
                    },
                    trade_count: self.trade_count + 1,
                    ..self
                },
                TradeType::Close(id) => if self.holds(id) {
                    PortfolioState {
                        positions: self.positions.remove(self.index_of(id)),
                        realized_pnl: self.realized_pnl + self.positions[self.index_of(
                            id,
                        )].unrealized_pnl,
                        trade_count: self.trade_count + 1,
                        ..self
                    }
                } else {
                    PortfolioState { trade_count: self.trade_count + 1, ..self }
                },
            }
        }
    }

    /// What the portfolio answers to the trade.
    pub open spec fn outcome(self, trade: Trade) -> Result<TradeOutcome, DeskError> {
        if !self.addressed_by(trade) {
            Ok(TradeOutcome::Ignored)
        } else {
            match trade.trade_type {
                TradeType::Open(_) => Ok(TradeOutcome::Opened),
                TradeType::Close(id) => if self.holds(id) {
                    Ok(TradeOutcome::Closed)
                } else {
                    Err(DeskError::PositionNotFound(id))
                },
            }
        }
    }

    /// Whether the portfolio can take the trade: a trade addressed to it
    /// needs room in the count of trades, and a position to open must be
    /// well formed.
    pub open spec fn accepts(self, trade: Trade) -> bool {
        self.addressed_by(trade) ==> {
            &&& self.trade_count < u32::MAX
            &&& trade.trade_type matches TradeType::Open(position) ==> position.wf()
        }
    }

    /// A trade that a well-formed portfolio accepts leaves it well formed.
    pub proof fn lemma_apply_wf(self, trade: Trade)
        requires
            self.wf(),
            self.accepts(trade),
        ensures
            self.apply(trade).wf(),
    {
        let after = self.apply(trade);
        if self.addressed_by(trade) {
            match trade.trade_type {
                TradeType::Open(position) => {
                    if self.holds(position.id) {
                        let at = self.index_of(position.id);
                        assert forall|i: int| 0 <= i < after.positions.len() implies (
                        #[trigger] after.positions[i]).wf() && after.positions[i].id
                            == self.positions[i].id by {
                            if i != at {
                                assert(self.positions[i].wf());
                            }
                        }
                    } else {
                        assert forall|i: int| 0 <= i < self.positions.len() implies (
                        #[trigger] after.positions[i]) == self.positions[i] by {}
                        assert forall|i: int| 0 <= i < after.positions.len() implies (
                        #[trigger] after.positions[i]).wf() by {
                            if i < self.positions.len() {
                                assert(self.positions[i].wf());
                            }
                        }
                        assert forall|i: int, j: int|
                            0 <= i < after.positions.len() && 0 <= j < after.positions.len() && i
                                != j implies after.positions[i].id != after.positions[j].id by {
                            if i < self.positions.len() {
                                assert(self.positions[i].id != position.id);
                            }
                            if j < self.positions.len() {
                                assert(self.positions[j].id != position.id);
                            }
                        }
                    }
                },
                TradeType::Close(id) => {
                    if self.holds(id) {
                        let at = self.index_of(id);
                        assert(self.positions[at].wf());
                        assert forall|i: int| 0 <= i < after.positions.len() implies (
                        #[trigger] after.positions[i]) == self.positions[if i < at {
                            i
                        } else {
                            i + 1
                        }] by {}
                        assert forall|i: int| 0 <= i < after.positions.len() implies (
                        #[trigger] after.positions[i]).wf() by {
                            assert(self.positions[if i < at {
                                i
                            } else {
                                i + 1
                            }].wf());
                        }
                    }
                },
            }
        }
    }

    /// The portfolio after every position whose security has a price in
    /// `prices` is valued at that price. The other positions stay as they
    /// are.
    pub open spec fn revalued(self, prices: Map<SecurityId, Price>) -> PortfolioState {
        PortfolioState {
            positions: Seq::new(
                self.positions.len(),
                |i: int|
                    if prices.contains_key(self.positions[i].security.id) {
                        self.positions[i].revalued(prices[self.positions[i].security.id])
                    } else {
                        self.positions[i]
                    },
            ),
            ..self
        }
    }

    /// A valuation keeps a portfolio well formed.
    pub proof fn lemma_revalued_wf(self, prices: Map<SecurityId, Price>)
        requires
            self.wf(),
        ensures
            self.revalued(prices).wf(),
    {
        let after = self.revalued(prices);
        assert forall|i: int| 0 <= i < after.positions.len() implies (
        #[trigger] after.positions[i]).wf() && after.positions[i].id == self.positions[i].id by {
            let held = self.positions[i];
            assert(held.wf());
            if prices.contains_key(held.security.id) {
                lemma_valuation_bounds(prices[held.security.id], held.size, held.cost_basis);
            }
        }
    }

    /// The ids of the securities of the positions, in their order.
    pub open spec fn security_ids(self) -> Seq<SecurityId> {
        Seq::new(self.positions.len(), |i: int| self.positions[i].security.id)
    }

    /// The report of this portfolio as it stands.
    pub open spec fn report_matches(self, stats: PortfolioStats) -> bool {
        &&& stats.code@ == self.code
        &&& stats.positions@ == self.positions
        &&& stats.trade_count == self.trade_count
        &&& stats.realized_pnl == self.realized_pnl
        &&& stats.unrealized_pnl_total == total_unrealized(self.positions)
    }
}

/// The ids of those of `positions` whose security has no price in `prices`,
/// in their order.
pub open spec fn stale_ids(positions: Seq<Position>, prices: Map<SecurityId, Price>) -> Seq<
    PositionId,
>
    decreases positions.len(),
{
    if positions.len() == 0 {
        Seq::empty()
    } else {
        let rest = stale_ids(positions.drop_last(), prices);
        if prices.contains_key(positions.last().security.id) {
            rest
        } else {
            rest.push(positions.last().id)
        }
    }
}

/// The sum of the unrealized profit or loss of well-formed positions is
/// within the limit of one position times their number.
pub proof fn lemma_total_unrealized_bounds(positions: Seq<Position>)
    requires
        forall|i: int| 0 <= i < positions.len() ==> (#[trigger] positions[i]).wf(),
    ensures
        -(positions.len() * PNL_LIMIT) <= total_unrealized(positions) <= positions.len()
            * PNL_LIMIT,
    decreases positions.len(),
{
    if positions.len() > 0 {
        let rest = positions.drop_last();
        assert forall|i: int| 0 <= i < rest.len() implies (#[trigger] rest[i]).wf() by {
            assert(rest[i] == positions[i]);
        }
        lemma_total_unrealized_bounds(rest);
        assert(positions.last().wf());
        assert(positions.len() * PNL_LIMIT == rest.len() * PNL_LIMIT + PNL_LIMIT) by {
            assert(positions.len() == rest.len() + 1);
        }
    }
}

/// One account: its positions, its realized profit and loss, and its count
/// of trades.
pub struct Portfolio {
    code: String,
    positions: Vec<Position>,
    pnl: Amount,
    trade_count: u32,
}

impl View for Portfolio {
    type V = PortfolioState;

    closed spec fn view(&self) -> PortfolioState {
        PortfolioState {
            code: self.code@,
            positions: self.positions@,
            realized_pnl: self.pnl as int,
            trade_count: self.trade_count as nat,
        }
    }
}

impl Portfolio {
    /// The state of the portfolio is well formed.
    pub open spec fn wf(&self) -> bool {
        self@.wf()
    }

    /// A portfolio for the account `code` that has seen no trade.
    pub fn new(code: String) -> (portfolio: Self)
        ensures
            portfolio.wf(),
            portfolio@ == PortfolioState::fresh(code@),
    {
        Portfolio { code, positions: Vec::new(), pnl: 0, trade_count: 0 }
    }

    /// The code of the account.
    pub fn code(&self) -> (code: &String)
        ensures
            code@ == self@.code,
    {
        &self.code
    }

    /// The number of trades processed.
    pub fn trade_count(&self) -> (count: u32)
        ensures
            count == self@.trade_count,
    {
        self.trade_count
    }

    /// The profit and loss realized so far.
    pub fn realized_pnl(&self) -> (pnl: Amount)
        ensures
            pnl == self@.realized_pnl,
    {
        self.pnl
    }

    /// The number of positions held.
    pub fn position_count(&self) -> (count: usize)
        ensures
            count == self@.positions.len(),
    {
        self.positions.len()
    }

    /// Where the position with this id stands, if the portfolio holds it.
    fn find(&self, id: PositionId) -> (found: Option<usize>)
        ensures
            match found {
                Some(index) => {
                    &&& index < self@.positions.len()
                    &&& self@.positions[index as int].id == id
                    &&& self@.holds(id)
                    &&& self.wf() ==> self@.index_of(id) == index
                },
                None => !self@.holds(id),
            },
    {
        let mut index: usize = 0;
        while index < self.positions.len()
            invariant
                index <= self.positions@.len(),
                forall|j: int| 0 <= j < index ==> self.positions@[j].id != id,
            decreases self.positions@.len() - index,
        {
            if self.positions[index].id == id {
                return Some(index);
            }
            index += 1;
        }
        None
    }

    /// The position with this id, if the portfolio holds it.
    pub fn position(&self, id: PositionId) -> (held: Option<Position>)
        requires
            self.wf(),
        ensures
            held == self@.position(id),
    {
        match self.find(id) {
            Some(index) => Some(self.positions[index].clone()),
            None => None,
        }
    }

    /// Whether the portfolio can take the trade.
    pub fn accepts(&self, msg: &Trade) -> (ok: bool)
        ensures
            ok == self@.accepts(*msg),
    {
        if !(msg.portfolio_code == self.code) {
            true
        } else if self.trade_count == u32::MAX {
            false
        } else {
            match &msg.trade_type {
                TradeType::Open(position) => position.is_wf(),
                TradeType::Close(_) => true,
            }
        }
    }

    /// Processes a trade. A trade for another account is ignored. Any other
    /// trade is counted once. An open puts the position under its id. A
    /// close removes the position and adds its unrealized profit or loss, as
    /// it is stored, to the realized one; if the portfolio does not hold the
    /// position, the close reports `PositionNotFound` and changes nothing
    /// else.
    pub fn handle(&mut self, msg: Trade) -> (outcome: Result<TradeOutcome, DeskError>)
        requires
            old(self).wf(),
            old(self)@.accepts(msg),
        ensures
            final(self).wf(),
            final(self)@ == old(self)@.apply(msg),
            outcome == old(self)@.outcome(msg),
    {
        proof {
            self@.lemma_apply_wf(msg);
        }
        if !(msg.portfolio_code == self.code) {
            return Ok(TradeOutcome::Ignored);
        }
        self.trade_count = self.trade_count + 1;
        match msg.trade_type {
            TradeType::Open(position) => {
                match self.find(position.id) {
                    Some(index) => {
                        self.positions[index] = position;
                    },
                    None => {
                        self.positions.push(position);
                    },
                }
                Ok(TradeOutcome::Opened)
            },
            TradeType::Close(id) => {
                match self.find(id) {
                    Some(index) => {
                        let position = self.positions.remove(index);
                        assert(position.wf());
                        self.pnl = self.pnl + position.unrealized_pnl;
                        Ok(TradeOutcome::Closed)
                    },
                    None => Err(DeskError::PositionNotFound(id)),
                }
            },
        }
    }

    /// The price lookups that a valuation of this portfolio needs: for each
    /// position, in order, its id and the id of its security.
    pub fn valuation_requests(&self) -> (requests: Vec<(PositionId, SecurityId)>)
        ensures
            requests@.len() == self@.positions.len(),
            forall|i: int|
                0 <= i < requests@.len() ==> #[trigger] requests@[i] == (
                    self@.positions[i].id,
                    self@.positions[i].security.id,
                ),
    {
        let mut requests: Vec<(PositionId, SecurityId)> = Vec::new();
        let mut index: usize = 0;
        while index < self.positions.len()
            invariant
                index <= self.positions@.len(),
                requests@.len() == index,
                forall|i: int|
                    0 <= i < index ==> #[trigger] requests@[i] == (
                        self.positions@[i].id,
                        self.positions@[i].security.id,
                    ),
            decreases self.positions@.len() - index,
        {
            requests.push((self.positions[index].id, self.positions[index].security.id));
            index += 1;
        }
        requests
    }

    /// Applies the answer to one price lookup. With a price, the position
    /// `id` is valued at it. Without one the position keeps its last
    /// valuation, and `PriceUnavailable` names its security. A position that
    /// the portfolio no longer holds is reported as `PositionNotFound`.
    pub fn revalue(&mut self, id: PositionId, price: Option<Price>) -> (outcome: Result<
        (),
        DeskError,
    >)
        requires
            old(self).wf(),
        ensures
            final(self).wf(),
            match old(self)@.position(id) {
                None => {
                    &&& final(self)@ == old(self)@
                    &&& outcome == Err::<(), DeskError>(DeskError::PositionNotFound(id))
                },
                Some(held) => match price {
                    None => {
                        &&& final(self)@ == old(self)@
                        &&& outcome == Err::<(), DeskError>(
                            DeskError::PriceUnavailable(held.security.id),
                        )
                    },
                    Some(price) => {
                        &&& final(self)@ == (PortfolioState {
                            positions: old(self)@.positions.update(
                                old(self)@.index_of(id),
                                held.revalued(price),
                            ),
                            ..old(self)@
                        })
                        &&& outcome == Ok::<(), DeskError>(())
                    },
                },
            },
    {
        match self.find(id) {
            None => Err(DeskError::PositionNotFound(id)),
            Some(index) => match price {
                None => Err(DeskError::PriceUnavailable(self.positions[index].security.id)),
                Some(price) => {
                    self.positions[index].revalue(price);
                    assert(self@.positions == old(self)@.positions.update(
                        index as int,
                        old(self)@.positions[index as int].revalued(price),
                    ));
                    assert(self.wf());
                    Ok(())
                },
            },
        }
    }

    /// Values every position at the latest price of its security in `cache`.
    /// A position whose security has no price there keeps its last
    /// valuation; the ids of these positions are returned, in order. The
    /// prices are read in the order of the positions.
    pub fn recalculate_positions(&mut self, cache: &mut SecurityCache) -> (stale: Vec<PositionId>)
        requires
            old(self).wf(),
            old(cache).wf(),
        ensures
            final(self).wf(),
            final(cache).wf(),
            final(self)@ == old(self)@.revalued(old(cache)@.prices),
            final(cache)@ == old(cache)@.prices_read(old(self)@.security_ids()),
            stale@ == stale_ids(old(self)@.positions, old(cache)@.prices),
    {
        let mut stale: Vec<PositionId> = Vec::new();
        let mut index: usize = 0;
        let ghost before = self@;
        let ghost prices = cache@.prices;
        let ghost start = cache@;
        proof {
            cache.lemma_wf();
            assert(before.security_ids().take(0) =~= Seq::<SecurityId>::empty());
            assert(before.positions.take(0) =~= Seq::<Position>::empty());
        }
        while index < self.positions.len()
            invariant
                before == old(self)@,
                before.wf(),
                start == old(cache)@,
                start.wf(),
                prices == start.prices,
                index <= self@.positions.len(),
                self@.positions.len() == before.positions.len(),
                self@.code == before.code,
                self@.realized_pnl == before.realized_pnl,
                self@.trade_count == before.trade_count,
                cache.wf(),
                cache@ == start.prices_read(before.security_ids().take(index as int)),
                forall|j: int|
                    0 <= j < index ==> #[trigger] self@.positions[j] == before.revalued(
                        prices,
                    ).positions[j],
                forall|j: int|
                    index <= j < self@.positions.len() ==> #[trigger] self@.positions[j]
                        == before.positions[j],
                stale@ == stale_ids(before.positions.take(index as int), prices),
            decreases self@.positions.len() - index,
        {
            let security_id = self.positions[index].security.id;
            let position_id = self.positions[index].id;
            proof {
                let next = index + 1;
                start.lemma_prices_read(before.security_ids().take(index as int));
                assert(before.security_ids().take(next).drop_last() == before.security_ids().take(
                    index as int,
                ));
                assert(before.security_ids().take(next).last() == security_id);
                assert(before.positions.take(next).drop_last() == before.positions.take(
                    index as int,
                ));
                assert(before.positions.take(next).last() == before.positions[index as int]);
            }
            match cache.get_latest_price(security_id) {
                Some(price) => {
                    self.positions[index].revalue(price);
                },
                None => {
                    stale.push(position_id);
                },
            }
            index += 1;
        }
        proof {
            assert(before.security_ids().take(index as int) == before.security_ids());
            assert(before.positions.take(index as int) == before.positions);
            assert(self@.positions =~= before.revalued(prices).positions);
            before.lemma_revalued_wf(prices);
        }
        stale
    }

    /// The report of the portfolio as it stands: its code, its positions in
    /// order, the count of trades, the realized profit and loss, and the sum
    /// of the unrealized profit or loss of the positions.
    pub fn snapshot(&self) -> (stats: PortfolioStats)
        requires
            self.wf(),
        ensures
            self@.report_matches(stats),
    {
        let mut positions: Vec<Position> = Vec::new();
        let mut unrealized: Amount = 0;
        let mut index: usize = 0;
        proof {
            assert(self@.positions.take(0) =~= Seq::<Position>::empty());
        }
        while index < self.positions.len()
            invariant
                self.wf(),
                index <= self@.positions.len(),
                positions@ == self@.positions.take(index as int),
                unrealized == total_unrealized(self@.positions.take(index as int)),
            decreases self@.positions.len() - index,
        {
            proof {
                let next = index + 1;
                let seen = self@.positions.take(index as int);
                assert(self@.positions.take(next).drop_last() == seen);
                assert(self@.positions.take(next).last() == self@.positions[index as int]);
                assert forall|i: int| 0 <= i < seen.len() implies (#[trigger] seen[i]).wf() by {
                    assert(seen[i] == self@.positions[i]);
                }
                lemma_total_unrealized_bounds(seen);
                assert(self@.positions[index as int].wf());
                assert(seen.len() * PNL_LIMIT <= u32::MAX * PNL_LIMIT) by (nonlinear_arith)
                    requires
                        seen.len() <= u32::MAX,
                        PNL_LIMIT > 0,
                ;
            }
            unrealized = unrealized + self.positions[index].unrealized_pnl;
            positions.push(self.positions[index].clone());
            proof {
                assert(positions@ == self@.positions.take(index + 1));
            }
            index += 1;
        }
        proof {
            assert(self@.positions.take(index as int) == self@.positions);
        }
        PortfolioStats {
            code: self.code.clone(),
            positions,
            trade_count: self.trade_count,
            realized_pnl: self.pnl,
            unrealized_pnl_total: unrealized,
        }
    }

    /// Answers a request for statistics: values the positions at the latest
    /// prices in `cache`, then reports.
    pub fn handle_stats_event(&mut self, msg: PortfolioStatsEvent, cache: &mut SecurityCache) -> (stats:
        PortfolioStats)
        requires
            old(self).wf(),
            old(cache).wf(),
        ensures
            final(self).wf(),
            final(cache).wf(),
            final(self)@ == old(self)@.revalued(old(cache)@.prices),
            final(cache)@ == old(cache)@.prices_read(old(self)@.security_ids()),
            final(self)@.report_matches(stats),
    {
        let _ = self.recalculate_positions(cache);
        self.snapshot()
    }
}

/// After a position is removed from a well-formed portfolio, no position
/// with its id is left.
proof fn lemma_removed_is_gone(state: PortfolioState, id: PositionId)
    requires
        state.wf(),
        state.holds(id),
    ensures
        !(PortfolioState { positions: state.positions.remove(state.index_of(id)), ..state }).holds(
            id,
        ),
{
    let index = state.index_of(id);
    let rest = state.positions.remove(index);
    assert forall|i: int| 0 <= i < rest.len() implies (#[trigger] rest[i]).id != id by {
        if i < index {
            assert(rest[i] == state.positions[i]);
        } else {
            assert(rest[i] == state.positions[i + 1]);
        }
    }
}

/// When the open of a position is followed at once by the close of that
/// position, on the portfolio that both are addressed to, the close
/// succeeds, two trades are counted, the realized profit and loss grows by
/// exactly the unrealized profit or loss that the position carried, and the
/// position is gone.
pub proof fn law_open_then_close(
    state: PortfolioState,
    open: Trade,
    close: Trade,
    position: Position,
)
    requires
        state.wf(),
        state.addressed_by(open),
        state.addressed_by(close),
        open.trade_type == TradeType::Open(position),
        close.trade_type == TradeType::Close(position.id),
    ensures
        state.outcome(open) == Ok::<TradeOutcome, DeskError>(TradeOutcome::Opened),
        state.apply(open).position(position.id) == Some(position),
        state.apply(open).outcome(close) == Ok::<TradeOutcome, DeskError>(TradeOutcome::Closed),
        state.apply(open).apply(close).trade_count == state.trade_count + 2,
        state.apply(open).apply(close).realized_pnl == state.realized_pnl
            + position.unrealized_pnl,
        !state.apply(open).apply(close).holds(position.id),
{
    let id = position.id;
    let opened = state.apply(open);
    let at = if state.holds(id) {
        state.index_of(id)
    } else {
        state.positions.len() as int
    };
    assert(opened.positions[at] == position);
    assert(opened.holds(id));
    assert forall|i: int, j: int|
        0 <= i < opened.positions.len() && 0 <= j < opened.positions.len() && i != j
            implies opened.positions[i].id != opened.positions[j].id by {
        if state.holds(id) {
            assert(opened.positions[i].id == state.positions[i].id);
            assert(opened.positions[j].id == state.positions[j].id);
        } else {
            if i < state.positions.len() {
                assert(opened.positions[i] == state.positions[i]);
            }
            if j < state.positions.len() {
                assert(opened.positions[j] == state.positions[j]);
            }
        }
    }
    assert(opened.index_of(id) == at);
    let closed = opened.apply(close);
    let rest = opened.positions.remove(at);
    assert forall|i: int| 0 <= i < rest.len() implies (#[trigger] rest[i]).id != id by {
        if i < at {
            assert(rest[i] == opened.positions[i]);
        } else {
            assert(rest[i] == opened.positions[i + 1]);
        }
    }
}

/// The close of a position that the portfolio does not hold reports
/// `PositionNotFound` with the id, and does no more than count the trade.
pub proof fn law_close_of_unknown_position(state: PortfolioState, close: Trade, id: PositionId)
    requires
        state.addressed_by(close),
        close.trade_type == TradeType::Close(id),
        !state.holds(id),
    ensures
        state.outcome(close) == Err::<TradeOutcome, DeskError>(DeskError::PositionNotFound(id)),
        state.apply(close) == (PortfolioState { trade_count: state.trade_count + 1, ..state }),
{
}

/// A position that was closed is not held any more: a second close of it
/// reports `PositionNotFound`.
pub proof fn law_second_close_is_not_found(state: PortfolioState, close: Trade, id: PositionId)
    requires
        state.wf(),
        state.addressed_by(close),
        close.trade_type == TradeType::Close(id),
        state.holds(id),
    ensures
        state.outcome(close) == Ok::<TradeOutcome, DeskError>(TradeOutcome::Closed),
        !state.apply(close).holds(id),
        state.apply(close).outcome(close) == Err::<TradeOutcome, DeskError>(
            DeskError::PositionNotFound(id),
        ),
{
    lemma_removed_is_gone(state, id);
}

/// Every processed trade is counted exactly once, whatever comes of it, and
/// a trade for another portfolio is not counted.
pub proof fn law_trade_counted_once(state: PortfolioState, trade: Trade)
    ensures
        state.addressed_by(trade) ==> state.apply(trade).trade_count == state.trade_count + 1,
        !state.addressed_by(trade) ==> state.apply(trade) == state,
{
}

} // verus!
