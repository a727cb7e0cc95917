//! The periodic reporter that asks every portfolio of the desk for its
//! statistics, once per cycle.

use vstd::prelude::*;

use crate::models::PortfolioStats;
use crate::portfolio::Portfolio;
use crate::security_cache::CacheState;
use crate::security_cache::SecurityCache;

verus! {

/// The time between two cycles of the reporter, in milliseconds.
pub const STATS_INTERVAL_MS: u64 = 1000;

/// The request that makes a portfolio value its positions and report.
#[derive(Debug, Clone, Copy, PartialEq, Eq)]
pub struct PortfolioStatsEvent;

/// The cache after the portfolios of `portfolios` have read, one after the
/// other, the prices of the securities of their positions.
pub open spec fn cycle_reads(cache: CacheState, portfolios: Seq<Portfolio>) -> CacheState
    decreases portfolios.len(),
{
    if portfolios.len() == 0 {
        cache
    } else {
        cycle_reads(cache, portfolios.drop_last()).prices_read(portfolios.last()@.security_ids())
    }
}

/// The reads of a cycle change nothing in a cache but the order of the last
/// use of its prices.
pub proof fn lemma_cycle_reads(cache: CacheState, portfolios: Seq<Portfolio>)
    requires
        cache.wf(),
    ensures
        cycle_reads(cache, portfolios).wf(),
        cycle_reads(cache, portfolios).prices == cache.prices,
        cycle_reads(cache, portfolios).capacity == cache.capacity,
        cycle_reads(cache, portfolios).tickers == cache.tickers,
        cycle_reads(cache, portfolios).security_order == cache.security_order,
    decreases portfolios.len(),
{
    if portfolios.len() > 0 {
        lemma_cycle_reads(cache, portfolios.drop_last());
        cycle_reads(cache, portfolios.drop_last()).lemma_prices_read(
            portfolios.last()@.security_ids(),
        );
    }
}

/// The reporter: it knows the portfolios of the desk by their codes.
pub struct PortfolioStatsFeed {
    subs: Vec<String>,
}

impl PortfolioStatsFeed {
    /// The codes of the portfolios that the reporter asks, in order.
    pub closed spec fn subs(&self) -> Seq<Seq<char>> {
        Seq::new(self.subs@.len(), |i: int| self.subs@[i]@)
    }

    /// Whether `portfolios` are the portfolios that the reporter asks, in
    /// its order.
    pub open spec fn serves(&self, portfolios: Seq<Portfolio>) -> bool {
        &&& portfolios.len() == self.subs().len()
        &&& forall|i: int| 0 <= i < portfolios.len() ==> (#[trigger] portfolios[i])@.code == self.subs()[i]
    }

    /// A reporter for the portfolios with the codes `portfolios`.
    pub fn new(portfolios: Vec<String>) -> (feed: Self)
        ensures
            feed.subs().len() == portfolios@.len(),
            forall|i: int| 0 <= i < portfolios@.len() ==> feed.subs()[i] == portfolios@[i]@,
    {
        PortfolioStatsFeed { subs: portfolios }
    }

    /// A reporter for `portfolios`.
    pub fn for_portfolios(portfolios: &Vec<Portfolio>) -> (feed: Self)
        ensures
            feed.serves(portfolios@),
    {
        let mut subs: Vec<String> = Vec::new();
        let mut index: usize = 0;
        while index < portfolios.len()
            invariant
                index <= portfolios@.len(),
                subs@.len() == index,
                forall|i: int| 0 <= i < index ==> (#[trigger] subs@[i])@ == portfolios@[i]@.code,
            decreases portfolios@.len() - index,
        {
            subs.push(portfolios[index].code().clone());
            index += 1;
        }
        PortfolioStatsFeed { subs }
    }

    /// The requests of one cycle: one for each portfolio of the reporter,
    /// in order, each addressed by the code of its portfolio.
    pub fn fire(&self) -> (requests: Vec<(String, PortfolioStatsEvent)>)
        ensures
            requests@.len() == self.subs().len(),
            forall|i: int| 0 <= i < requests@.len() ==> (#[trigger] requests@[i]).0@ == self.subs()[i],
    {
        let mut requests: Vec<(String, PortfolioStatsEvent)> = Vec::new();
        let mut index: usize = 0;
        while index < self.subs.len()
            invariant
                index <= self.subs@.len(),
                requests@.len() == index,
                forall|i: int| 0 <= i < index ==> (#[trigger] requests@[i]).0@ == self.subs@[i]@,
            decreases self.subs@.len() - index,
        {
            requests.push((self.subs[index].clone(), PortfolioStatsEvent));
            index += 1;
        }
        requests
    }

    /// One cycle over portfolios that are at hand: each of them, in order,
    /// values its positions at the latest prices in `cache` and reports. The
    /// result holds exactly one report for each portfolio, in the order of
    /// the portfolios.
    pub fn collect(&self, portfolios: &mut Vec<Portfolio>, cache: &mut SecurityCache) -> (reports:
        Vec<PortfolioStats>)
        requires
            self.serves(old(portfolios)@),
            forall|i: int| 0 <= i < old(portfolios)@.len() ==> (#[trigger] old(portfolios)@[i]).wf(),
            old(cache).wf(),
        ensures
            final(cache).wf(),
            final(cache)@ == cycle_reads(old(cache)@, old(portfolios)@),
            final(portfolios)@.len() == old(portfolios)@.len(),
            self.serves(final(portfolios)@),
            reports@.len() == self.subs().len(),
            forall|i: int|
                0 <= i < reports@.len() ==> {
                    &&& (#[trigger] final(portfolios)@[i]).wf()
                    &&& final(portfolios)@[i]@ == old(portfolios)@[i]@.revalued(old(cache)@.prices)
                    &&& final(portfolios)@[i]@.report_matches(reports@[i])
                    &&& reports@[i].code@ == self.subs()[i]
                },
    {
        let mut reports: Vec<PortfolioStats> = Vec::new();
        let mut index: usize = 0;
        let ghost before = portfolios@;
        let ghost start = cache@;
        proof {
            cache.lemma_wf();
            assert(before.take(0) =~= Seq::<Portfolio>::empty());
        }
        while index < portfolios.len()
            invariant
                before == old(portfolios)@,
                start == old(cache)@,
                start.wf(),
                self.serves(before),
                index <= portfolios@.len(),
                portfolios@.len() == before.len(),
                reports@.len() == index,
                cache.wf(),
                cache@ == cycle_reads(start, before.take(index as int)),
                forall|i: int| 0 <= i < before.len() ==> (#[trigger] before[i]).wf(),
                forall|i: int| index <= i < before.len() ==> #[trigger] portfolios@[i] == before[i],
                forall|i: int|
                    0 <= i < index ==> {
                        &&& (#[trigger] portfolios@[i]).wf()
                        &&& portfolios@[i]@ == before[i]@.revalued(start.prices)
                        &&& portfolios@[i]@.report_matches(reports@[i])
                        &&& reports@[i].code@ == self.subs()[i]
                    },
            decreases portfolios@.len() - index,
        {
            proof {
                let next = index + 1;
                lemma_cycle_reads(start, before.take(index as int));
                assert(before.take(next).drop_last() == before.take(index as int));
                assert(before.take(next).last() == before[index as int]);
            }
            let report = portfolios[index].handle_stats_event(PortfolioStatsEvent, cache);
            reports.push(report);
            index += 1;
        }
        proof {
            assert(before.take(index as int) == before);
        }
        reports
    }
}

/// When the portfolios of a reporter have distinct codes, the reports of a
/// cycle, which name those codes in order, hold one report for each
/// portfolio: as many reports as portfolios, no code twice, and the set of
/// their codes is the set of the portfolios' codes.
pub proof fn law_one_report_per_portfolio(subs: Seq<Seq<char>>, reports: Seq<PortfolioStats>)
    requires
        subs.no_duplicates(),
        reports.len() == subs.len(),
        forall|i: int| 0 <= i < reports.len() ==> (#[trigger] reports[i]).code@ == subs[i],
    ensures
        reports.len() == subs.len(),
        reports.map_values(|report: PortfolioStats| report.code@).no_duplicates(),
        reports.map_values(|report: PortfolioStats| report.code@).to_set() == subs.to_set(),
{
    let codes = reports.map_values(|report: PortfolioStats| report.code@);
    assert(codes =~= subs);
}

} // verus!
