//! The security cache: the latest known price of each security, and the
//! securities themselves, each in a store bounded by a capacity and emptied
//! by the least-recently-used rule.

use vstd::prelude::*;

use crate::error::DeskError;
use crate::models::Price;
use crate::models::Security;
use crate::models::SecurityId;
use crate::models::Tick;
use crate::random::draw_index;
use crate::random::draw_u32;
use crate::recency::evicted;
use crate::recency::inserted;
use crate::recency::lemma_inserted;
use crate::recency::lemma_touched;
use crate::recency::touched;
use crate::recency::RecencyList;
use crate::store::price_store_get;
use crate::store::price_store_insert;
use crate::store::price_store_invalidate;
use crate::store::price_store_new;
use crate::store::stored_prices;
use crate::store::stored_tickers;
use crate::store::ticker_store_get;
use crate::store::ticker_store_insert;
use crate::store::ticker_store_invalidate;
use crate::store::ticker_store_new;

verus! {

/// The number of entries that each store of a cache made by
/// [`SecurityCache::new`] may hold.
pub const DEFAULT_CAPACITY: usize = 512;

/// The initial price of a security is drawn from
/// `INITIAL_PRICE_LOW..INITIAL_PRICE_HIGH`.
pub const INITIAL_PRICE_LOW: Price = 10_000;

pub const INITIAL_PRICE_HIGH: Price = 20_000;

/// What a security cache holds: the prices and the tickers by security id,
/// and for each of the two stores the ids in the order of their last use,
/// least recently used first.
pub struct CacheState {
    pub capacity: nat,
    pub prices: Map<SecurityId, Price>,
    pub price_order: Seq<SecurityId>,
    pub tickers: Map<SecurityId, Seq<char>>,
    pub security_order: Seq<SecurityId>,
}

impl CacheState {
    /// A cache of the given capacity that holds nothing.
    pub open spec fn empty(capacity: nat) -> CacheState {
        CacheState {
            capacity,
            prices: Map::empty(),
            price_order: Seq::empty(),
            tickers: Map::empty(),
            security_order: Seq::empty(),
        }
    }

    /// Each order lists the ids of its store, each once, and neither store
    /// holds more than the capacity, which is at least one.
    pub open spec fn wf(self) -> bool {
        &&& self.capacity > 0
        &&& self.price_order.no_duplicates()
        &&& self.price_order.len() <= self.capacity
        &&& self.prices.dom() == self.price_order.to_set()
        &&& self.security_order.no_duplicates()
        &&& self.security_order.len() <= self.capacity
        &&& self.tickers.dom() == self.security_order.to_set()
    }

    /// The latest price of `id`, if the cache holds one.
    pub open spec fn price(self, id: SecurityId) -> Option<Price> {
        if self.prices.contains_key(id) {
            Some(self.prices[id])
        } else {
            None
        }
    }

    /// The cache after `price` is stored for `id`: `id` is the most recently
    /// used price, and if it is new to a full store, the least recently used
    /// price has left.
    pub open spec fn with_price(self, id: SecurityId, price: Price) -> CacheState {
        CacheState {
            prices: match evicted(self.price_order, self.capacity, id) {
                Some(victim) => self.prices.remove(victim).insert(id, price),
                None => self.prices.insert(id, price),
            },
            price_order: inserted(self.price_order, self.capacity, id),
            ..self
        }
    }

    /// The cache after the price of `id` is read: the price, if there is one,
    /// is the most recently used.
    pub open spec fn price_read(self, id: SecurityId) -> CacheState {
        CacheState { price_order: touched(self.price_order, id), ..self }
    }

    /// The cache after the prices of `ids` are read in turn.
    pub open spec fn prices_read(self, ids: Seq<SecurityId>) -> CacheState
        decreases ids.len(),
    {
        if ids.len() == 0 {
            self
        } else {
            self.prices_read(ids.drop_last()).price_read(ids.last())
        }
    }

    /// The cache after a security is stored: it is the most recently used
    /// security, and if it is new to a full store, the least recently used
    /// security has left.
    pub open spec fn with_security(self, id: SecurityId, ticker: Seq<char>) -> CacheState {
        CacheState {
            tickers: match evicted(self.security_order, self.capacity, id) {
                Some(victim) => self.tickers.remove(victim).insert(id, ticker),
                None => self.tickers.insert(id, ticker),
            },
            security_order: inserted(self.security_order, self.capacity, id),
            ..self
        }
    }

    /// The cache after the security `id` is read: the security, if it is
    /// there, is the most recently used.
    pub open spec fn security_read(self, id: SecurityId) -> CacheState {
        CacheState { security_order: touched(self.security_order, id), ..self }
    }

    /// The cache after the securities `ids` are read in turn.
    pub open spec fn securities_read(self, ids: Seq<SecurityId>) -> CacheState
        decreases ids.len(),
    {
        if ids.len() == 0 {
            self
        } else {
            self.securities_read(ids.drop_last()).security_read(ids.last())
        }
    }

    /// The cache after each of `securities` is stored in turn, the `i`-th with
    /// the `i`-th of `prices` as its price.
    pub open spec fn seeded(self, securities: Seq<Security>, prices: Seq<Price>) -> CacheState
        decreases securities.len(),
    {
        if securities.len() == 0 {
            self
        } else {
            let security = securities.last();
            self.seeded(securities.drop_last(), prices.drop_last()).with_price(
                security.id,
                prices.last(),
            ).with_security(security.id, security.ticker@)
        }
    }

    /// The cache after the `i`-th of `prices` is stored for the `i`-th of
    /// `ids`, in turn.
    pub open spec fn priced(self, ids: Seq<SecurityId>, prices: Seq<Price>) -> CacheState
        decreases ids.len(),
    {
        if ids.len() == 0 {
            self
        } else {
            self.priced(ids.drop_last(), prices.drop_last()).with_price(ids.last(), prices.last())
        }
    }

    /// Storing a price keeps a cache well formed.
    pub proof fn lemma_with_price_wf(self, id: SecurityId, price: Price)
        requires
            self.wf(),
        ensures
            self.with_price(id, price).wf(),
    {
        lemma_inserted(self.price_order, self.capacity, id);
        let after = self.with_price(id, price);
        assert(after.prices.dom() =~= after.price_order.to_set());
    }

    /// Storing a security keeps a cache well formed.
    pub proof fn lemma_with_security_wf(self, id: SecurityId, ticker: Seq<char>)
        requires
            self.wf(),
        ensures
            self.with_security(id, ticker).wf(),
    {
        lemma_inserted(self.security_order, self.capacity, id);
        let after = self.with_security(id, ticker);
        assert(after.tickers.dom() =~= after.security_order.to_set());
    }

    /// Reading prices changes nothing but the order of their last use.
    pub proof fn lemma_prices_read(self, ids: Seq<SecurityId>)
        requires
            self.wf(),
        ensures
            self.prices_read(ids).wf(),
            self.prices_read(ids).prices == self.prices,
            self.prices_read(ids).capacity == self.capacity,
            self.prices_read(ids).tickers == self.tickers,
            self.prices_read(ids).security_order == self.security_order,
            self.prices_read(ids).price_order.to_set() == self.price_order.to_set(),
        decreases ids.len(),
    {
        if ids.len() > 0 {
            self.lemma_prices_read(ids.drop_last());
            self.prices_read(ids.drop_last()).lemma_read_wf(ids.last());
            lemma_touched(self.prices_read(ids.drop_last()).price_order, ids.last());
        }
    }

    /// Reading securities changes nothing but the order of their last use.
    pub proof fn lemma_securities_read(self, ids: Seq<SecurityId>)
        requires
            self.wf(),
        ensures
            self.securities_read(ids).wf(),
            self.securities_read(ids).prices == self.prices,
            self.securities_read(ids).price_order == self.price_order,
            self.securities_read(ids).capacity == self.capacity,
            self.securities_read(ids).tickers == self.tickers,
            self.securities_read(ids).security_order.to_set() == self.security_order.to_set(),
            self.securities_read(ids).security_order.len() == self.security_order.len(),
        decreases ids.len(),
    {
        if ids.len() > 0 {
            self.lemma_securities_read(ids.drop_last());
            self.securities_read(ids.drop_last()).lemma_read_wf(ids.last());
            lemma_touched(self.securities_read(ids.drop_last()).security_order, ids.last());
        }
    }

    /// Reading keeps a cache well formed.
    pub proof fn lemma_read_wf(self, id: SecurityId)
        requires
            self.wf(),
        ensures
            self.price_read(id).wf(),
            self.security_read(id).wf(),
    {
        lemma_touched(self.price_order, id);
        lemma_touched(self.security_order, id);
    }
}

/// A bounded cache of the latest price of each security and of the
/// securities themselves.
pub struct SecurityCache {
    securities: moka::sync::Cache<SecurityId, String>,
    security_order: RecencyList,
    last_price: moka::sync::Cache<SecurityId, Price>,
    price_order: RecencyList,
}

impl View for SecurityCache {
    type V = CacheState;

    closed spec fn view(&self) -> CacheState {
        CacheState {
            capacity: self.price_order.capacity(),
            prices: stored_prices(self.last_price),
            price_order: self.price_order@,
            tickers: stored_tickers(self.securities),
            security_order: self.security_order@,
        }
    }
}

impl SecurityCache {
    /// The recency lists are well formed and list what the stores hold.
    pub closed spec fn wf(&self) -> bool {
        &&& self.price_order.wf()
        &&& self.security_order.wf()
        &&& self.security_order.capacity() == self.price_order.capacity()
        &&& self@.wf()
    }

    /// A well-formed cache has a well-formed state.
    pub proof fn lemma_wf(&self)
        requires
            self.wf(),
        ensures
            self@.wf(),
    {
    }

    /// An empty cache whose stores hold up to `capacity` entries each.
    pub fn with_capacity(capacity: usize) -> (cache: Self)
        requires
            capacity > 0,
        ensures
            cache.wf(),
            cache@ == CacheState::empty(capacity as nat),
    {
        let cache = SecurityCache {
            securities: ticker_store_new(),
            security_order: RecencyList::new(capacity),
            last_price: price_store_new(),
            price_order: RecencyList::new(capacity),
        };
        proof {
            assert(cache@.prices =~= Map::empty());
            assert(cache@.tickers =~= Map::empty());
            assert(cache@.prices.dom() =~= cache@.price_order.to_set());
            assert(cache@.tickers.dom() =~= cache@.security_order.to_set());
        }
        cache
    }

    /// The number of entries that each store may hold.
    pub fn capacity(&self) -> (capacity: usize)
        ensures
            capacity == self@.capacity,
    {
        self.price_order.limit()
    }

    /// The latest price of `id`, if the cache holds one. The read marks the
    /// price as the most recently used.
    pub fn get_latest_price(&mut self, id: SecurityId) -> (price: Option<Price>)
        requires
            old(self).wf(),
        ensures
            final(self).wf(),
            price == old(self)@.price(id),
            final(self)@ == old(self)@.price_read(id),
    {
        proof {
            self@.lemma_read_wf(id);
        }
        self.price_order.touch(id);
        price_store_get(&self.last_price, id)
    }

    /// Stores `price` as the latest price of `id`, as the most recently used.
    /// If `id` is new and the store is full, the least recently used price
    /// leaves first.
    pub fn set_last_price(&mut self, id: SecurityId, price: Price)
        requires
            old(self).wf(),
        ensures
            final(self).wf(),
            final(self)@ == old(self)@.with_price(id, price),
    {
        proof {
            self@.lemma_with_price_wf(id, price);
        }
        match self.price_order.insert(id) {
            Some(victim) => {
                price_store_invalidate(&mut self.last_price, victim);
            },
            None => {},
        }
        price_store_insert(&mut self.last_price, id, price);
    }

    /// The security `id`, if the cache holds it. The read marks the security
    /// as the most recently used.
    pub fn get_security(&mut self, id: SecurityId) -> (security: Option<Security>)
        requires
            old(self).wf(),
        ensures
            final(self).wf(),
            final(self)@ == old(self)@.security_read(id),
            match security {
                Some(found) => {
                    &&& old(self)@.tickers.contains_key(id)
                    &&& found.id == id
                    &&& found.ticker@ == old(self)@.tickers[id]
                },
                None => !old(self)@.tickers.contains_key(id),
            },
    {
        proof {
            self@.lemma_read_wf(id);
        }
        self.security_order.touch(id);
        match ticker_store_get(&self.securities, id) {
            Some(ticker) => Some(Security { id, ticker }),
            None => None,
        }
    }

    /// Stores `security` under its id, as the most recently used. If it is
    /// new and the store is full, the least recently used security leaves
    /// first.
    pub fn insert_security(&mut self, security: Security)
        requires
            old(self).wf(),
        ensures
            final(self).wf(),
            final(self)@ == old(self)@.with_security(security.id, security.ticker@),
    {
        proof {
            self@.lemma_with_security_wf(security.id, security.ticker@);
        }
        match self.security_order.insert(security.id) {
            Some(victim) => {
                ticker_store_invalidate(&mut self.securities, victim);
            },
            None => {},
        }
        ticker_store_insert(&mut self.securities, security.id, security.ticker);
    }

    /// The number of securities that the cache holds.
    pub fn security_count(&self) -> (count: usize)
        ensures
            count == self@.security_order.len(),
    {
        self.security_order.len()
    }

    /// The security at `index` of the order of last use, read as
    /// [`SecurityCache::get_security`] reads it.
    pub fn security_at(&mut self, index: usize) -> (security: Security)
        requires
            old(self).wf(),
            index < old(self)@.security_order.len(),
        ensures
            final(self).wf(),
            security.id == old(self)@.security_order[index as int],
            security.ticker@ == old(self)@.tickers[security.id],
            final(self)@ == old(self)@.security_read(security.id),
    {
        let id = self.security_order.id_at(index);
        assert(self@.security_order.to_set().contains(id));
        match self.get_security(id) {
            Some(security) => security,
            None => Security { id, ticker: String::new() },
        }
    }

    /// A security drawn uniformly from those that the cache holds, read as
    /// [`SecurityCache::get_security`] reads it; `Empty` if it holds none.
    pub fn get_random_security(&mut self) -> (drawn: Result<Security, DeskError>)
        requires
            old(self).wf(),
        ensures
            final(self).wf(),
            match drawn {
                Ok(security) => {
                    &&& old(self)@.security_order.contains(security.id)
                    &&& security.ticker@ == old(self)@.tickers[security.id]
                    &&& final(self)@ == old(self)@.security_read(security.id)
                },
                Err(error) => {
                    &&& error == DeskError::Empty
                    &&& old(self)@.security_order.len() == 0
                    &&& final(self)@ == old(self)@
                },
            },
    {
        let count = self.security_order.len();
        if count == 0 {
            Err(DeskError::Empty)
        } else {
            let index = draw_index(count);
            Ok(self.security_at(index))
        }
    }

    /// Stores each of `securities` in turn, the `i`-th with the `i`-th of
    /// `prices` as its latest price.
    pub fn seed(&mut self, securities: Vec<Security>, prices: Vec<Price>)
        requires
            old(self).wf(),
            securities@.len() == prices@.len(),
        ensures
            final(self).wf(),
            final(self)@ == old(self)@.seeded(securities@, prices@),
    {
        let mut index: usize = 0;
        while index < securities.len()
            invariant
                index <= securities@.len(),
                securities@.len() == prices@.len(),
                self.wf(),
                self@ == old(self)@.seeded(
                    securities@.take(index as int),
                    prices@.take(index as int),
                ),
            decreases securities@.len() - index,
        {
            let security = securities[index].clone();
            proof {
                let next = index + 1;
                assert(securities@.take(next).drop_last() == securities@.take(index as int));
                assert(prices@.take(next).drop_last() == prices@.take(index as int));
                assert(securities@.take(next).last() == security);
                assert(prices@.take(next).last() == prices@[index as int]);
            }
            self.set_last_price(security.id, prices[index]);
            self.insert_security(security);
            index += 1;
        }
        proof {
            assert(securities@.take(index as int) == securities@);
            assert(prices@.take(index as int) == prices@);
        }
    }

    /// A cache of the default capacity that holds `securities`, each with an
    /// initial price drawn from `INITIAL_PRICE_LOW..INITIAL_PRICE_HIGH`.
    pub fn new(securities: Vec<Security>) -> (cache: Self)
        ensures
            cache.wf(),
            exists|prices: Seq<Price>|
                {
                    &&& prices.len() == securities@.len()
                    &&& forall|i: int|
                        0 <= i < prices.len() ==> INITIAL_PRICE_LOW <= #[trigger] prices[i]
                            < INITIAL_PRICE_HIGH
                    &&& cache@ == CacheState::empty(DEFAULT_CAPACITY as nat).seeded(
                        securities@,
                        prices,
                    )
                },
    {
        let mut prices: Vec<Price> = Vec::new();
        while prices.len() < securities.len()
            invariant
                prices@.len() <= securities@.len(),
                forall|i: int|
                    0 <= i < prices@.len() ==> INITIAL_PRICE_LOW <= #[trigger] prices@[i]
                        < INITIAL_PRICE_HIGH,
            decreases securities@.len() - prices@.len(),
        {
            prices.push(draw_u32(INITIAL_PRICE_LOW, INITIAL_PRICE_HIGH));
        }
        let ghost drawn = prices@;
        let mut cache = SecurityCache::with_capacity(DEFAULT_CAPACITY);
        cache.seed(securities, prices);
        assert(cache@ == CacheState::empty(DEFAULT_CAPACITY as nat).seeded(securities@, drawn));
        cache
    }
}

/// A request for the latest price of a security.
#[derive(Debug, Clone, Copy, PartialEq, Eq)]
pub struct GetLatestPrice(pub SecurityId);

/// A request for a security by its id.
#[derive(Debug, Clone, Copy, PartialEq, Eq)]
pub struct GetSecurity(pub SecurityId);

/// The one owner of a security cache. Every read and every write is a
/// message handled here, one at a time.
pub struct SecurityCacheActor {
    inner: SecurityCache,
}

impl View for SecurityCacheActor {
    type V = CacheState;

    closed spec fn view(&self) -> CacheState {
        self.inner@
    }
}

impl SecurityCacheActor {
    /// The cache that the actor owns is well formed.
    pub closed spec fn wf(&self) -> bool {
        self.inner.wf()
    }

    /// An actor that owns `security_cache`.
    pub fn new(security_cache: SecurityCache) -> (actor: Self)
        requires
            security_cache.wf(),
        ensures
            actor.wf(),
            actor@ == security_cache@,
    {
        SecurityCacheActor { inner: security_cache }
    }

    /// Takes a tick: its price becomes the latest price of its security.
    pub fn handle(&mut self, msg: Tick)
        requires
            old(self).wf(),
        ensures
            final(self).wf(),
            final(self)@ == old(self)@.with_price(msg.security_id, msg.price),
    {
        self.inner.set_last_price(msg.security_id, msg.price);
    }

    /// Answers a request for the latest price of a security.
    pub fn handle_get_latest_price(&mut self, msg: GetLatestPrice) -> (price: Option<Price>)
        requires
            old(self).wf(),
        ensures
            final(self).wf(),
            price == old(self)@.price(msg.0),
            final(self)@ == old(self)@.price_read(msg.0),
    {
        self.inner.get_latest_price(msg.0)
    }

    /// Answers a request for a security.
    pub fn handle_get_security(&mut self, msg: GetSecurity) -> (security: Option<Security>)
        requires
            old(self).wf(),
        ensures
            final(self).wf(),
            final(self)@ == old(self)@.security_read(msg.0),
            match security {
                Some(found) => {
                    &&& old(self)@.tickers.contains_key(msg.0)
                    &&& found.id == msg.0
                    &&& found.ticker@ == old(self)@.tickers[msg.0]
                },
                None => !old(self)@.tickers.contains_key(msg.0),
            },
    {
        self.inner.get_security(msg.0)
    }

    /// Answers a request for a security drawn uniformly from those held;
    /// `Empty` if there is none.
    pub fn handle_get_random_security(&mut self) -> (drawn: Result<Security, DeskError>)
        requires
            old(self).wf(),
        ensures
            final(self).wf(),
            match drawn {
                Ok(security) => {
                    &&& old(self)@.security_order.contains(security.id)
                    &&& security.ticker@ == old(self)@.tickers[security.id]
                    &&& final(self)@ == old(self)@.security_read(security.id)
                },
                Err(error) => {
                    &&& error == DeskError::Empty
                    &&& old(self)@.security_order.len() == 0
                    &&& final(self)@ == old(self)@
                },
            },
    {
        self.inner.get_random_security()
    }
}

/// A price that was stored is the price that the next read returns.
pub proof fn law_stored_price_is_read(state: CacheState, id: SecurityId, price: Price)
    requires
        state.wf(),
    ensures
        state.with_price(id, price).price(id) == Some(price),
{
    lemma_inserted(state.price_order, state.capacity, id);
}

/// An id for which no price was ever stored has none: not in an empty cache,
/// and not after a price is stored for another id or any price is read.
pub proof fn law_untouched_id_has_no_price(
    state: CacheState,
    id: SecurityId,
    other: SecurityId,
    price: Price,
)
    requires
        state.wf(),
        state.price(id) is None,
        other != id,
    ensures
        CacheState::empty(state.capacity).price(id) is None,
        state.with_price(other, price).price(id) is None,
        state.price_read(other).price(id) is None,
        state.price_read(id).price(id) is None,
{
}

/// Storing a price for a new id in a full store evicts the least recently
/// used price and no other: that id has no price afterwards, every other id
/// keeps its price, and the store is still full.
pub proof fn law_full_store_evicts_least_recent(state: CacheState, id: SecurityId, price: Price)
    requires
        state.wf(),
        state.price_order.len() == state.capacity,
        state.price(id) is None,
    ensures
        state.with_price(id, price).price(state.price_order.first()) is None,
        state.with_price(id, price).price(id) == Some(price),
        forall|other: SecurityId|
            other != state.price_order.first() && other != id ==> state.with_price(id, price).price(
                other,
            ) == state.price(other),
        state.with_price(id, price).price_order == state.price_order.drop_first().push(id),
        state.with_price(id, price).price_order.len() == state.capacity,
{
    lemma_inserted(state.price_order, state.capacity, id);
    assert(!state.price_order.contains(id)) by {
        if state.price_order.contains(id) {
            assert(state.price_order.to_set().contains(id));
        }
    }
}

/// While an empty cache is not yet full, storing prices for distinct ids
/// keeps them all, in the order in which they were stored.
pub proof fn lemma_priced_within_capacity(
    capacity: nat,
    ids: Seq<SecurityId>,
    prices: Seq<Price>,
)
    requires
        capacity > 0,
        ids.no_duplicates(),
        ids.len() <= capacity,
        prices.len() == ids.len(),
    ensures
        CacheState::empty(capacity).priced(ids, prices).wf(),
        CacheState::empty(capacity).priced(ids, prices).capacity == capacity,
        CacheState::empty(capacity).priced(ids, prices).price_order == ids,
        forall|i: int|
            0 <= i < ids.len() ==> CacheState::empty(capacity).priced(ids, prices).price(
                #[trigger] ids[i],
            ) == Some(prices[i]),
    decreases ids.len(),
{
    let start = CacheState::empty(capacity);
    if ids.len() == 0 {
        assert(start.prices.dom() =~= start.price_order.to_set());
        assert(start.tickers.dom() =~= start.security_order.to_set());
        assert(start.priced(ids, prices).price_order =~= ids);
    } else {
        let before = start.priced(ids.drop_last(), prices.drop_last());
        lemma_priced_within_capacity(capacity, ids.drop_last(), prices.drop_last());
        let id = ids.last();
        let after = before.with_price(id, prices.last());
        assert(!ids.drop_last().contains(id)) by {
            if ids.drop_last().contains(id) {
                let j = choose|j: int| 0 <= j < ids.drop_last().len() && ids.drop_last()[j] == id;
                assert(ids[j] == ids[ids.len() - 1]);
            }
        }
        before.lemma_with_price_wf(id, prices.last());
        lemma_inserted(before.price_order, capacity, id);
        assert(after.price_order =~= ids);
        assert forall|i: int| 0 <= i < ids.len() implies after.price(#[trigger] ids[i]) == Some(
            prices[i],
        ) by {
            if i < ids.len() - 1 {
                assert(ids.drop_last()[i] == ids[i]);
                assert(prices.drop_last()[i] == prices[i]);
                assert(before.price(ids.drop_last()[i]) == Some(prices.drop_last()[i]));
            }
        }
    }
}

/// When prices for one more distinct id than the capacity are stored in an
/// empty cache, exactly the id that was stored first is evicted: a read of
/// it finds nothing, and every other id has the price that was stored for it.
pub proof fn law_one_too_many_evicts_first(
    capacity: nat,
    ids: Seq<SecurityId>,
    prices: Seq<Price>,
)
    requires
        capacity > 0,
        ids.no_duplicates(),
        ids.len() == capacity + 1,
        prices.len() == ids.len(),
    ensures
        CacheState::empty(capacity).priced(ids, prices).price(ids.first()) is None,
        forall|i: int|
            1 <= i < ids.len() ==> CacheState::empty(capacity).priced(ids, prices).price(
                #[trigger] ids[i],
            ) == Some(prices[i]),
        CacheState::empty(capacity).priced(ids, prices).price_order == ids.drop_first(),
{
    let start = CacheState::empty(capacity);
    let before = start.priced(ids.drop_last(), prices.drop_last());
    lemma_priced_within_capacity(capacity, ids.drop_last(), prices.drop_last());
    let id = ids.last();
    let after = before.with_price(id, prices.last());
    assert(!ids.drop_last().contains(id)) by {
        if ids.drop_last().contains(id) {
            let j = choose|j: int| 0 <= j < ids.drop_last().len() && ids.drop_last()[j] == id;
            assert(ids[j] == ids[ids.len() - 1]);
        }
    }
    assert(before.price(id) is None) by {
        if before.prices.contains_key(id) {
            assert(before.price_order.to_set().contains(id));
        }
    }
    law_full_store_evicts_least_recent(before, id, prices.last());
    assert(before.price_order.first() == ids.first());
    assert(after.price_order =~= ids.drop_first());
    assert forall|i: int| 1 <= i < ids.len() implies after.price(#[trigger] ids[i]) == Some(
        prices[i],
    ) by {
        if i < ids.len() - 1 {
            assert(ids.drop_last()[i] == ids[i]);
            assert(prices.drop_last()[i] == prices[i]);
            assert(before.price(ids.drop_last()[i]) == Some(prices.drop_last()[i]));
            assert(ids[i] != ids[0]);
            assert(ids[i] != ids[ids.len() - 1]);
        }
    }
}

} // verus!
