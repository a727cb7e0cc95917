//! The concurrent stores that hold the cached prices and tickers.
//!
//! Both are `moka` caches built without a size limit, a lifetime or an idle
//! time, so that an entry leaves only when it is invalidated. Such a cache
//! bounds itself only approximately; the security cache therefore decides by
//! its own recency lists which entry leaves, and tells the store.

use vstd::prelude::*;

verus! {

#[verifier::external_type_specification]
#[verifier::external_body]
#[verifier::reject_recursive_types(K)]
#[verifier::reject_recursive_types(V)]
#[verifier::reject_recursive_types(S)]
pub struct ExCache<K, V, S>(moka::sync::Cache<K, V, S>);

/// The prices that a price store holds, by security id.
pub uninterp spec fn stored_prices(store: moka::sync::Cache<u32, u32>) -> Map<u32, u32>;

/// The tickers that a ticker store holds, by security id.
pub uninterp spec fn stored_tickers(store: moka::sync::Cache<u32, String>) -> Map<u32, Seq<char>>;

/// `moka::sync::Cache::builder` and `CacheBuilder::build`: a cache without a
/// limit, which holds nothing yet.
#[verifier::external_body]
pub(crate) fn price_store_new() -> (store: moka::sync::Cache<u32, u32>)
    ensures
        forall|id: u32| !stored_prices(store).contains_key(id),
{
    moka::sync::Cache::builder().build()
}

/// `moka::sync::Cache::insert`: the key maps to the value from now on, whether
/// or not it was present; the other entries stay.
#[verifier::external_body]
pub(crate) fn price_store_insert(store: &mut moka::sync::Cache<u32, u32>, id: u32, price: u32)
    ensures
        stored_prices(*final(store)) == stored_prices(*old(store)).insert(id, price),
{
    store.insert(id, price);
}

/// `moka::sync::Cache::get`: the value stored for the key, if there is one.
#[verifier::external_body]
pub(crate) fn price_store_get(store: &moka::sync::Cache<u32, u32>, id: u32) -> (price: Option<u32>)
    ensures
        price == (if stored_prices(*store).contains_key(id) {
            Some(stored_prices(*store)[id])
        } else {
            None::<u32>
        }),
{
    store.get(&id)
}

/// `moka::sync::Cache::invalidate`: the key has no entry from now on; the
/// other entries stay.
#[verifier::external_body]
pub(crate) fn price_store_invalidate(store: &mut moka::sync::Cache<u32, u32>, id: u32)
    ensures
        stored_prices(*final(store)) == stored_prices(*old(store)).remove(id),
{
    store.invalidate(&id);
}

/// `moka::sync::Cache::builder` and `CacheBuilder::build`: a cache without a
/// limit, which holds nothing yet.
#[verifier::external_body]
pub(crate) fn ticker_store_new() -> (store: moka::sync::Cache<u32, String>)
    ensures
        forall|id: u32| !stored_tickers(store).contains_key(id),
{
    moka::sync::Cache::builder().build()
}

/// `moka::sync::Cache::insert`: the key maps to the value from now on, whether
/// or not it was present; the other entries stay.
#[verifier::external_body]
pub(crate) fn ticker_store_insert(
    store: &mut moka::sync::Cache<u32, String>,
    id: u32,
    ticker: String,
)
    ensures
        stored_tickers(*final(store)) == stored_tickers(*old(store)).insert(id, ticker@),
{
    store.insert(id, ticker);
}

/// `moka::sync::Cache::get`: a clone of the value stored for the key, if
/// there is one.
#[verifier::external_body]
pub(crate) fn ticker_store_get(store: &moka::sync::Cache<u32, String>, id: u32) -> (ticker: Option<
    String,
>)
    ensures
        match ticker {
            Some(found) => stored_tickers(*store).contains_key(id) && found@ == stored_tickers(
                *store,
            )[id],
            None => !stored_tickers(*store).contains_key(id),
        },
{
    store.get(&id)
}

/// `moka::sync::Cache::invalidate`: the key has no entry from now on; the
/// other entries stay.
#[verifier::external_body]
pub(crate) fn ticker_store_invalidate(store: &mut moka::sync::Cache<u32, String>, id: u32)
    ensures
        stored_tickers(*final(store)) == stored_tickers(*old(store)).remove(id),
{
    store.invalidate(&id);
}

} // verus!
