use piston::error::DeskError;
use piston::models::Security;
use piston::models::Tick;
use piston::security_cache::GetLatestPrice;
use piston::security_cache::GetSecurity;
use piston::security_cache::SecurityCache;
use piston::security_cache::SecurityCacheActor;
use piston::security_cache::DEFAULT_CAPACITY;
use piston::security_cache::INITIAL_PRICE_HIGH;
use piston::security_cache::INITIAL_PRICE_LOW;

fn security(id: u32, ticker: &str) -> Security {
    Security { id, ticker: ticker.to_string() }
}

#[test]
fn stored_price_is_read_back() {
    let mut cache = SecurityCache::with_capacity(8);
    cache.set_last_price(7, 15_000);
    assert_eq!(cache.get_latest_price(7), Some(15_000));
}

#[test]
fn untouched_id_has_no_price() {
    let mut cache = SecurityCache::with_capacity(8);
    cache.set_last_price(7, 15_000);
    assert_eq!(cache.get_latest_price(99), None);
}

#[test]
fn later_price_overwrites_earlier_price() {
    let mut cache = SecurityCache::with_capacity(2);
    cache.set_last_price(7, 15_000);
    cache.set_last_price(7, 16_250);
    assert_eq!(cache.get_latest_price(7), Some(16_250));
}

#[test]
fn prices_of_different_ids_are_kept_apart() {
    let mut cache = SecurityCache::with_capacity(4);
    cache.set_last_price(1, 100);
    cache.set_last_price(2, 200);
    assert_eq!(cache.get_latest_price(1), Some(100));
    assert_eq!(cache.get_latest_price(2), Some(200));
}

#[test]
fn one_id_too_many_evicts_the_first() {
    let capacity = 5usize;
    let mut cache = SecurityCache::with_capacity(capacity);
    for id in 0..=(capacity as u32) {
        cache.set_last_price(id, 1_000 + id);
    }
    assert_eq!(cache.get_latest_price(0), None);
    for id in 1..=(capacity as u32) {
        assert_eq!(cache.get_latest_price(id), Some(1_000 + id));
    }
}

#[test]
fn a_read_protects_a_price_from_eviction() {
    let mut cache = SecurityCache::with_capacity(3);
    cache.set_last_price(1, 10);
    cache.set_last_price(2, 20);
    cache.set_last_price(3, 30);
    assert_eq!(cache.get_latest_price(1), Some(10));
    cache.set_last_price(4, 40);
    assert_eq!(cache.get_latest_price(2), None);
    assert_eq!(cache.get_latest_price(1), Some(10));
    assert_eq!(cache.get_latest_price(3), Some(30));
    assert_eq!(cache.get_latest_price(4), Some(40));
}

#[test]
fn a_write_to_a_resident_id_evicts_nothing() {
    let mut cache = SecurityCache::with_capacity(2);
    cache.set_last_price(1, 10);
    cache.set_last_price(2, 20);
    cache.set_last_price(1, 11);
    assert_eq!(cache.get_latest_price(1), Some(11));
    assert_eq!(cache.get_latest_price(2), Some(20));
    cache.set_last_price(3, 30);
    assert_eq!(cache.get_latest_price(1), None);
    assert_eq!(cache.get_latest_price(2), Some(20));
    assert_eq!(cache.get_latest_price(3), Some(30));
}

#[test]
fn capacity_of_one_keeps_the_last_price_only() {
    let mut cache = SecurityCache::with_capacity(1);
    cache.set_last_price(1, 10);
    cache.set_last_price(2, 20);
    assert_eq!(cache.get_latest_price(1), None);
    assert_eq!(cache.get_latest_price(2), Some(20));
    assert_eq!(cache.capacity(), 1);
}

#[test]
fn securities_are_stored_and_found() {
    let mut cache = SecurityCache::with_capacity(4);
    cache.insert_security(security(1, "AAPL"));
    cache.insert_security(security(8, "TSLA"));
    assert_eq!(cache.security_count(), 2);
    assert_eq!(cache.get_security(8), Some(security(8, "TSLA")));
    assert_eq!(cache.get_security(1), Some(security(1, "AAPL")));
    assert_eq!(cache.get_security(2), None);
}

#[test]
fn securities_leave_least_recently_used_first() {
    let mut cache = SecurityCache::with_capacity(2);
    cache.insert_security(security(1, "AAPL"));
    cache.insert_security(security(2, "MSFT"));
    assert_eq!(cache.get_security(1), Some(security(1, "AAPL")));
    cache.insert_security(security(3, "AMZN"));
    assert_eq!(cache.security_count(), 2);
    assert_eq!(cache.get_security(2), None);
    assert_eq!(cache.get_security(1), Some(security(1, "AAPL")));
    assert_eq!(cache.get_security(3), Some(security(3, "AMZN")));
}

#[test]
fn security_at_follows_the_order_of_last_use() {
    let mut cache = SecurityCache::with_capacity(4);
    cache.insert_security(security(1, "AAPL"));
    cache.insert_security(security(2, "MSFT"));
    cache.insert_security(security(3, "AMZN"));
    assert_eq!(cache.security_at(0), security(1, "AAPL"));
    assert_eq!(cache.security_at(0), security(2, "MSFT"));
    assert_eq!(cache.security_at(2), security(2, "MSFT"));
    assert_eq!(cache.security_at(0), security(3, "AMZN"));
}

#[test]
fn random_security_of_an_empty_cache_is_an_error() {
    let mut cache = SecurityCache::with_capacity(4);
    assert_eq!(cache.get_random_security(), Err(DeskError::Empty));
    cache.set_last_price(1, 10);
    assert_eq!(cache.get_random_security(), Err(DeskError::Empty));
}

#[test]
fn random_security_is_one_of_those_held() {
    let mut cache = SecurityCache::with_capacity(4);
    cache.insert_security(security(1, "AAPL"));
    cache.insert_security(security(2, "MSFT"));
    cache.insert_security(security(3, "AMZN"));
    for _ in 0..50 {
        let drawn = cache.get_random_security().unwrap();
        let expected = match drawn.id {
            1 => "AAPL",
            2 => "MSFT",
            3 => "AMZN",
            _ => panic!("drew a security that is not held"),
        };
        assert_eq!(drawn.ticker, expected);
    }
    assert_eq!(cache.security_count(), 3);
}

#[test]
fn seeding_stores_each_security_with_its_price() {
    let mut cache = SecurityCache::with_capacity(4);
    cache.seed(vec![security(1, "AAPL"), security(2, "MSFT")], vec![12_000, 13_000]);
    assert_eq!(cache.get_latest_price(1), Some(12_000));
    assert_eq!(cache.get_latest_price(2), Some(13_000));
    assert_eq!(cache.get_security(2), Some(security(2, "MSFT")));
    assert_eq!(cache.security_count(), 2);
}

#[test]
fn new_cache_prices_every_security_within_the_initial_range() {
    let universe = vec![security(1, "AAPL"), security(2, "MSFT"), security(3, "AMZN")];
    let mut cache = SecurityCache::new(universe);
    assert_eq!(cache.capacity(), DEFAULT_CAPACITY);
    assert_eq!(cache.capacity(), 512);
    assert_eq!(cache.security_count(), 3);
    for id in 1..=3u32 {
        let price = cache.get_latest_price(id).unwrap();
        assert!(INITIAL_PRICE_LOW <= price && price < INITIAL_PRICE_HIGH);
    }
    assert_eq!(cache.get_latest_price(4), None);
    assert_eq!(cache.get_security(3), Some(security(3, "AMZN")));
}

#[test]
fn new_cache_of_more_securities_than_fit_keeps_the_last() {
    let mut universe = Vec::new();
    for id in 0..600u32 {
        universe.push(security(id, "X"));
    }
    let mut cache = SecurityCache::new(universe);
    assert_eq!(cache.security_count(), 512);
    assert_eq!(cache.get_security(87), None);
    assert_eq!(cache.get_latest_price(87), None);
    assert_eq!(cache.get_security(88), Some(security(88, "X")));
    assert!(cache.get_latest_price(599).is_some());
}

#[test]
fn actor_takes_ticks_and_answers_requests() {
    let mut cache = SecurityCache::with_capacity(4);
    cache.insert_security(security(1, "AAPL"));
    let mut actor = SecurityCacheActor::new(cache);
    assert_eq!(actor.handle_get_latest_price(GetLatestPrice(1)), None);
    actor.handle(Tick { security_id: 1, price: 15_000 });
    assert_eq!(actor.handle_get_latest_price(GetLatestPrice(1)), Some(15_000));
    actor.handle(Tick { security_id: 1, price: 15_100 });
    assert_eq!(actor.handle_get_latest_price(GetLatestPrice(1)), Some(15_100));
    assert_eq!(actor.handle_get_security(GetSecurity(1)), Some(security(1, "AAPL")));
    assert_eq!(actor.handle_get_security(GetSecurity(2)), None);
    assert_eq!(actor.handle_get_random_security(), Ok(security(1, "AAPL")));
}

#[test]
fn actor_without_securities_reports_empty() {
    let mut actor = SecurityCacheActor::new(SecurityCache::with_capacity(1));
    assert_eq!(actor.handle_get_random_security(), Err(DeskError::Empty));
}

struct Steps(u64);

impl Steps {
    fn next(&mut self, bound: u32) -> u32 {
        self.0 = self.0.wrapping_mul(6364136223846793005).wrapping_add(1442695040888963407);
        ((self.0 >> 33) as u32) % bound
    }
}

fn model_touch(order: &mut Vec<(u32, u32)>, id: u32) -> Option<u32> {
    let at = order.iter().position(|entry| entry.0 == id)?;
    let entry = order.remove(at);
    order.push(entry);
    Some(entry.1)
}

#[test]
fn long_runs_agree_with_a_list_kept_by_hand() {
    for capacity in 1..6usize {
        let mut steps = Steps(capacity as u64);
        let mut cache = SecurityCache::with_capacity(capacity);
        let mut model: Vec<(u32, u32)> = Vec::new();
        for round in 0..4_000u32 {
            let id = steps.next(9);
            if steps.next(3) == 0 {
                assert_eq!(cache.get_latest_price(id), model_touch(&mut model, id));
            } else {
                cache.set_last_price(id, round);
                if model_touch(&mut model, id).is_some() {
                    model.last_mut().unwrap().1 = round;
                } else {
                    if model.len() == capacity {
                        model.remove(0);
                    }
                    model.push((id, round));
                }
            }
        }
        for id in 0..9u32 {
            let expected = model.iter().find(|entry| entry.0 == id).map(|entry| entry.1);
            assert_eq!(cache.get_latest_price(id), expected);
        }
    }
}

#[test]
fn a_store_far_beyond_its_capacity_keeps_only_the_latest() {
    let mut cache = SecurityCache::with_capacity(3);
    for id in 0..5_000u32 {
        cache.set_last_price(id, id + 1);
        cache.insert_security(Security { id, ticker: id.to_string() });
    }
    assert_eq!(cache.security_count(), 3);
    for id in 0..4_997u32 {
        assert_eq!(cache.get_latest_price(id), None);
    }
    for id in 4_997..5_000u32 {
        assert_eq!(cache.get_latest_price(id), Some(id + 1));
        assert_eq!(cache.get_security(id), Some(security(id, &id.to_string())));
    }
}
