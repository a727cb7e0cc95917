use piston::error::DeskError;
use piston::models::Position;
use piston::models::Security;
use piston::models::Trade;
use piston::models::TradeType;
use piston::random::draw_index;
use piston::random::draw_u32;
use piston::security_cache::SecurityCache;
use piston::tick_feed::TickFeed;
use piston::tick_feed::TICK_PRICE_HIGH;
use piston::tick_feed::TICK_PRICE_LOW;
use piston::trade_feed::PendingClose;
use piston::trade_feed::ScheduledTrade;
use piston::trade_feed::TradeFeed;
use piston::trade_feed::BATCH_SIZE;

fn stocked_cache() -> SecurityCache {
    let mut cache = SecurityCache::with_capacity(8);
    cache.insert_security(Security { id: 1, ticker: "AAPL".to_string() });
    cache.insert_security(Security { id: 8, ticker: "TSLA".to_string() });
    cache
}

fn codes() -> Vec<String> {
    vec!["RMCF".to_string(), "ATAR".to_string(), "COLT".to_string()]
}

#[test]
fn draws_stay_within_their_range() {
    let mut seen = [false; 4];
    for _ in 0..400 {
        let drawn = draw_u32(3, 7);
        assert!(3 <= drawn && drawn < 7);
        seen[(drawn - 3) as usize] = true;
        assert!(draw_index(5) < 5);
    }
    assert_eq!(seen, [true; 4]);
    assert_eq!(draw_u32(9, 10), 9);
    assert_eq!(draw_index(1), 0);
}

#[test]
fn tick_feed_prices_each_security_once_per_firing() {
    let feed = TickFeed::new(vec![1, 8], 1000);
    assert_eq!(feed.timescale_ms(), 1000);
    for _ in 0..20 {
        let ticks = feed.fire();
        assert_eq!(ticks.len(), 2);
        assert_eq!(ticks[0].security_id, 1);
        assert_eq!(ticks[1].security_id, 8);
        for tick in ticks {
            assert!(TICK_PRICE_LOW <= tick.price && tick.price < TICK_PRICE_HIGH);
            assert!(10_000 <= tick.price && tick.price < 20_000);
        }
    }
}

#[test]
fn tick_feed_without_securities_fires_nothing() {
    assert!(TickFeed::new(vec![], 5).fire().is_empty());
}

#[test]
fn trade_ids_are_handed_out_in_order() {
    let mut feed = TradeFeed::new(codes(), 1000);
    assert_eq!(feed.peek_next_trade_id(), 0);
    assert_eq!(feed.next_trade_id(), 0);
    assert_eq!(feed.next_trade_id(), 1);
    assert_eq!(feed.next_trade_id(), 2);
    assert_eq!(feed.peek_next_trade_id(), 3);
    assert_eq!(feed.timescale_ms(), 1000);
    assert_eq!(feed.portfolio_count(), 3);
}

#[test]
fn generated_values_stay_within_their_ranges() {
    for _ in 0..200 {
        let size = TradeFeed::gen_size();
        assert!(1 <= size && size < 500);
        let price = TradeFeed::gen_price();
        assert!(5_000 <= price && price < 100_000);
        let delay = TradeFeed::gen_duration();
        assert!(1 <= delay && delay < 50);
    }
}

#[test]
fn mock_position_costs_price_times_size() {
    let security = Security { id: 1, ticker: "AAPL".to_string() };
    let made = TradeFeed::mock_position(3, security.clone(), 10, 10_000);
    assert_eq!(
        made,
        Position { id: 3, security, cost_basis: 100_000, size: 10, unrealized_pnl: 0 }
    );
    let largest = TradeFeed::mock_position(0, made.security.clone(), u32::MAX, u32::MAX);
    assert_eq!(largest.cost_basis, (u32::MAX as u64) * (u32::MAX as u64));
}

#[test]
fn picked_portfolio_is_one_of_the_feed() {
    let feed = TradeFeed::new(codes(), 1000);
    for _ in 0..50 {
        let (index, code) = feed.pick_random_portfolio();
        assert_eq!(code, codes()[index]);
        assert!(codes().contains(&feed.gen_portfolio_code()));
    }
    assert_eq!(feed.portfolio_code_at(2), "COLT");
}

#[test]
fn mock_position_takes_the_next_id_and_a_held_security() {
    let mut cache = stocked_cache();
    let mut feed = TradeFeed::new(codes(), 1000);
    for expected_id in 0..20u32 {
        let made = feed.gen_mock_position(&mut cache).unwrap();
        assert_eq!(made.id, expected_id);
        assert!(made.security.id == 1 || made.security.id == 8);
        assert_eq!(made.security.ticker, if made.security.id == 1 { "AAPL" } else { "TSLA" });
        assert!(1 <= made.size && made.size < 500);
        assert_eq!(made.cost_basis % (made.size as u64), 0);
        let price = made.cost_basis / (made.size as u64);
        assert!(5_000 <= price && price < 100_000);
        assert_eq!(made.unrealized_pnl, 0);
        assert!(made.is_wf());
    }
}

#[test]
fn mock_position_from_an_empty_cache_uses_no_id() {
    let mut cache = SecurityCache::with_capacity(8);
    let mut feed = TradeFeed::new(codes(), 1000);
    assert_eq!(feed.gen_mock_position(&mut cache), Err(DeskError::Empty));
    assert_eq!(TradeFeed::gen_security(&mut cache), Err(DeskError::Empty));
    assert_eq!(feed.peek_next_trade_id(), 0);
}

#[test]
fn batch_holds_five_opens_with_their_closes() {
    let mut cache = stocked_cache();
    let mut feed = TradeFeed::new(codes(), 1000);
    for round in 0..4u32 {
        let batch = feed.schedule_trade_generation(&mut cache).unwrap();
        assert_eq!(batch.len(), 5);
        assert_eq!(batch.len(), BATCH_SIZE as usize);
        for (i, entry) in batch.iter().enumerate() {
            let id = round * 5 + i as u32;
            assert!(codes().contains(&entry.open.portfolio_code));
            assert_eq!(entry.close.portfolio_code, entry.open.portfolio_code);
            assert_eq!(entry.close.trade_type, TradeType::Close(id));
            assert!(1 <= entry.close_after_ms && entry.close_after_ms < 50);
            match &entry.open.trade_type {
                TradeType::Open(position) => {
                    assert_eq!(position.id, id);
                    assert!(position.is_wf());
                    assert_eq!(position.unrealized_pnl, 0);
                },
                TradeType::Close(_) => panic!("the open of a batch entry is a close"),
            }
        }
        assert_eq!(feed.peek_next_trade_id(), (round + 1) * 5);
    }
    assert_eq!(cache.security_count(), 2);
}

#[test]
fn batch_from_an_empty_cache_is_an_error() {
    let mut cache = SecurityCache::with_capacity(8);
    let mut feed = TradeFeed::new(codes(), 1000);
    assert_eq!(feed.schedule_trade_generation(&mut cache), Err(DeskError::Empty));
    assert_eq!(feed.peek_next_trade_id(), 0);
}

#[test]
fn close_follows_a_delivered_open_only() {
    let position = Position::new(7, Security { id: 1, ticker: "AAPL".to_string() }, 10, 100_000);
    let planned = ScheduledTrade::new("RMCF".to_string(), position.clone(), 17);
    let (open, pending) = planned.dispatch();
    assert_eq!(
        open,
        Trade { portfolio_code: "RMCF".to_string(), trade_type: TradeType::Open(position.clone()) }
    );
    let close = Trade { portfolio_code: "RMCF".to_string(), trade_type: TradeType::Close(7) };
    assert_eq!(pending, PendingClose { close, after_ms: 17 });
    let close = Trade { portfolio_code: "RMCF".to_string(), trade_type: TradeType::Close(7) };
    assert_eq!(pending.after_open(true), Ok((17, close)));
    let (_, dropped) = ScheduledTrade::new("RMCF".to_string(), position, 17).dispatch();
    assert_eq!(dropped.after_open(false), Err(DeskError::ChannelUnavailable));
}

#[test]
fn mock_trade_opens_a_position_in_the_given_security() {
    let mut feed = TradeFeed::new(codes(), 1000);
    let security = Security { id: 8, ticker: "TSLA".to_string() };
    for expected_id in 0..30u32 {
        let entry = feed.mock_trade(security.clone());
        assert!(codes().contains(&entry.open.portfolio_code));
        assert_eq!(entry.close.portfolio_code, entry.open.portfolio_code);
        assert_eq!(entry.close.trade_type, TradeType::Close(expected_id));
        assert!(1 <= entry.close_after_ms && entry.close_after_ms < 50);
        match entry.open.trade_type {
            TradeType::Open(position) => {
                assert_eq!(position.id, expected_id);
                assert_eq!(position.security, security);
                assert!(1 <= position.size && position.size < 500);
                assert_eq!(position.cost_basis % (position.size as u64), 0);
                let price = position.cost_basis / (position.size as u64);
                assert!(5_000 <= price && price < 100_000);
            },
            TradeType::Close(_) => panic!("the open of a planned trade is a close"),
        }
    }
    assert_eq!(feed.peek_next_trade_id(), 30);
}

#[test]
fn open_position_takes_consecutive_ids() {
    let mut feed = TradeFeed::new(codes(), 1000);
    let security = Security { id: 1, ticker: "AAPL".to_string() };
    assert_eq!(feed.open_position(security.clone()).id, 0);
    let second = feed.open_position(security.clone());
    assert_eq!(second.id, 1);
    assert_eq!(second.security, security);
    assert_eq!(second.unrealized_pnl, 0);
}
