use stream_state::dispatch::{DispatchAction, StreamEvent};
use stream_state::model::{
    CustomCandle, CustomL2Book, CustomLevel, CustomTrade, CustomUserFills, Mid, Side,
};
use stream_state::store::WsData;

fn trade(price: u64, ts: u64) -> CustomTrade {
    CustomTrade {
        coin: "ETH".to_string(),
        side: Side::Buy,
        price,
        size: 1,
        timestamp: ts,
        hash: String::new(),
    }
}

fn candle(open_time: u64, close: u64) -> CustomCandle {
    CustomCandle {
        coin: "ETH".to_string(),
        interval: "1m".to_string(),
        open: 1,
        high: 2,
        low: 1,
        close,
        volume: 10,
        num_trades: 3,
        time_close: open_time + 60_000,
        time_open: open_time,
    }
}

fn level(price: u64, size: u64) -> CustomLevel {
    CustomLevel { price, size, num_orders: 1 }
}

fn book(bids: Vec<CustomLevel>, asks: Vec<CustomLevel>, ts: u64) -> CustomL2Book {
    CustomL2Book { coin: "ETH".to_string(), bid_levels: bids, ask_levels: asks, timestamp: ts }
}

fn fill(coin: &str, price: u64, size: u64, side: Side) -> CustomUserFills {
    CustomUserFills {
        closed_pnl: 0,
        coin: coin.to_string(),
        crossed: false,
        dir: String::new(),
        hash: String::new(),
        order_id: 0,
        price,
        side,
        start_position: 0,
        size,
        timestamp: 0,
        fee: 0,
    }
}

#[test]
fn trade_buffer_evicts_oldest_first() {
    let mut ws = WsData::new();
    ws.set_max_trades(3);
    ws.add_trade(vec![trade(1, 1), trade(2, 2)]);
    assert_eq!(ws.get_trades().len(), 2);
    ws.add_trade(vec![trade(3, 3), trade(4, 4), trade(5, 5)]);
    let trades = ws.get_trades();
    assert_eq!(trades.len(), 3);
    // the two oldest were evicted, the newest three remain in order
    assert_eq!(trades[0].timestamp, 3);
    assert_eq!(trades[1].timestamp, 4);
    assert_eq!(trades[2].timestamp, 5);
}

#[test]
fn trade_buffer_never_exceeds_cap() {
    let mut ws = WsData::new();
    ws.set_max_trades(2);
    for i in 0..10 {
        ws.add_trade(vec![trade(i, i)]);
        assert!(ws.get_trades().len() <= 2);
    }
    let trades = ws.get_trades();
    assert_eq!(trades[0].timestamp, 8);
    assert_eq!(trades[1].timestamp, 9);
}

#[test]
fn candle_with_same_open_time_replaces_in_place() {
    let mut ws = WsData::new();
    ws.add_candle(candle(1000, 5));
    ws.add_candle(candle(2000, 6));
    ws.add_candle(candle(1000, 9));
    let candles = ws.get_candles();
    assert_eq!(candles.len(), 2);
    // position preserved, fields taken from the latest update
    assert_eq!(candles[0].time_open, 1000);
    assert_eq!(candles[0].close, 9);
    assert_eq!(candles[1].time_open, 2000);
    assert_eq!(candles[1].close, 6);
}

#[test]
fn candle_buffer_evicts_oldest_first() {
    let mut ws = WsData::new();
    ws.set_max_candles(2);
    ws.add_candle(candle(1000, 1));
    ws.add_candle(candle(2000, 2));
    ws.add_candle(candle(3000, 3));
    let candles = ws.get_candles();
    assert_eq!(candles.len(), 2);
    assert_eq!(candles[0].time_open, 2000);
    assert_eq!(candles[1].time_open, 3000);
}

#[test]
fn best_bid_ask_follow_latest_snapshot() {
    let mut ws = WsData::new();
    assert_eq!(ws.get_best_bid(), 0);
    assert_eq!(ws.get_best_ask(), 0);
    ws.add_l2_book(book(vec![level(99, 5), level(98, 7)], vec![level(101, 4)], 1));
    assert_eq!(ws.get_best_bid(), 99);
    assert_eq!(ws.get_best_ask(), 101);
    ws.add_l2_book(book(vec![level(100, 5)], vec![level(102, 4), level(103, 1)], 2));
    assert_eq!(ws.get_best_bid(), 100);
    assert_eq!(ws.get_best_ask(), 102);
}

#[test]
fn empty_book_side_gives_zero_best() {
    let mut ws = WsData::new();
    ws.add_l2_book(book(vec![], vec![level(101, 4)], 1));
    assert_eq!(ws.get_best_bid(), 0);
    assert_eq!(ws.get_best_ask(), 101);
    ws.add_l2_book(book(vec![level(99, 1)], vec![], 2));
    assert_eq!(ws.get_best_bid(), 99);
    assert_eq!(ws.get_best_ask(), 0);
}

#[test]
fn book_buffer_evicts_oldest_first() {
    let mut ws = WsData::new();
    ws.set_max_l2_book(2);
    ws.add_l2_book(book(vec![level(1, 1)], vec![], 1));
    ws.add_l2_book(book(vec![level(2, 1)], vec![], 2));
    ws.add_l2_book(book(vec![level(3, 1)], vec![], 3));
    let books = ws.get_l2_books();
    assert_eq!(books.len(), 2);
    assert_eq!(books[0].timestamp, 2);
    assert_eq!(books[1].timestamp, 3);
}

#[test]
fn thickness_sums_latest_snapshot() {
    let mut ws = WsData::new();
    assert_eq!(ws.calculate_thickness(), (0, 0));
    ws.add_l2_book(book(vec![level(99, 5), level(98, 7)], vec![level(101, 4)], 1));
    assert_eq!(ws.calculate_thickness(), (12, 4));
    ws.add_l2_book(book(vec![level(99, 1)], vec![level(101, 2), level(102, 3)], 2));
    assert_eq!(ws.calculate_thickness(), (1, 5));
}

#[test]
fn average_thickness_over_all_snapshots() {
    let mut ws = WsData::new();
    assert_eq!(ws.calculate_average_thickness(), (0, 0));
    ws.add_l2_book(book(vec![level(99, 10)], vec![level(101, 2)], 1));
    ws.add_l2_book(book(vec![level(99, 20)], vec![level(101, 4)], 2));
    assert_eq!(ws.calculate_average_thickness(), (15, 3));
}

#[test]
fn thickness_near_best_uses_price_window() {
    let mut ws = WsData::new();
    assert_eq!(ws.calculate_thickness_near_best(1, 2), (0, 0));
    ws.add_l2_book(book(
        vec![level(100, 1), level(99, 2), level(97, 4)],
        vec![level(101, 8), level(103, 16), level(104, 32)],
        1,
    ));
    // window 2 ticks of size 1: bids in [98, 100], asks in [101, 103]
    assert_eq!(ws.calculate_thickness_near_best(1, 2), (3, 24));
    // window 0: only the best level on each side
    assert_eq!(ws.calculate_thickness_near_best(1, 0), (1, 8));
}

#[test]
fn fills_feed_buffer_and_positions() {
    let mut ws = WsData::new();
    let dropped = ws.add_fills(vec![
        fill("ETH", 100, 1, Side::Buy),
        fill("ETH", 200, 1, Side::Buy),
    ]);
    assert_eq!(dropped, 0);
    assert_eq!(ws.get_user_fills().len(), 2);
    let p = ws.get_position("ETH").unwrap();
    assert_eq!(p.amount, 2);
    assert_eq!(p.average_price, 150);
}

#[test]
fn unfittable_fill_is_counted_and_skipped() {
    let mut ws = WsData::new();
    let dropped = ws.add_fills(vec![
        fill("ETH", 100, 1, Side::Buy),
        fill("ETH", 100, u64::MAX, Side::Buy),
    ]);
    assert_eq!(dropped, 1);
    // the rejected fill stays in the buffer but not in the position
    assert_eq!(ws.get_user_fills().len(), 2);
    let p = ws.get_position("ETH").unwrap();
    assert_eq!(p.amount, 1);
}

#[test]
fn mids_update_replaces_wholesale() {
    let mut ws = WsData::new();
    ws.set_all_mids(vec![Mid { coin: "A".to_string(), price: 1 }]);
    ws.set_all_mids(vec![Mid { coin: "B".to_string(), price: 2 }]);
    let mids = ws.get_all_mids();
    assert_eq!(mids.len(), 1);
    assert_eq!(mids[0].coin, "B");
    assert_eq!(mids[0].price, 2);
}

#[test]
fn store_unrealized_pnl_uses_recorded_mid() {
    let mut ws = WsData::new();
    ws.add_fills(vec![fill("ETH", 100, 3, Side::Buy)]);
    ws.set_all_mids(vec![Mid { coin: "ETH".to_string(), price: 110 }]);
    assert_eq!(ws.get_unrealized_pnl("ETH"), 30);
    // a coin without a mid price is marked at zero
    ws.set_all_mids(vec![]);
    assert_eq!(ws.get_unrealized_pnl("ETH"), -300);
}

#[test]
fn dispatch_routes_each_event_kind() {
    let mut ws = WsData::new();
    let a = ws.apply_event(StreamEvent::MidsUpdate {
        mids: vec![Mid { coin: "ETH".to_string(), price: 5 }],
    });
    assert!(matches!(a, DispatchAction::Continue));
    assert_eq!(ws.get_all_mids().len(), 1);

    let a = ws.apply_event(StreamEvent::TradeBatch { trades: vec![trade(1, 1)] });
    assert!(matches!(a, DispatchAction::Continue));
    assert_eq!(ws.get_trades().len(), 1);

    let a = ws.apply_event(StreamEvent::CandleUpdate { candle: candle(1000, 5) });
    assert!(matches!(a, DispatchAction::Continue));
    assert_eq!(ws.get_candles().len(), 1);

    let a = ws.apply_event(StreamEvent::BookSnapshot {
        book: book(vec![level(99, 1)], vec![level(101, 1)], 1),
    });
    assert!(matches!(a, DispatchAction::Continue));
    assert_eq!(ws.get_best_bid(), 99);

    let a = ws.apply_event(StreamEvent::Disconnected);
    assert!(matches!(a, DispatchAction::ReportDisconnect));

    let a = ws.apply_event(StreamEvent::Unknown);
    assert!(matches!(a, DispatchAction::Ignored));
}

#[test]
fn dispatch_hands_live_fills_to_the_sink() {
    let mut ws = WsData::new();
    let a = ws.apply_event(StreamEvent::FillBatch {
        fills: vec![fill("ETH", 100, 1, Side::Buy)],
        is_snapshot: false,
    });
    match a {
        DispatchAction::PersistFills { fills, dropped } => {
            assert_eq!(fills.len(), 1);
            assert_eq!(dropped, 0);
        }
        _ => panic!("expected a persist action"),
    }
    assert_eq!(ws.get_position("ETH").unwrap().amount, 1);
}

#[test]
fn dispatch_skips_snapshot_fill_batches() {
    let mut ws = WsData::new();
    let a = ws.apply_event(StreamEvent::FillBatch {
        fills: vec![fill("ETH", 100, 1, Side::Buy)],
        is_snapshot: true,
    });
    assert!(matches!(a, DispatchAction::Ignored));
    assert!(ws.get_position("ETH").is_none());
    assert_eq!(ws.get_user_fills().len(), 0);
}

#[test]
fn trade_cap_of_zero_keeps_nothing() {
    let mut ws = WsData::new();
    ws.set_max_trades(0);
    ws.add_trade(vec![trade(1, 1), trade(2, 2)]);
    assert_eq!(ws.get_trades().len(), 0);
}

#[test]
fn book_cap_of_zero_leaves_best_prices_stale() {
    let mut ws = WsData::new();
    ws.add_l2_book(book(vec![level(99, 1)], vec![level(101, 1)], 1));
    assert_eq!(ws.get_best_bid(), 99);
    ws.set_max_l2_book(0);
    // the inserted snapshot is evicted immediately, so the best
    // prices keep their previous values
    ws.add_l2_book(book(vec![level(50, 1)], vec![level(51, 1)], 2));
    assert_eq!(ws.get_l2_books().len(), 0);
    assert_eq!(ws.get_best_bid(), 99);
    assert_eq!(ws.get_best_ask(), 101);
}

#[test]
fn lowering_cap_applies_on_next_insertion() {
    let mut ws = WsData::new();
    ws.add_trade(vec![trade(1, 1), trade(2, 2), trade(3, 3)]);
    ws.set_max_trades(1);
    // nothing evicted yet
    assert_eq!(ws.get_trades().len(), 3);
    ws.add_trade(vec![trade(4, 4)]);
    let trades = ws.get_trades();
    assert_eq!(trades.len(), 1);
    assert_eq!(trades[0].timestamp, 4);
}
