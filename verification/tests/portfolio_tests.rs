use stream_state::model::{CustomUserFills, Mid, Side};
use stream_state::portfolio::{PortfolioManager, TrackerError};

fn fill(coin: &str, price: u64, size: u64, side: Side, fee: i64) -> CustomUserFills {
    CustomUserFills {
        closed_pnl: 0,
        coin: coin.to_string(),
        crossed: false,
        dir: String::new(),
        hash: String::new(),
        order_id: 0,
        price,
        side,
        start_position: 0,
        size,
        timestamp: 0,
        fee,
    }
}

#[test]
fn same_side_average_is_size_weighted_mean() {
    let mut pm = PortfolioManager::new();
    pm.update_position(&fill("ETH", 100, 1, Side::Buy, 0)).unwrap();
    pm.update_position(&fill("ETH", 200, 1, Side::Buy, 0)).unwrap();
    let p = pm.get_position(&"ETH".to_string()).unwrap();
    assert_eq!(p.amount, 2);
    assert_eq!(p.average_price, 150);
    assert_eq!(p.pnl.realized, 0);
}

#[test]
fn weighted_average_uneven_sizes() {
    let mut pm = PortfolioManager::new();
    pm.update_position(&fill("ETH", 100, 3, Side::Buy, 0)).unwrap();
    pm.update_position(&fill("ETH", 300, 1, Side::Buy, 0)).unwrap();
    let p = pm.get_position(&"ETH".to_string()).unwrap();
    assert_eq!(p.amount, 4);
    // (3*100 + 1*300) / 4
    assert_eq!(p.average_price, 150);
}

#[test]
fn open_partial_close_full_close_realized() {
    let mut pm = PortfolioManager::new();
    pm.update_position(&fill("BTC", 100, 2, Side::Buy, 0)).unwrap();
    pm.update_position(&fill("BTC", 110, 1, Side::Sell, 0)).unwrap();
    let p = pm.get_position(&"BTC".to_string()).unwrap();
    assert_eq!(p.amount, 1);
    assert_eq!(p.average_price, 100);
    assert_eq!(p.pnl.realized, 10);
    pm.update_position(&fill("BTC", 120, 1, Side::Sell, 0)).unwrap();
    let p = pm.get_position(&"BTC".to_string()).unwrap();
    assert_eq!(p.amount, 0);
    assert_eq!(p.average_price, 0);
    assert_eq!(p.pnl.realized, 30);
}

#[test]
fn short_position_realizes_on_buy_back() {
    let mut pm = PortfolioManager::new();
    pm.update_position(&fill("SOL", 100, 2, Side::Sell, 0)).unwrap();
    let p = pm.get_position(&"SOL".to_string()).unwrap();
    assert_eq!(p.amount, -2);
    assert_eq!(p.average_price, 100);
    // buy back below entry: profit (fill price - avg) * sign(-1) * closed
    pm.update_position(&fill("SOL", 90, 2, Side::Buy, 0)).unwrap();
    let p = pm.get_position(&"SOL".to_string()).unwrap();
    assert_eq!(p.amount, 0);
    assert_eq!(p.pnl.realized, 20);
}

#[test]
fn flip_adopts_fill_price_for_residual() {
    let mut pm = PortfolioManager::new();
    pm.update_position(&fill("ETH", 100, 1, Side::Buy, 0)).unwrap();
    // sell 3 against a long 1: close 1, open short 2 at the fill price
    pm.update_position(&fill("ETH", 130, 3, Side::Sell, 0)).unwrap();
    let p = pm.get_position(&"ETH".to_string()).unwrap();
    assert_eq!(p.amount, -2);
    assert_eq!(p.average_price, 130);
    assert_eq!(p.pnl.realized, 30);
}

#[test]
fn unrealized_pnl_zero_when_flat() {
    let mut pm = PortfolioManager::new();
    pm.update_position(&fill("BTC", 100, 1, Side::Buy, 0)).unwrap();
    pm.update_position(&fill("BTC", 100, 1, Side::Sell, 0)).unwrap();
    // flat position: zero for any mark price
    assert_eq!(pm.get_unrealized_pnl(&"BTC".to_string(), 0), 0);
    assert_eq!(pm.get_unrealized_pnl(&"BTC".to_string(), 1), 0);
    assert_eq!(pm.get_unrealized_pnl(&"BTC".to_string(), u64::MAX), 0);
    // untracked coin: zero too
    assert_eq!(pm.get_unrealized_pnl(&"ETH".to_string(), 12345), 0);
}

#[test]
fn unrealized_pnl_of_open_position() {
    let mut pm = PortfolioManager::new();
    pm.update_position(&fill("BTC", 100, 3, Side::Buy, 0)).unwrap();
    assert_eq!(pm.get_unrealized_pnl(&"BTC".to_string(), 110), 30);
    assert_eq!(pm.get_unrealized_pnl(&"BTC".to_string(), 90), -30);
}

#[test]
fn buy_fee_comes_out_of_amount_sell_fee_out_of_realized() {
    let mut pm = PortfolioManager::new();
    pm.update_position(&fill("ETH", 100, 10, Side::Buy, 1)).unwrap();
    let p = pm.get_position(&"ETH".to_string()).unwrap();
    assert_eq!(p.amount, 9);
    assert_eq!(p.pnl.fee_in_token, 1);
    assert_eq!(p.pnl.fee_in_usdc, 0);
    assert_eq!(p.pnl.realized, 0);
    pm.update_position(&fill("ETH", 100, 4, Side::Sell, 2)).unwrap();
    let p = pm.get_position(&"ETH".to_string()).unwrap();
    assert_eq!(p.amount, 5);
    assert_eq!(p.pnl.fee_in_token, 1);
    assert_eq!(p.pnl.fee_in_usdc, 2);
    // price equals entry, so realized is only the quote fee
    assert_eq!(p.pnl.realized, -2);
}

#[test]
fn oversized_fill_is_rejected_and_leaves_state() {
    let mut pm = PortfolioManager::new();
    pm.update_position(&fill("ETH", 100, 1, Side::Buy, 0)).unwrap();
    let r = pm.update_position(&fill("ETH", 100, u64::MAX, Side::Buy, 0));
    assert_eq!(r, Err(TrackerError::Overflow));
    let p = pm.get_position(&"ETH".to_string()).unwrap();
    assert_eq!(p.amount, 1);
    assert_eq!(p.average_price, 100);
}

#[test]
fn positions_are_created_lazily_and_never_deleted() {
    let mut pm = PortfolioManager::new();
    assert!(pm.get_position(&"ETH".to_string()).is_none());
    pm.update_position(&fill("ETH", 100, 1, Side::Buy, 0)).unwrap();
    pm.update_position(&fill("ETH", 100, 1, Side::Sell, 0)).unwrap();
    // fully closed, but the record persists
    let p = pm.get_position(&"ETH".to_string()).unwrap();
    assert_eq!(p.amount, 0);
    assert_eq!(pm.get_positions().len(), 1);
}

#[test]
fn total_realized_pnl_sums_all_coins() {
    let mut pm = PortfolioManager::new();
    pm.update_position(&fill("A", 100, 1, Side::Buy, 0)).unwrap();
    pm.update_position(&fill("A", 130, 1, Side::Sell, 0)).unwrap();
    pm.update_position(&fill("B", 50, 2, Side::Buy, 0)).unwrap();
    pm.update_position(&fill("B", 40, 2, Side::Sell, 0)).unwrap();
    assert_eq!(pm.get_total_realized_pnl(), Some(30 - 20));
}

#[test]
fn unrealized_report_skips_coins_without_mark() {
    let mut pm = PortfolioManager::new();
    pm.update_position(&fill("A", 100, 1, Side::Buy, 0)).unwrap();
    pm.update_position(&fill("B", 200, 1, Side::Buy, 0)).unwrap();
    let prices = vec![Mid { coin: "A".to_string(), price: 110 }];
    let (total, entries) = pm.get_total_and_individual_unrealized_pnl(&prices);
    assert_eq!(total, Some(10));
    assert_eq!(entries.len(), 1);
    assert_eq!(entries[0].coin, "A");
    assert_eq!(entries[0].pnl.unrealized, 10);
}

#[test]
fn cumulative_pnl_series_per_coin() {
    let mut fills = Vec::new();
    let mut f1 = fill("A", 0, 0, Side::Sell, 0);
    f1.closed_pnl = 5;
    f1.timestamp = 1;
    let mut f2 = fill("B", 0, 0, Side::Sell, 0);
    f2.closed_pnl = 7;
    f2.timestamp = 2;
    let mut f3 = fill("A", 0, 0, Side::Sell, 0);
    f3.closed_pnl = -2;
    f3.timestamp = 3;
    fills.push(f1);
    fills.push(f2);
    fills.push(f3);
    let coins = stream_state::portfolio::distinct_coins(&fills);
    assert_eq!(coins, vec!["A".to_string(), "B".to_string()]);
    let a = stream_state::portfolio::cumulative_pnl_points(&fills, &"A".to_string()).unwrap();
    assert_eq!(a.len(), 2);
    assert_eq!((a[0].timestamp, a[0].cumulative), (1, 5));
    assert_eq!((a[1].timestamp, a[1].cumulative), (3, 3));
    let b = stream_state::portfolio::cumulative_pnl_points(&fills, &"B".to_string()).unwrap();
    assert_eq!(b.len(), 1);
    assert_eq!((b[0].timestamp, b[0].cumulative), (2, 7));
}

#[test]
fn zero_size_fill_against_open_position_is_noop_on_amount() {
    let mut pm = PortfolioManager::new();
    pm.update_position(&fill("ETH", 100, 5, Side::Buy, 0)).unwrap();
    pm.update_position(&fill("ETH", 999, 0, Side::Sell, 0)).unwrap();
    let p = pm.get_position(&"ETH".to_string()).unwrap();
    assert_eq!(p.amount, 5);
    assert_eq!(p.average_price, 100);
    assert_eq!(p.pnl.realized, 0);
}
