//! Data model of the state layer.
//!
//! Every price, size and fee is a fixed-point integer in caller-chosen
//! units; timestamps are milliseconds since the Unix epoch.  The types
//! mirror the shapes delivered by the exchange stream: public market
//! trades, candles, order-book snapshots with price levels, the user's
//! own fills, and mid prices.
//!
//! All `Clone` impls here are written by hand so that the verifier knows
//! a clone equals the original; this is what lets store accessors promise
//! that they return exact copies.

use vstd::prelude::*;

verus! {

/// Which side of the book an order or fill was on.
#[derive(Clone, Copy, PartialEq, Eq, Structural, Debug)]
pub enum Side {
    Buy,
    Sell,
}

/// A public market trade reported by the exchange.
#[derive(Debug)]
pub struct CustomTrade {
    pub coin: String,
    pub side: Side,
    pub price: u64,
    pub size: u64,
    pub timestamp: u64,
    pub hash: String,
}

impl Clone for CustomTrade {
    fn clone(&self) -> (res: Self)
        ensures
            res == *self,
    {
        CustomTrade {
            coin: self.coin.clone(),
            side: self.side,
            price: self.price,
            size: self.size,
            timestamp: self.timestamp,
            hash: self.hash.clone(),
        }
    }
}

/// One candle of a coin/interval series.  A candle is mutable until its
/// interval closes: later messages for the same `time_open` replace the
/// stored entry.
#[derive(Debug)]
pub struct CustomCandle {
    pub coin: String,
    pub interval: String,
    pub open: u64,
    pub high: u64,
    pub low: u64,
    pub close: u64,
    pub volume: u64,
    pub num_trades: u64,
    pub time_close: u64,
    pub time_open: u64,
}

impl Clone for CustomCandle {
    fn clone(&self) -> (res: Self)
        ensures
            res == *self,
    {
        CustomCandle {
            coin: self.coin.clone(),
            interval: self.interval.clone(),
            open: self.open,
            high: self.high,
            low: self.low,
            close: self.close,
            volume: self.volume,
            num_trades: self.num_trades,
            time_close: self.time_close,
            time_open: self.time_open,
        }
    }
}

/// One resting price level of an order book side.
#[derive(Debug)]
pub struct CustomLevel {
    pub price: u64,
    pub size: u64,
    pub num_orders: u64,
}

impl Clone for CustomLevel {
    fn clone(&self) -> (res: Self)
        ensures
            res == *self,
    {
        CustomLevel { price: self.price, size: self.size, num_orders: self.num_orders }
    }
}

/// A full order-book snapshot: bids descending by price, asks ascending.
#[derive(Debug)]
pub struct CustomL2Book {
    pub coin: String,
    pub bid_levels: Vec<CustomLevel>,
    pub ask_levels: Vec<CustomLevel>,
    pub timestamp: u64,
}

/// Two book snapshots agree on every observable field.  A cloned `Vec`
/// is only known to equal the original level for level, so book copies
/// are related by this predicate rather than by plain equality.
pub open spec fn book_eq(a: CustomL2Book, b: CustomL2Book) -> bool {
    &&& a.coin == b.coin
    &&& a.bid_levels@ == b.bid_levels@
    &&& a.ask_levels@ == b.ask_levels@
    &&& a.timestamp == b.timestamp
}

impl Clone for CustomL2Book {
    fn clone(&self) -> (res: Self)
        ensures
            book_eq(res, *self),
    {
        let bid_levels = clone_levels(&self.bid_levels);
        let ask_levels = clone_levels(&self.ask_levels);
        CustomL2Book {
            coin: self.coin.clone(),
            bid_levels,
            ask_levels,
            timestamp: self.timestamp,
        }
    }
}

/// An executed trade for the user's own account.
#[derive(Debug)]
pub struct CustomUserFills {
    pub closed_pnl: i64,
    pub coin: String,
    pub crossed: bool,
    pub dir: String,
    pub hash: String,
    pub order_id: u64,
    pub price: u64,
    pub side: Side,
    pub start_position: i64,
    pub size: u64,
    pub timestamp: u64,
    pub fee: i64,
}

impl Clone for CustomUserFills {
    fn clone(&self) -> (res: Self)
        ensures
            res == *self,
    {
        CustomUserFills {
            closed_pnl: self.closed_pnl,
            coin: self.coin.clone(),
            crossed: self.crossed,
            dir: self.dir.clone(),
            hash: self.hash.clone(),
            order_id: self.order_id,
            price: self.price,
            side: self.side,
            start_position: self.start_position,
            size: self.size,
            timestamp: self.timestamp,
            fee: self.fee,
        }
    }
}

/// The mid price of one coin, as delivered by a mids update.
#[derive(Debug)]
pub struct Mid {
    pub coin: String,
    pub price: u64,
}

impl Clone for Mid {
    fn clone(&self) -> (res: Self)
        ensures
            res == *self,
    {
        Mid { coin: self.coin.clone(), price: self.price }
    }
}

/// Static metadata of one tradable asset.
#[derive(Debug)]
pub struct AssetInfo {
    pub internal_name: String,
    pub index: usize,
    pub sz_decimals: u8,
}

impl Clone for AssetInfo {
    fn clone(&self) -> (res: Self)
        ensures
            res == *self,
    {
        AssetInfo {
            internal_name: self.internal_name.clone(),
            index: self.index,
            sz_decimals: self.sz_decimals,
        }
    }
}

/// Clones a level vector; the copy equals the original element for element.
pub fn clone_levels(v: &Vec<CustomLevel>) -> (r: Vec<CustomLevel>)
    ensures
        r@ == v@,
{
    let r = v.clone();
    proof {
        assert forall|i: int| 0 <= i < v@.len() implies r@[i] == v@[i] by {
            assert(cloned::<CustomLevel>(v@[i], r@[i]));
        }
        assert(r@ =~= v@);
    }
    r
}

/// Clones a trade vector; the copy equals the original element for element.
pub fn clone_trades(v: &Vec<CustomTrade>) -> (r: Vec<CustomTrade>)
    ensures
        r@ == v@,
{
    let r = v.clone();
    proof {
        assert forall|i: int| 0 <= i < v@.len() implies r@[i] == v@[i] by {
            assert(cloned::<CustomTrade>(v@[i], r@[i]));
        }
        assert(r@ =~= v@);
    }
    r
}

/// Clones a candle vector; the copy equals the original element for element.
pub fn clone_candles(v: &Vec<CustomCandle>) -> (r: Vec<CustomCandle>)
    ensures
        r@ == v@,
{
    let r = v.clone();
    proof {
        assert forall|i: int| 0 <= i < v@.len() implies r@[i] == v@[i] by {
            assert(cloned::<CustomCandle>(v@[i], r@[i]));
        }
        assert(r@ =~= v@);
    }
    r
}

/// Clones a fill vector; the copy equals the original element for element.
pub fn clone_fills(v: &Vec<CustomUserFills>) -> (r: Vec<CustomUserFills>)
    ensures
        r@ == v@,
{
    let r = v.clone();
    proof {
        assert forall|i: int| 0 <= i < v@.len() implies r@[i] == v@[i] by {
            assert(cloned::<CustomUserFills>(v@[i], r@[i]));
        }
        assert(r@ =~= v@);
    }
    r
}

/// Clones a book vector; the copy agrees with the original book for book.
pub fn clone_books(v: &Vec<CustomL2Book>) -> (r: Vec<CustomL2Book>)
    ensures
        r@.len() == v@.len(),
        forall|i: int| 0 <= i < v@.len() ==> book_eq(#[trigger] r@[i], v@[i]),
{
    let r = v.clone();
    proof {
        assert forall|i: int| 0 <= i < v@.len() implies book_eq(r@[i], v@[i]) by {
            assert(cloned::<CustomL2Book>(v@[i], r@[i]));
        }
    }
    r
}

/// Clones a mids vector; the copy equals the original element for element.
pub fn clone_mids(v: &Vec<Mid>) -> (r: Vec<Mid>)
    ensures
        r@ == v@,
{
    let r = v.clone();
    proof {
        assert forall|i: int| 0 <= i < v@.len() implies r@[i] == v@[i] by {
            assert(cloned::<Mid>(v@[i], r@[i]));
        }
        assert(r@ =~= v@);
    }
    r
}

} // verus!
