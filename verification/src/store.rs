//! The rolling state store: bounded, queryable collections of recent
//! trades, candles, order-book snapshots, user fills and mid prices,
//! together with derived best bid/ask and liquidity thickness.
//!
//! Every bounded collection is a pure FIFO buffer: an insertion that
//! exceeds the configured maximum evicts from the head, oldest first.
//! Candles are keyed-merged on `time_open`: a later message for the
//! same open time replaces the stored entry in place.  All accessors
//! return independent copies, so no caller ever observes a partially
//! updated collection.

use vstd::prelude::*;

use crate::model::CustomCandle;
use crate::model::CustomL2Book;
use crate::model::CustomLevel;
use crate::model::CustomTrade;
use crate::model::CustomUserFills;
use crate::model::Mid;
use crate::model::book_eq;
use crate::model::clone_books;
use crate::model::clone_candles;
use crate::model::clone_fills;
use crate::model::clone_mids;
use crate::model::clone_trades;
use crate::portfolio::PortfolioManager;
use crate::portfolio::Position;
use crate::portfolio::count_dropped;
use crate::portfolio::find_mid;
use crate::portfolio::has_coin;
use crate::portfolio::lookup_mid;
use crate::portfolio::pm_after_fill_batch;
use crate::portfolio::position_unrealized;

verus! {

/// What a bounded FIFO buffer holds after an insertion: the newest
/// `max` elements of the combined sequence, oldest evicted first.
pub open spec fn fifo_result<T>(combined: Seq<T>, max: int) -> Seq<T> {
    if combined.len() > max {
        combined.skip(combined.len() - max)
    } else {
        combined
    }
}

/// Index of the first candle with this open time, if any.
fn find_candle_index(candles: &Vec<CustomCandle>, time_open: u64) -> (r: Option<usize>)
    ensures
        (r matches Some(i) ==> i < candles@.len() && candles@[i as int].time_open == time_open && (
        forall|j: int| 0 <= j < i ==> candles@[j].time_open != time_open)),
        r is None ==> forall|j: int| 0 <= j < candles@.len() ==> candles@[j].time_open != time_open,
{
    let n = candles.len();
    let mut k: usize = 0;
    while k < n
        invariant
            k <= n,
            n == candles@.len(),
            forall|j: int| 0 <= j < k ==> candles@[j].time_open != time_open,
        decreases n - k,
    {
        if candles[k].time_open == time_open {
            return Some(k);
        }
        k += 1;
    }
    None
}

/// Drops elements from the head until at most `max` remain.
fn evict_front<T>(v: &mut Vec<T>, max: usize)
    ensures
        final(v)@ == fifo_result(old(v)@, max as int),
{
    let ghost orig = v@;
    proof {
        assert(orig.skip(0) =~= orig);
    }
    while v.len() > max
        invariant
            v@.len() <= orig.len(),
            v@ == orig.skip(orig.len() - v@.len()),
            v@.len() >= vstd::math::min(orig.len() as int, max as int),
        decreases v@.len(),
    {
        let ghost before = v@;
        v.remove(0);
        proof {
            assert(before.remove(0) =~= orig.skip(orig.len() - before.len() + 1));
        }
    }
}

/// Total resting size over a sequence of levels.
pub open spec fn levels_size_sum(ls: Seq<CustomLevel>) -> int
    decreases ls.len(),
{
    if ls.len() == 0 {
        0
    } else {
        levels_size_sum(ls.drop_last()) + ls.last().size
    }
}

/// Total resting size over the levels whose price lies in `[lo, hi]`.
pub open spec fn levels_sum_in_range(ls: Seq<CustomLevel>, lo: int, hi: int) -> int
    decreases ls.len(),
{
    if ls.len() == 0 {
        0
    } else {
        levels_sum_in_range(ls.drop_last(), lo, hi) + (if lo <= ls.last().price <= hi {
            ls.last().size as int
        } else {
            0int
        })
    }
}

/// Level prices are nonnegative, so a lower bound below zero filters
/// nothing more than a lower bound of zero.
proof fn lemma_sum_in_range_floor_at_zero(ls: Seq<CustomLevel>, lo: int, hi: int)
    ensures
        levels_sum_in_range(ls, lo, hi) == levels_sum_in_range(ls, vstd::math::max(0, lo), hi),
    decreases ls.len(),
{
    if ls.len() > 0 {
        lemma_sum_in_range_floor_at_zero(ls.drop_last(), lo, hi);
    }
}

/// Adds with a ceiling at the top of `u128`.
pub open spec fn sat_cap(x: int) -> int {
    if x > u128::MAX {
        u128::MAX as int
    } else {
        x
    }
}

/// Grand bid-side total over all snapshots, saturating at `u128`.
pub open spec fn books_bid_total_sat(bs: Seq<CustomL2Book>) -> int
    decreases bs.len(),
{
    if bs.len() == 0 {
        0
    } else {
        sat_cap(books_bid_total_sat(bs.drop_last()) + levels_size_sum(bs.last().bid_levels@))
    }
}

/// Grand ask-side total over all snapshots, saturating at `u128`.
pub open spec fn books_ask_total_sat(bs: Seq<CustomL2Book>) -> int
    decreases bs.len(),
{
    if bs.len() == 0 {
        0
    } else {
        sat_cap(books_ask_total_sat(bs.drop_last()) + levels_size_sum(bs.last().ask_levels@))
    }
}

/// Grand bid-side total over all snapshots, without saturation.
pub open spec fn books_bid_total(bs: Seq<CustomL2Book>) -> int
    decreases bs.len(),
{
    if bs.len() == 0 {
        0
    } else {
        books_bid_total(bs.drop_last()) + levels_size_sum(bs.last().bid_levels@)
    }
}

/// Grand ask-side total over all snapshots, without saturation.
pub open spec fn books_ask_total(bs: Seq<CustomL2Book>) -> int
    decreases bs.len(),
{
    if bs.len() == 0 {
        0
    } else {
        books_ask_total(bs.drop_last()) + levels_size_sum(bs.last().ask_levels@)
    }
}

/// A level-size sum is nonnegative.
pub proof fn lemma_levels_sum_nonneg(ls: Seq<CustomLevel>)
    ensures
        levels_size_sum(ls) >= 0,
    decreases ls.len(),
{
    if ls.len() > 0 {
        lemma_levels_sum_nonneg(ls.drop_last());
    }
}

/// LAW of the saturating totals: whenever the true grand total fits
/// `u128`, the saturating fold computes it exactly.
pub proof fn lemma_sat_total_exact(bs: Seq<CustomL2Book>)
    ensures
        books_bid_total(bs) <= u128::MAX ==> books_bid_total_sat(bs) == books_bid_total(bs),
        books_ask_total(bs) <= u128::MAX ==> books_ask_total_sat(bs) == books_ask_total(bs),
        books_bid_total_sat(bs) <= books_bid_total(bs),
        books_ask_total_sat(bs) <= books_ask_total(bs),
        0 <= books_bid_total_sat(bs),
        0 <= books_ask_total_sat(bs),
    decreases bs.len(),
{
    if bs.len() > 0 {
        lemma_sat_total_exact(bs.drop_last());
        lemma_levels_sum_nonneg(bs.last().bid_levels@);
        lemma_levels_sum_nonneg(bs.last().ask_levels@);
    }
}

/// Total resting size over a level vector, computed exactly: the sum
/// of at most `usize::MAX` terms of at most `u64::MAX` always fits
/// `u128`.
fn sum_level_sizes(ls: &Vec<CustomLevel>) -> (r: u128)
    ensures
        r as int == levels_size_sum(ls@),
{
    let n = ls.len();
    let mut acc: u128 = 0;
    let mut k: usize = 0;
    proof {
        assert(ls@.take(0) =~= Seq::<CustomLevel>::empty());
    }
    while k < n
        invariant
            k <= n,
            n == ls@.len(),
            acc as int == levels_size_sum(ls@.take(k as int)),
            acc as int <= (k as int) * (u64::MAX as int),
        decreases n - k,
    {
        proof {
            assert(ls@.take(k as int + 1).drop_last() =~= ls@.take(k as int));
            assert(ls@.take(k as int + 1).last() == ls@[k as int]);
        }
        acc = acc + (ls[k].size as u128);
        k += 1;
    }
    proof {
        assert(ls@.take(n as int) =~= ls@);
    }
    acc
}

/// Total resting size over the levels with price in `[lo, hi]`.
fn sum_level_sizes_in_range(ls: &Vec<CustomLevel>, lo: u128, hi: u128) -> (r: u128)
    ensures
        r as int == levels_sum_in_range(ls@, lo as int, hi as int),
{
    let n = ls.len();
    let mut acc: u128 = 0;
    let mut k: usize = 0;
    proof {
        assert(ls@.take(0) =~= Seq::<CustomLevel>::empty());
    }
    while k < n
        invariant
            k <= n,
            n == ls@.len(),
            acc as int == levels_sum_in_range(ls@.take(k as int), lo as int, hi as int),
            acc as int <= (k as int) * (u64::MAX as int),
        decreases n - k,
    {
        proof {
            assert(ls@.take(k as int + 1).drop_last() =~= ls@.take(k as int));
            assert(ls@.take(k as int + 1).last() == ls@[k as int]);
        }
        let price = ls[k].price as u128;
        if lo <= price && price <= hi {
            acc = acc + (ls[k].size as u128);
        }
        k += 1;
    }
    proof {
        assert(ls@.take(n as int) =~= ls@);
    }
    acc
}

/// The derived state of the stream: rolling buffers, mid prices, best
/// bid/ask of the latest book snapshot, and the position tracker fed
/// by user fills.
#[derive(Debug)]
pub struct WsData {
    pub all_mids: Vec<Mid>,
    pub trades: Vec<CustomTrade>,
    pub max_trades: usize,
    pub candles: Vec<CustomCandle>,
    pub max_candles: usize,
    pub user_fills: Vec<CustomUserFills>,
    pub max_fills: usize,
    pub l2_books: Vec<CustomL2Book>,
    pub max_l2_book: usize,
    pub best_bid: u64,
    pub best_ask: u64,
    pub portfolio_manager: PortfolioManager,
}

/// `b` differs from `a` at most in the trade buffer.
pub open spec fn same_except_trades(a: WsData, b: WsData) -> bool {
    &&& a.all_mids == b.all_mids
    &&& a.max_trades == b.max_trades
    &&& a.candles == b.candles
    &&& a.max_candles == b.max_candles
    &&& a.user_fills == b.user_fills
    &&& a.max_fills == b.max_fills
    &&& a.l2_books == b.l2_books
    &&& a.max_l2_book == b.max_l2_book
    &&& a.best_bid == b.best_bid
    &&& a.best_ask == b.best_ask
    &&& a.portfolio_manager == b.portfolio_manager
}

/// `b` differs from `a` at most in the candle buffer.
pub open spec fn same_except_candles(a: WsData, b: WsData) -> bool {
    &&& a.all_mids == b.all_mids
    &&& a.trades == b.trades
    &&& a.max_trades == b.max_trades
    &&& a.max_candles == b.max_candles
    &&& a.user_fills == b.user_fills
    &&& a.max_fills == b.max_fills
    &&& a.l2_books == b.l2_books
    &&& a.max_l2_book == b.max_l2_book
    &&& a.best_bid == b.best_bid
    &&& a.best_ask == b.best_ask
    &&& a.portfolio_manager == b.portfolio_manager
}

/// `b` differs from `a` at most in the book buffer and the derived
/// best bid/ask.
pub open spec fn same_except_books(a: WsData, b: WsData) -> bool {
    &&& a.all_mids == b.all_mids
    &&& a.trades == b.trades
    &&& a.max_trades == b.max_trades
    &&& a.candles == b.candles
    &&& a.max_candles == b.max_candles
    &&& a.user_fills == b.user_fills
    &&& a.max_fills == b.max_fills
    &&& a.max_l2_book == b.max_l2_book
    &&& a.portfolio_manager == b.portfolio_manager
}

/// `b` differs from `a` at most in the fill buffer and the position
/// tracker.
pub open spec fn same_except_fills(a: WsData, b: WsData) -> bool {
    &&& a.all_mids == b.all_mids
    &&& a.trades == b.trades
    &&& a.max_trades == b.max_trades
    &&& a.candles == b.candles
    &&& a.max_candles == b.max_candles
    &&& a.max_fills == b.max_fills
    &&& a.l2_books == b.l2_books
    &&& a.max_l2_book == b.max_l2_book
    &&& a.best_bid == b.best_bid
    &&& a.best_ask == b.best_ask
}

/// `b` differs from `a` at most in the mid-price map.
pub open spec fn same_except_mids(a: WsData, b: WsData) -> bool {
    &&& a.trades == b.trades
    &&& a.max_trades == b.max_trades
    &&& a.candles == b.candles
    &&& a.max_candles == b.max_candles
    &&& a.user_fills == b.user_fills
    &&& a.max_fills == b.max_fills
    &&& a.l2_books == b.l2_books
    &&& a.max_l2_book == b.max_l2_book
    &&& a.best_bid == b.best_bid
    &&& a.best_ask == b.best_ask
    &&& a.portfolio_manager == b.portfolio_manager
}

/// The full effect of one candle merge on the buffer: an existing
/// entry with the same open time is replaced in place (count
/// unchanged, position preserved, eviction as needed), otherwise the
/// candle is appended and the head evicted down to the cap.
pub open spec fn candle_merge_post(
    before: Seq<CustomCandle>,
    max: int,
    c: CustomCandle,
    after: Seq<CustomCandle>,
) -> bool {
    &&& forall|i: int|
        0 <= i < before.len() && #[trigger] before[i].time_open == c.time_open && (forall|j: int|
            0 <= j < i ==> before[j].time_open != c.time_open) ==> after == fifo_result(
            before.update(i, c),
            max,
        )
    &&& ((forall|i: int| 0 <= i < before.len() ==> #[trigger] before[i].time_open != c.time_open)
        ==> after == fifo_result(before.push(c), max))
    &&& forall|i: int|
        0 <= i < before.len() && #[trigger] before[i].time_open == c.time_open && before.len()
            <= max && (forall|j: int| 0 <= j < i ==> before[j].time_open != c.time_open) ==> (
        after.len() == before.len() && after[i] == c)
    &&& after.len() <= max
}

/// The full effect of inserting one book snapshot: the buffer gains
/// the snapshot FIFO-style, and best bid/ask are recomputed from the
/// latest retained snapshot (first level of each side, zero for an
/// empty side; unchanged when a cap of zero leaves no snapshot).
pub open spec fn book_insert_post(before: WsData, b: CustomL2Book, after: WsData) -> bool {
    &&& after.l2_books@ == fifo_result(before.l2_books@.push(b), before.max_l2_book as int)
    &&& after.l2_books@.len() <= before.max_l2_book
    &&& (after.l2_books@.len() > 0 ==> after.best_bid == (if after.l2_books@.last().bid_levels@.len()
        > 0 {
        after.l2_books@.last().bid_levels@[0].price as int
    } else {
        0int
    }) && after.best_ask == (if after.l2_books@.last().ask_levels@.len() > 0 {
        after.l2_books@.last().ask_levels@[0].price as int
    } else {
        0int
    }))
    &&& (after.l2_books@.len() == 0 ==> after.best_bid == before.best_bid && after.best_ask
        == before.best_ask)
    &&& (before.max_l2_book >= 1 ==> after.l2_books@.last() == b)
    &&& same_except_books(before, after)
}

/// `a` with the four buffer caps replaced.
pub open spec fn with_caps(a: WsData, mt: usize, mc: usize, mf: usize, mb: usize) -> WsData {
    (WsData {
        all_mids: a.all_mids,
        trades: a.trades,
        max_trades: mt,
        candles: a.candles,
        max_candles: mc,
        user_fills: a.user_fills,
        max_fills: mf,
        l2_books: a.l2_books,
        max_l2_book: mb,
        best_bid: a.best_bid,
        best_ask: a.best_ask,
        portfolio_manager: a.portfolio_manager,
    })
}

impl WsData {
    /// The position tracker keeps at most one position per coin.
    pub open spec fn wf(&self) -> bool {
        self.portfolio_manager.wf()
    }

    /// An empty store with the default buffer caps.
    pub fn new() -> (r: Self)
        ensures
            r.all_mids@ == Seq::<Mid>::empty(),
            r.trades@ == Seq::<CustomTrade>::empty(),
            r.candles@ == Seq::<CustomCandle>::empty(),
            r.user_fills@ == Seq::<CustomUserFills>::empty(),
            r.l2_books@ == Seq::<CustomL2Book>::empty(),
            r.max_trades == 10000,
            r.max_candles == 10000,
            r.max_fills == 10000,
            r.max_l2_book == 100,
            r.best_bid == 0,
            r.best_ask == 0,
            r.portfolio_manager@ == Seq::<Position>::empty(),
            r.wf(),
    {
        WsData {
            all_mids: Vec::new(),
            trades: Vec::new(),
            max_trades: 10000,
            candles: Vec::new(),
            max_candles: 10000,
            user_fills: Vec::new(),
            max_fills: 10000,
            l2_books: Vec::new(),
            max_l2_book: 100,
            best_bid: 0,
            best_ask: 0,
            portfolio_manager: PortfolioManager::new(),
        }
    }

    /// Appends a batch of trades and evicts from the head down to the
    /// cap: the buffer keeps the newest trades, never exceeds the cap,
    /// and eviction removes the oldest entries first.
    pub fn add_trade(&mut self, new_trades: Vec<CustomTrade>)
        ensures
            final(self).trades@ == fifo_result(
                old(self).trades@ + new_trades@,
                old(self).max_trades as int,
            ),
            final(self).trades@.len() <= old(self).max_trades,
            same_except_trades(*old(self), *final(self)),
    {
        let mut incoming = new_trades;
        self.trades.append(&mut incoming);
        let m = self.max_trades;
        evict_front(&mut self.trades, m);
    }

    /// Keyed-merge of one candle: an entry with the same `time_open`
    /// is replaced in place (the count is unchanged and the ordering
    /// position preserved); otherwise the candle is appended and the
    /// buffer evicted from the head down to the cap.
    pub fn add_candle(&mut self, new_candle: CustomCandle)
        ensures
            candle_merge_post(
                old(self).candles@,
                old(self).max_candles as int,
                new_candle,
                final(self).candles@,
            ),
            same_except_candles(*old(self), *final(self)),
    {
        let found = find_candle_index(&self.candles, new_candle.time_open);
        match found {
            Some(i) => {
                self.candles[i] = new_candle;
            },
            None => {
                self.candles.push(new_candle);
            },
        }
        let m = self.max_candles;
        evict_front(&mut self.candles, m);
    }

    /// Appends one book snapshot, evicts from the head down to the
    /// cap, and recomputes best bid/ask from the latest retained
    /// snapshot: the price of its first level on each side, or zero
    /// for an empty side.  With a cap of at least one the latest
    /// snapshot is the one just inserted.
    pub fn add_l2_book(&mut self, new_l2_book: CustomL2Book)
        ensures
            book_insert_post(*old(self), new_l2_book, *final(self)),
    {
        self.l2_books.push(new_l2_book);
        let m = self.max_l2_book;
        evict_front(&mut self.l2_books, m);
        let n = self.l2_books.len();
        if n > 0 {
            let latest = &self.l2_books[n - 1];
            self.best_bid = if latest.bid_levels.len() > 0 {
                latest.bid_levels[0].price
            } else {
                0
            };
            let latest = &self.l2_books[n - 1];
            self.best_ask = if latest.ask_levels.len() > 0 {
                latest.ask_levels[0].price
            } else {
                0
            };
        }
    }

    /// Appends a batch of fills to the fill buffer (FIFO, as for
    /// trades) and feeds each fill, in order, to the position
    /// tracker.  Returns how many fills the tracker rejected for not
    /// fitting the representable range; rejected fills stay in the
    /// buffer but leave no trace in any position.
    pub fn add_fills(&mut self, fills: Vec<CustomUserFills>) -> (dropped: usize)
        requires
            old(self).wf(),
        ensures
            final(self).wf(),
            final(self).user_fills@ == fifo_result(
                old(self).user_fills@ + fills@,
                old(self).max_fills as int,
            ),
            final(self).user_fills@.len() <= old(self).max_fills,
            final(self).portfolio_manager@ == pm_after_fill_batch(
                old(self).portfolio_manager@,
                fills@,
            ),
            dropped as int == count_dropped(old(self).portfolio_manager@, fills@),
            same_except_fills(*old(self), *final(self)),
    {
        let ghost pm0 = self.portfolio_manager@;
        let mut incoming = clone_fills(&fills);
        self.user_fills.append(&mut incoming);
        let m = self.max_fills;
        evict_front(&mut self.user_fills, m);
        let ghost mid = *self;
        let n = fills.len();
        let mut dropped: usize = 0;
        let mut k: usize = 0;
        proof {
            assert(fills@.take(0) =~= Seq::<CustomUserFills>::empty());
        }
        while k < n
            invariant
                k <= n,
                n == fills@.len(),
                self.portfolio_manager.wf(),
                self.portfolio_manager@ == pm_after_fill_batch(pm0, fills@.take(k as int)),
                dropped as int == count_dropped(pm0, fills@.take(k as int)),
                dropped <= k,
                self.all_mids == mid.all_mids,
                self.trades == mid.trades,
                self.max_trades == mid.max_trades,
                self.candles == mid.candles,
                self.max_candles == mid.max_candles,
                self.user_fills == mid.user_fills,
                self.max_fills == mid.max_fills,
                self.l2_books == mid.l2_books,
                self.max_l2_book == mid.max_l2_book,
                self.best_bid == mid.best_bid,
                self.best_ask == mid.best_ask,
            decreases n - k,
        {
            proof {
                crate::portfolio::lemma_batch_step(pm0, fills@, k as int);
            }
            match self.portfolio_manager.apply_fill(&fills[k]) {
                Ok(_) => {},
                Err(_) => {
                    dropped += 1;
                },
            }
            k += 1;
        }
        proof {
            assert(fills@.take(n as int) =~= fills@);
        }
        dropped
    }

    /// Replaces the whole mid-price map: last write wins, no merge.
    pub fn set_all_mids(&mut self, mids: Vec<Mid>)
        ensures
            final(self).all_mids == mids,
            same_except_mids(*old(self), *final(self)),
    {
        self.all_mids = mids;
    }

    /// Adjusts the trade buffer cap; eviction applies on the next
    /// insertion.
    pub fn set_max_trades(&mut self, max_trades: usize)
        ensures
            *final(self) == with_caps(
                *old(self),
                max_trades,
                old(self).max_candles,
                old(self).max_fills,
                old(self).max_l2_book,
            ),
    {
        self.max_trades = max_trades;
    }

    /// Adjusts the candle buffer cap; eviction applies on the next
    /// insertion.
    pub fn set_max_candles(&mut self, max_candles: usize)
        ensures
            *final(self) == with_caps(
                *old(self),
                old(self).max_trades,
                max_candles,
                old(self).max_fills,
                old(self).max_l2_book,
            ),
    {
        self.max_candles = max_candles;
    }

    /// Adjusts the fill buffer cap; eviction applies on the next
    /// insertion.
    pub fn set_max_fills(&mut self, max_fills: usize)
        ensures
            *final(self) == with_caps(
                *old(self),
                old(self).max_trades,
                old(self).max_candles,
                max_fills,
                old(self).max_l2_book,
            ),
    {
        self.max_fills = max_fills;
    }

    /// Adjusts the book buffer cap; eviction applies on the next
    /// insertion.
    pub fn set_max_l2_book(&mut self, max_l2_book: usize)
        ensures
            *final(self) == with_caps(
                *old(self),
                old(self).max_trades,
                old(self).max_candles,
                old(self).max_fills,
                max_l2_book,
            ),
    {
        self.max_l2_book = max_l2_book;
    }

    /// An independent copy of the mid-price map.
    pub fn get_all_mids(&self) -> (r: Vec<Mid>)
        ensures
            r@ == self.all_mids@,
    {
        clone_mids(&self.all_mids)
    }

    /// An independent copy of the trade buffer.
    pub fn get_trades(&self) -> (r: Vec<CustomTrade>)
        ensures
            r@ == self.trades@,
    {
        clone_trades(&self.trades)
    }

    /// An independent copy of the candle buffer.
    pub fn get_candles(&self) -> (r: Vec<CustomCandle>)
        ensures
            r@ == self.candles@,
    {
        clone_candles(&self.candles)
    }

    /// An independent copy of the fill buffer.
    pub fn get_user_fills(&self) -> (r: Vec<CustomUserFills>)
        ensures
            r@ == self.user_fills@,
    {
        clone_fills(&self.user_fills)
    }

    /// An independent copy of the book buffer.
    pub fn get_l2_books(&self) -> (r: Vec<CustomL2Book>)
        ensures
            r@.len() == self.l2_books@.len(),
            forall|i: int| 0 <= i < r@.len() ==> book_eq(#[trigger] r@[i], self.l2_books@[i]),
    {
        clone_books(&self.l2_books)
    }

    /// Best bid: the first bid level of the latest book snapshot, or
    /// zero.
    pub fn get_best_bid(&self) -> (r: u64)
        ensures
            r == self.best_bid,
    {
        self.best_bid
    }

    /// Best ask: the first ask level of the latest book snapshot, or
    /// zero.
    pub fn get_best_ask(&self) -> (r: u64)
        ensures
            r == self.best_ask,
    {
        self.best_ask
    }

    /// A copy of the position of this coin, if one is tracked.
    pub fn get_position(&self, coin: &str) -> (r: Option<Position>)
        requires
            self.wf(),
        ensures
            (r matches Some(p) ==> has_coin(self.portfolio_manager@, coin@) && (forall|i: int|
                0 <= i < self.portfolio_manager@.len() && #[trigger] self.portfolio_manager@[i].coin@
                    == coin@ ==> p == self.portfolio_manager@[i])),
            r is None <==> !has_coin(self.portfolio_manager@, coin@),
    {
        let key = coin.to_owned();
        self.portfolio_manager.get_position(&key)
    }

    /// Total resting size on each side of the latest book snapshot,
    /// or zeros when no snapshot is retained.
    pub fn calculate_thickness(&self) -> (r: (u128, u128))
        ensures
            self.l2_books@.len() == 0 ==> r == (0u128, 0u128),
            self.l2_books@.len() > 0 ==> r.0 as int == levels_size_sum(
                self.l2_books@.last().bid_levels@,
            ) && r.1 as int == levels_size_sum(self.l2_books@.last().ask_levels@),
    {
        let n = self.l2_books.len();
        if n == 0 {
            (0, 0)
        } else {
            let latest = &self.l2_books[n - 1];
            let bid = sum_level_sizes(&latest.bid_levels);
            let ask = sum_level_sizes(&latest.ask_levels);
            (bid, ask)
        }
    }

    /// Mean per-snapshot thickness over all retained snapshots, each
    /// side separately, or zeros when none is retained.  The grand
    /// totals saturate at the top of `u128`; `lemma_sat_total_exact`
    /// shows the mean is exact whenever the true total fits.
    pub fn calculate_average_thickness(&self) -> (r: (u128, u128))
        ensures
            self.l2_books@.len() == 0 ==> r == (0u128, 0u128),
            self.l2_books@.len() > 0 ==> r.0 as int == books_bid_total_sat(self.l2_books@) / (
            self.l2_books@.len() as int) && r.1 as int == books_ask_total_sat(self.l2_books@) / (
            self.l2_books@.len() as int),
    {
        let n = self.l2_books.len();
        if n == 0 {
            return (0, 0);
        }
        let mut bid_total: u128 = 0;
        let mut ask_total: u128 = 0;
        let mut k: usize = 0;
        proof {
            assert(self.l2_books@.take(0) =~= Seq::<CustomL2Book>::empty());
        }
        while k < n
            invariant
                k <= n,
                n == self.l2_books@.len(),
                bid_total as int == books_bid_total_sat(self.l2_books@.take(k as int)),
                ask_total as int == books_ask_total_sat(self.l2_books@.take(k as int)),
            decreases n - k,
        {
            proof {
                assert(self.l2_books@.take(k as int + 1).drop_last() =~= self.l2_books@.take(
                    k as int,
                ));
                assert(self.l2_books@.take(k as int + 1).last() == self.l2_books@[k as int]);
            }
            let book = &self.l2_books[k];
            let b = sum_level_sizes(&book.bid_levels);
            let a = sum_level_sizes(&book.ask_levels);
            bid_total = if bid_total > u128::MAX - b {
                u128::MAX
            } else {
                bid_total + b
            };
            ask_total = if ask_total > u128::MAX - a {
                u128::MAX
            } else {
                ask_total + a
            };
            k += 1;
        }
        proof {
            assert(self.l2_books@.take(n as int) =~= self.l2_books@);
        }
        (bid_total / (n as u128), ask_total / (n as u128))
    }

    /// Resting size near the top of the latest book: bid sizes with
    /// price in `[best bid - tick_size * tick_range, best bid]` and
    /// ask sizes with price in `[best ask, best ask + tick_size *
    /// tick_range]`, where best bid/ask are the first level of each
    /// side.  Zeros for a missing snapshot or an empty side.
    pub fn calculate_thickness_near_best(&self, tick_size: u64, tick_range: usize) -> (r: (
        u128,
        u128,
    ))
        ensures
            self.l2_books@.len() == 0 ==> r == (0u128, 0u128),
            self.l2_books@.len() > 0 ==> ({
                let book = self.l2_books@.last();
                let w = (tick_size as int) * (tick_range as int);
                (if book.bid_levels@.len() == 0 {
                    r.0 == 0
                } else {
                    r.0 as int == levels_sum_in_range(
                        book.bid_levels@,
                        book.bid_levels@[0].price - w,
                        book.bid_levels@[0].price as int,
                    )
                }) && (if book.ask_levels@.len() == 0 {
                    r.1 == 0
                } else {
                    r.1 as int == levels_sum_in_range(
                        book.ask_levels@,
                        book.ask_levels@[0].price as int,
                        book.ask_levels@[0].price + w,
                    )
                })
            }),
    {
        let n = self.l2_books.len();
        if n == 0 {
            return (0, 0);
        }
        proof {
            assert((tick_size as int) * (tick_range as int) <= (u64::MAX as int) * (u64::MAX as int))
                by (nonlinear_arith)
                requires
                    0 <= tick_size as int <= u64::MAX as int,
                    0 <= tick_range as int <= u64::MAX as int,
            ;
        }
        let w: u128 = (tick_size as u128) * (tick_range as u128);
        let latest = &self.l2_books[n - 1];
        let bid = if latest.bid_levels.len() > 0 {
            let best: u128 = latest.bid_levels[0].price as u128;
            let lo: u128 = if w > best {
                0
            } else {
                best - w
            };
            proof {
                assert(lo as int == vstd::math::max(
                    0,
                    self.l2_books@.last().bid_levels@[0].price - (tick_size as int) * (
                    tick_range as int),
                ));
                lemma_sum_in_range_floor_at_zero(
                    self.l2_books@.last().bid_levels@,
                    self.l2_books@.last().bid_levels@[0].price - (tick_size as int) * (
                    tick_range as int),
                    self.l2_books@.last().bid_levels@[0].price as int,
                );
            }
            sum_level_sizes_in_range(&latest.bid_levels, lo, best)
        } else {
            0
        };
        let latest = &self.l2_books[n - 1];
        let ask = if latest.ask_levels.len() > 0 {
            let best: u128 = latest.ask_levels[0].price as u128;
            let hi: u128 = best + w;
            sum_level_sizes_in_range(&latest.ask_levels, best, hi)
        } else {
            0
        };
        (bid, ask)
    }

    /// Unrealized PnL of this coin at its recorded mid price (zero is
    /// used when no mid price is recorded); exactly zero for a flat or
    /// untracked position.
    pub fn get_unrealized_pnl(&self, coin: &str) -> (r: i128)
        requires
            self.wf(),
        ensures
            !has_coin(self.portfolio_manager@, coin@) ==> r == 0,
            forall|i: int|
                0 <= i < self.portfolio_manager@.len() && #[trigger] self.portfolio_manager@[i].coin@
                    == coin@ ==> r == position_unrealized(
                    self.portfolio_manager@[i],
                    match lookup_mid(self.all_mids@, coin@) {
                        Some(m) => m as int,
                        None => 0,
                    },
                ),
            forall|i: int|
                0 <= i < self.portfolio_manager@.len() && #[trigger] self.portfolio_manager@[i].coin@
                    == coin@ && self.portfolio_manager@[i].amount == 0 ==> r == 0,
    {
        let key = coin.to_owned();
        let mark = match find_mid(&self.all_mids, &key) {
            Some(m) => m,
            None => 0,
        };
        self.portfolio_manager.get_unrealized_pnl(&key, mark)
    }
}

impl Default for WsData {
    /// Same as `new`: an empty store with the default buffer caps.
    fn default() -> (r: Self)
        ensures
            r.all_mids@ == Seq::<Mid>::empty(),
            r.trades@ == Seq::<CustomTrade>::empty(),
            r.candles@ == Seq::<CustomCandle>::empty(),
            r.user_fills@ == Seq::<CustomUserFills>::empty(),
            r.l2_books@ == Seq::<CustomL2Book>::empty(),
            r.max_trades == 10000,
            r.max_candles == 10000,
            r.max_fills == 10000,
            r.max_l2_book == 100,
            r.best_bid == 0,
            r.best_ask == 0,
            r.portfolio_manager@ == Seq::<Position>::empty(),
            r.wf(),
    {
        WsData::new()
    }
}

} // verus!
