//! The stream dispatcher: the single consumer of inbound events.
//!
//! Each event is routed by kind to the rolling state store or the
//! position tracker.  A mids update replaces the whole mid-price map
//! (last write wins); trades, candles and book snapshots go to their
//! rolling buffers; a live fill batch feeds the tracker and is handed
//! back for the fill sink; an end-of-stream signal is reported as a
//! liveness failure, never treated as fatal; unrecognized events are
//! dropped without touching any state.

use vstd::prelude::*;

use crate::model::CustomCandle;
use crate::model::CustomL2Book;
use crate::model::CustomTrade;
use crate::model::CustomUserFills;
use crate::model::Mid;
use crate::portfolio::count_dropped;
use crate::portfolio::pm_after_fill_batch;
use crate::store::WsData;
use crate::store::book_insert_post;
use crate::store::candle_merge_post;
use crate::store::fifo_result;
use crate::store::same_except_candles;
use crate::store::same_except_fills;
use crate::store::same_except_mids;
use crate::store::same_except_trades;

verus! {

/// One inbound event of the multiplexed stream.
#[derive(Debug)]
pub enum StreamEvent {
    /// A fresh mid-price map; it replaces the stored one wholesale.
    MidsUpdate { mids: Vec<Mid> },
    /// A batch of public market trades.
    TradeBatch { trades: Vec<CustomTrade> },
    /// One candle update; merged by open time.
    CandleUpdate { candle: CustomCandle },
    /// One order-book snapshot.
    BookSnapshot { book: CustomL2Book },
    /// A batch of the user's own fills; a snapshot batch replays
    /// history and is not applied.
    FillBatch { fills: Vec<CustomUserFills>, is_snapshot: bool },
    /// The stream signalled end-of-stream or disconnect.
    Disconnected,
    /// An event kind this layer does not recognize.
    Unknown,
}

/// What the caller must do after an event was applied.
#[derive(Debug)]
pub enum DispatchAction {
    /// Nothing: the event is fully absorbed.
    Continue,
    /// Hand these fills to the fill sink, best effort.  `dropped` of
    /// them were rejected by the position tracker for not fitting the
    /// representable range.
    PersistFills { fills: Vec<CustomUserFills>, dropped: usize },
    /// Tell the reconnection supervisor the stream is gone.
    ReportDisconnect,
    /// The event was dropped without touching any state.
    Ignored,
}

impl WsData {
    /// Routes one event to the store and tracker and says what to do
    /// next.  Exactly the state named by the event's kind changes;
    /// disconnects and unknown events change nothing.
    pub fn apply_event(&mut self, event: StreamEvent) -> (a: DispatchAction)
        requires
            old(self).wf(),
        ensures
            final(self).wf(),
            (event matches StreamEvent::MidsUpdate { mids } ==> final(self).all_mids == mids
                && same_except_mids(*old(self), *final(self)) && a is Continue),
            (event matches StreamEvent::TradeBatch { trades } ==> final(self).trades@
                == fifo_result(old(self).trades@ + trades@, old(self).max_trades as int)
                && same_except_trades(*old(self), *final(self)) && a is Continue),
            (event matches StreamEvent::CandleUpdate { candle } ==> candle_merge_post(
                old(self).candles@,
                old(self).max_candles as int,
                candle,
                final(self).candles@,
            ) && same_except_candles(*old(self), *final(self)) && a is Continue),
            (event matches StreamEvent::BookSnapshot { book } ==> book_insert_post(
                *old(self),
                book,
                *final(self),
            ) && a is Continue),
            (event matches StreamEvent::FillBatch { fills, is_snapshot } ==> (if is_snapshot {
                *final(self) == *old(self) && a is Ignored
            } else {
                &&& final(self).user_fills@ == fifo_result(
                    old(self).user_fills@ + fills@,
                    old(self).max_fills as int,
                )
                &&& final(self).portfolio_manager@ == pm_after_fill_batch(
                    old(self).portfolio_manager@,
                    fills@,
                )
                &&& same_except_fills(*old(self), *final(self))
                &&& (a matches DispatchAction::PersistFills { fills: pf, dropped } ==> pf == fills
                    && dropped as int == count_dropped(old(self).portfolio_manager@, fills@))
                &&& a is PersistFills
            })),
            (event is Disconnected ==> *final(self) == *old(self) && a is ReportDisconnect),
            (event is Unknown ==> *final(self) == *old(self) && a is Ignored),
    {
        match event {
            StreamEvent::MidsUpdate { mids } => {
                self.set_all_mids(mids);
                DispatchAction::Continue
            },
            StreamEvent::TradeBatch { trades } => {
                self.add_trade(trades);
                DispatchAction::Continue
            },
            StreamEvent::CandleUpdate { candle } => {
                self.add_candle(candle);
                DispatchAction::Continue
            },
            StreamEvent::BookSnapshot { book } => {
                self.add_l2_book(book);
                DispatchAction::Continue
            },
            StreamEvent::FillBatch { fills, is_snapshot } => {
                if is_snapshot {
                    DispatchAction::Ignored
                } else {
                    let dropped = self.add_fills(clone_fill_batch(&fills));
                    DispatchAction::PersistFills { fills, dropped }
                }
            },
            StreamEvent::Disconnected => DispatchAction::ReportDisconnect,
            StreamEvent::Unknown => DispatchAction::Ignored,
        }
    }
}

/// Clones a fill batch so the original can travel on to the sink.
fn clone_fill_batch(fills: &Vec<CustomUserFills>) -> (r: Vec<CustomUserFills>)
    ensures
        r@ == fills@,
{
    crate::model::clone_fills(fills)
}

} // verus!
