use vstd::prelude::*;
use vstd::string::*;

use crate::clock::now_nanos;
use crate::identity::{decimal, new_uuid, u32_decimal, Identity};
use crate::ladder::{snapshot_levels, Ladder, PriceLevel};
use crate::marketdata::{
    best_ask, best_ask_of, best_bid, best_bid_of, mid_of, mid_price, MarketBook, MarketTrade,
    Rate,
};

verus! {

/// A (price, size) pair as the venue sends it.
pub type PriceSize = PriceLevel;

/// A board message: a snapshot or a delta of both ladder sides.
pub struct Board {
    pub mid_price: i64,
    pub asks: Vec<PriceLevel>,
    pub bids: Vec<PriceLevel>,
}

impl Board {
    pub fn new() -> (r: Board)
        ensures
            r.mid_price == 0,
            r.asks@ == Seq::<PriceLevel>::empty(),
            r.bids@ == Seq::<PriceLevel>::empty(),
    {
        Board { mid_price: 0, asks: Vec::new(), bids: Vec::new() }
    }

    /// Append the other board's ask levels to this board's.
    pub fn merge(&mut self, other: Board)
        ensures
            final(self).asks@ == old(self).asks@ + other.asks@,
            final(self).bids@ == old(self).bids@,
            final(self).mid_price == old(self).mid_price,
    {
        let mut i: usize = 0;
        while i < other.asks.len()
            invariant
                i <= other.asks@.len(),
                self.asks@ == old(self).asks@ + other.asks@.subrange(0, i as int),
                self.bids@ == old(self).bids@,
                self.mid_price == old(self).mid_price,
            decreases other.asks@.len() - i,
        {
            self.asks.push(other.asks[i]);
            i = i + 1;
        }
        assert(other.asks@.subrange(0, other.asks@.len() as int) =~= other.asks@);
    }

    /// The full book this snapshot describes, stamped now; zero sizes are dropped.
    pub fn to_market_book(self, sym: String, id: &Identity) -> (r: MarketBook)
        ensures
            r.wf(),
            r.asks@ == snapshot_levels(self.asks@),
            r.bids@ == snapshot_levels(self.bids@),
            r.sym == sym,
            r.venue@ == VENUE@,
            r.category@ == CATEGORY@,
            r.misc@ == SNAPSHOT_TAG@,
            r.timestamp == r.market_created_timestamp,
            r.universal_id@.len() == 36,
            r.data_center == id.data_center,
            r.process_id == id.process_id,
    {
        let t = now_nanos();
        MarketBook {
            timestamp: t,
            market_created_timestamp: t,
            sym,
            venue: String::from_str(VENUE),
            category: String::from_str(CATEGORY),
            asks: Ladder::from_snapshot(&self.asks),
            bids: Ladder::from_snapshot(&self.bids),
            misc: String::from_str(SNAPSHOT_TAG),
            universal_id: new_uuid(),
            data_center: id.data_center.clone(),
            process_id: id.process_id.clone(),
        }
    }

    /// The top of the book this board describes, stamped now: zero-size levels are
    /// dropped, and the mid price is the average of best bid and best ask.
    pub fn to_rate(self, sym: String, id: &Identity) -> (r: Rate)
        ensures
            r.best_bid == best_bid_of(snapshot_levels(self.bids@)),
            r.best_ask == best_ask_of(snapshot_levels(self.asks@)),
            r.mid_price == mid_of(r.best_bid, r.best_ask),
            r.sym == sym,
            r.venue@ == VENUE@,
            r.category@ == CATEGORY@,
            r.misc@ == Seq::<char>::empty(),
            r.timestamp == r.market_created_timestamp,
            r.universal_id@.len() == 36,
            r.data_center == id.data_center,
            r.process_id == id.process_id,
    {
        let bids = Ladder::from_snapshot(&self.bids);
        let asks = Ladder::from_snapshot(&self.asks);
        let bid = best_bid(&bids);
        let ask = best_ask(&asks);
        let t = now_nanos();
        Rate {
            timestamp: t,
            market_created_timestamp: t,
            sym,
            venue: String::from_str(VENUE),
            category: String::from_str(CATEGORY),
            best_bid: bid,
            best_ask: ask,
            mid_price: mid_price(bid, ask),
            misc: String::new(),
            universal_id: new_uuid(),
            data_center: id.data_center.clone(),
            process_id: id.process_id.clone(),
        }
    }
}

pub const VENUE: &'static str = "bitflyer";

pub const CATEGORY: &'static str = "lightning";

pub const SNAPSHOT_TAG: &'static str = "snapshot";

pub const DIFF_TAG: &'static str = "diff";

/// One execution as the venue reports it.
pub struct Execution {
    pub id: u32,
    /// "BUY" or "SELL".
    pub side: String,
    pub price: i64,
    pub size: u64,
    /// Unix time of the execution in nanoseconds.
    pub exec_date: i128,
    pub buy_child_order_acceptance_id: String,
    pub sell_child_order_acceptance_id: String,
}

/// +1 for a "BUY" side, -1 for anything else.
pub open spec fn side_of(side: Seq<char>) -> i16 {
    if side == "BUY"@ {
        1i16
    } else {
        -1i16
    }
}

/// `t` is the normalized trade record of `e` for instrument `sym`, stamped with `id`
/// (its receipt time and event id are fresh).
pub open spec fn is_trade_of(t: MarketTrade, e: Execution, sym: String, id: Identity) -> bool {
    &&& t.market_created_timestamp == e.exec_date
    &&& t.sym == sym
    &&& t.venue@ == VENUE@
    &&& t.category@ == CATEGORY@
    &&& t.side == side_of(e.side@)
    &&& t.price == e.price
    &&& t.amount == e.size
    &&& t.trade_id@ == decimal(e.id as nat)
    &&& t.order_ids@ == e.buy_child_order_acceptance_id@ + ";"@ + e.sell_child_order_acceptance_id@
    &&& t.misc@ == Seq::<char>::empty()
    &&& t.universal_id@.len() == 36
    &&& t.data_center == id.data_center
    &&& t.process_id == id.process_id
}

impl Execution {
    /// The normalized trade record of this execution.
    pub fn to_market_trade(&self, sym: String, id: &Identity) -> (r: MarketTrade)
        ensures
            is_trade_of(r, *self, sym, *id),
    {
        let buy = String::from_str("BUY");
        let side: i16 = if self.side == buy {
            1
        } else {
            -1
        };
        let ids = self.buy_child_order_acceptance_id.clone().concat(";");
        let ids = ids.concat(self.sell_child_order_acceptance_id.as_str());
        MarketTrade {
            timestamp: now_nanos(),
            market_created_timestamp: self.exec_date,
            sym,
            venue: String::from_str(VENUE),
            category: String::from_str(CATEGORY),
            side,
            price: self.price,
            amount: self.size,
            trade_id: u32_decimal(self.id),
            order_ids: ids,
            misc: String::new(),
            universal_id: new_uuid(),
            process_id: id.process_id.clone(),
            data_center: id.data_center.clone(),
        }
    }
}

/// A ticker message; the feed reads but does not act on it.
pub struct Ticker {
    pub product_code: String,
    pub state: String,
    pub timestamp: i128,
    pub tick_id: u32,
    pub best_bid: i64,
    pub best_ask: i64,
    pub best_bid_size: u64,
    pub best_ask_size: u64,
    pub total_bid_depth: u64,
    pub total_ask_depth: u64,
    pub market_bid_size: u64,
    pub market_ask_size: u64,
    pub ltp: i64,
    pub volume: u64,
    pub volume_by_product: u64,
}

impl Ticker {
    /// An empty ticker stamped now.
    pub fn new() -> (r: Ticker)
        ensures
            r.product_code@ == Seq::<char>::empty(),
            r.state@ == Seq::<char>::empty(),
            r.tick_id == 0,
            r.best_bid == 0 && r.best_ask == 0 && r.ltp == 0,
            r.best_bid_size == 0 && r.best_ask_size == 0,
            r.total_bid_depth == 0 && r.total_ask_depth == 0,
            r.market_bid_size == 0 && r.market_ask_size == 0,
            r.volume == 0 && r.volume_by_product == 0,
    {
        Ticker {
            product_code: String::new(),
            state: String::new(),
            timestamp: now_nanos(),
            tick_id: 0,
            best_bid: 0,
            best_ask: 0,
            best_bid_size: 0,
            best_ask_size: 0,
            total_bid_depth: 0,
            total_ask_depth: 0,
            market_bid_size: 0,
            market_ask_size: 0,
            ltp: 0,
            volume: 0,
            volume_by_product: 0,
        }
    }
}

} // verus!
