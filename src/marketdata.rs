use vstd::prelude::*;

use crate::identity::{new_uuid, Identity};
use crate::ladder::{is_max_key, is_min_key, Ladder};

verus! {

/// A top-of-book quote: a fixed-point price, or the sentinel of an empty ladder side.
#[derive(Clone, Copy, Debug, PartialEq, Eq, Structural)]
pub enum Quote {
    NegInfinity,
    Price(i64),
    PosInfinity,
}

/// Best bid of a bid ladder: its largest price, or minus infinity when it is empty.
pub open spec fn best_bid_of(bids: Map<i64, u64>) -> Quote {
    if bids.dom().is_empty() {
        Quote::NegInfinity
    } else {
        Quote::Price(choose|p: i64| is_max_key(bids, p))
    }
}

/// Best ask of an ask ladder: its smallest price, or plus infinity when it is empty.
pub open spec fn best_ask_of(asks: Map<i64, u64>) -> Quote {
    if asks.dom().is_empty() {
        Quote::PosInfinity
    } else {
        Quote::Price(choose|p: i64| is_min_key(asks, p))
    }
}

/// Floor of the average of two prices.
pub open spec fn average(a: i64, b: i64) -> int {
    (a + b) / 2
}

/// Mid price: defined only when both quotes are finite.
pub open spec fn mid_of(bid: Quote, ask: Quote) -> Option<i64> {
    match (bid, ask) {
        (Quote::Price(b), Quote::Price(a)) => Some(average(b, a) as i64),
        _ => None,
    }
}

/// Floor of the average of two prices.
pub fn mid_price(bid: Quote, ask: Quote) -> (r: Option<i64>)
    ensures
        r == mid_of(bid, ask),
{
    match (bid, ask) {
        (Quote::Price(b), Quote::Price(a)) => {
            let s: i128 = b as i128 + a as i128;
            let h: i128 = if s >= 0 {
                s / 2
            } else {
                -((1 - s) / 2)
            };
            assert(h == (b + a) / 2) by (nonlinear_arith)
                requires
                    s == b + a,
                    s >= 0 ==> h == s / 2,
                    s < 0 ==> h == -((1 - s) / 2),
            ;
            Some(h as i64)
        },
        _ => None,
    }
}

/// The best bid of a map whose largest key is `p` is `p`.
pub proof fn lemma_best_bid_at(m: Map<i64, u64>, p: i64)
    requires
        is_max_key(m, p),
    ensures
        best_bid_of(m) == Quote::Price(p),
{
    assert(m.dom().contains(p));
    let q = choose|q: i64| is_max_key(m, q);
    assert(q <= p && p <= q);
}

/// The best ask of a map whose smallest key is `p` is `p`.
pub proof fn lemma_best_ask_at(m: Map<i64, u64>, p: i64)
    requires
        is_min_key(m, p),
    ensures
        best_ask_of(m) == Quote::Price(p),
{
    assert(m.dom().contains(p));
    let q = choose|q: i64| is_min_key(m, q);
    assert(q <= p && p <= q);
}

/// An empty bid side quotes minus infinity, an empty ask side plus infinity, and the mid
/// price exists exactly when both sides hold a level.
pub proof fn lemma_rate_sentinels(bids: Map<i64, u64>, asks: Map<i64, u64>)
    ensures
        bids.dom().is_empty() ==> best_bid_of(bids) == Quote::NegInfinity,
        asks.dom().is_empty() ==> best_ask_of(asks) == Quote::PosInfinity,
        mid_of(best_bid_of(bids), best_ask_of(asks)) is Some <==> (!bids.dom().is_empty()
            && !asks.dom().is_empty()),
{
}

/// Best bid of a ladder.
pub fn best_bid(bids: &Ladder) -> (r: Quote)
    requires
        bids.wf(),
    ensures
        r == best_bid_of(bids@),
{
    match bids.max_price() {
        Some(p) => {
            proof {
                lemma_best_bid_at(bids@, p);
            }
            Quote::Price(p)
        },
        None => Quote::NegInfinity,
    }
}

/// Best ask of a ladder.
pub fn best_ask(asks: &Ladder) -> (r: Quote)
    requires
        asks.wf(),
    ensures
        r == best_ask_of(asks@),
{
    match asks.min_price() {
        Some(p) => {
            proof {
                lemma_best_ask_at(asks@, p);
            }
            Quote::Price(p)
        },
        None => Quote::PosInfinity,
    }
}

/// The order book of one instrument at one venue.
pub struct MarketBook {
    pub timestamp: i128,
    pub market_created_timestamp: i128,
    pub sym: String,
    pub venue: String,
    pub category: String,
    pub asks: Ladder,
    pub bids: Ladder,
    /// Whether the book came from a full snapshot or an incremental diff.
    pub misc: String,
    pub universal_id: String,
    pub data_center: String,
    pub process_id: String,
}

impl MarketBook {
    pub open spec fn wf(&self) -> bool {
        self.asks.wf() && self.bids.wf()
    }

    /// The top of this book, stamped with the book's times and identity.
    pub fn to_rate(&self, id: &Identity) -> (r: Rate)
        requires
            self.wf(),
        ensures
            r.best_bid == best_bid_of(self.bids@),
            r.best_ask == best_ask_of(self.asks@),
            r.mid_price == mid_of(r.best_bid, r.best_ask),
            r.timestamp == self.timestamp,
            r.market_created_timestamp == self.market_created_timestamp,
            r.sym == self.sym,
            r.venue == self.venue,
            r.category == self.category,
            r.misc@ == Seq::<char>::empty(),
            r.universal_id@.len() == 36,
            r.data_center == id.data_center,
            r.process_id == id.process_id,
    {
        let b = best_bid(&self.bids);
        let a = best_ask(&self.asks);
        Rate {
            timestamp: self.timestamp,
            market_created_timestamp: self.market_created_timestamp,
            sym: self.sym.clone(),
            venue: self.venue.clone(),
            category: self.category.clone(),
            best_bid: b,
            best_ask: a,
            mid_price: mid_price(b, a),
            misc: String::new(),
            universal_id: new_uuid(),
            data_center: id.data_center.clone(),
            process_id: id.process_id.clone(),
        }
    }

    /// An owned copy.
    pub fn duplicate(&self) -> (r: MarketBook)
        requires
            self.wf(),
        ensures
            r.wf(),
            r.asks@ == self.asks@,
            r.bids@ == self.bids@,
            r.timestamp == self.timestamp,
            r.market_created_timestamp == self.market_created_timestamp,
            r.sym == self.sym,
            r.venue == self.venue,
            r.category == self.category,
            r.misc == self.misc,
            r.universal_id == self.universal_id,
            r.data_center == self.data_center,
            r.process_id == self.process_id,
    {
        MarketBook {
            timestamp: self.timestamp,
            market_created_timestamp: self.market_created_timestamp,
            sym: self.sym.clone(),
            venue: self.venue.clone(),
            category: self.category.clone(),
            asks: self.asks.duplicate(),
            bids: self.bids.duplicate(),
            misc: self.misc.clone(),
            universal_id: self.universal_id.clone(),
            data_center: self.data_center.clone(),
            process_id: self.process_id.clone(),
        }
    }
}

/// Top of book of one instrument.
pub struct Rate {
    pub timestamp: i128,
    pub market_created_timestamp: i128,
    pub sym: String,
    pub venue: String,
    pub category: String,
    pub best_bid: Quote,
    pub best_ask: Quote,
    /// Present only when both sides are quoted.
    pub mid_price: Option<i64>,
    pub misc: String,
    pub universal_id: String,
    pub data_center: String,
    pub process_id: String,
}

impl Rate {
    /// An owned copy.
    pub fn duplicate(&self) -> (r: Rate)
        ensures
            r == *self,
    {
        Rate {
            timestamp: self.timestamp,
            market_created_timestamp: self.market_created_timestamp,
            sym: self.sym.clone(),
            venue: self.venue.clone(),
            category: self.category.clone(),
            best_bid: self.best_bid,
            best_ask: self.best_ask,
            mid_price: self.mid_price,
            misc: self.misc.clone(),
            universal_id: self.universal_id.clone(),
            data_center: self.data_center.clone(),
            process_id: self.process_id.clone(),
        }
    }
}

/// A normalized execution seen on the market.
pub struct MarketTrade {
    pub timestamp: i128,
    pub market_created_timestamp: i128,
    pub sym: String,
    pub venue: String,
    pub category: String,
    /// +1 for a buy, -1 for a sell.
    pub side: i16,
    pub price: i64,
    pub amount: u64,
    pub trade_id: String,
    pub order_ids: String,
    pub misc: String,
    pub universal_id: String,
    pub process_id: String,
    pub data_center: String,
}

impl MarketTrade {
    /// An owned copy.
    pub fn duplicate(&self) -> (r: MarketTrade)
        ensures
            r == *self,
    {
        MarketTrade {
            timestamp: self.timestamp,
            market_created_timestamp: self.market_created_timestamp,
            sym: self.sym.clone(),
            venue: self.venue.clone(),
            category: self.category.clone(),
            side: self.side,
            price: self.price,
            amount: self.amount,
            trade_id: self.trade_id.clone(),
            order_ids: self.order_ids.clone(),
            misc: self.misc.clone(),
            universal_id: self.universal_id.clone(),
            process_id: self.process_id.clone(),
            data_center: self.data_center.clone(),
        }
    }
}

/// One normalized market event.
pub enum MarketData {
    MarketBook(MarketBook),
    Rate(Rate),
    MarketTrade(MarketTrade),
}

impl MarketData {
    pub open spec fn wf(&self) -> bool {
        match self {
            MarketData::MarketBook(b) => b.wf(),
            _ => true,
        }
    }

    /// Two events carry the same content (books compared by their ladders' maps).
    pub open spec fn same_as(&self, o: &MarketData) -> bool {
        match (self, o) {
            (MarketData::Rate(a), MarketData::Rate(b)) => a == b,
            (MarketData::MarketTrade(a), MarketData::MarketTrade(b)) => a == b,
            (MarketData::MarketBook(a), MarketData::MarketBook(b)) => same_book(a, b),
            _ => false,
        }
    }

    /// An owned copy.
    pub fn duplicate(&self) -> (r: MarketData)
        requires
            self.wf(),
        ensures
            r.wf(),
            r.same_as(self),
    {
        match self {
            MarketData::MarketBook(b) => MarketData::MarketBook(b.duplicate()),
            MarketData::Rate(x) => MarketData::Rate(x.duplicate()),
            MarketData::MarketTrade(x) => MarketData::MarketTrade(x.duplicate()),
        }
    }
}

/// Two books with equal fields and equal ladder maps.
pub open spec fn same_book(a: &MarketBook, b: &MarketBook) -> bool {
    &&& a.asks@ == b.asks@
    &&& a.bids@ == b.bids@
    &&& a.timestamp == b.timestamp
    &&& a.market_created_timestamp == b.market_created_timestamp
    &&& a.sym == b.sym
    &&& a.venue == b.venue
    &&& a.category == b.category
    &&& a.misc == b.misc
    &&& a.universal_id == b.universal_id
    &&& a.data_center == b.data_center
    &&& a.process_id == b.process_id
}

} // verus!
