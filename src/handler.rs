use vstd::prelude::*;
use vstd::string::*;

use crate::clock::now_nanos;
use crate::feed::{is_trade_of, Board, Execution, CATEGORY, DIFF_TAG, SNAPSHOT_TAG, VENUE};
use crate::identity::{new_uuid, Identity};
use crate::ladder::{apply_levels, no_zero_sizes, snapshot_levels};
use crate::marketdata::{best_ask_of, best_bid_of, mid_of, MarketBook, MarketData, Quote, Rate};

verus! {

/// What the feed knows of one instrument: ask map, bid map, and the last published
/// best bid and best ask.
pub type InstrumentView = (Map<i64, u64>, Map<i64, u64>, Quote, Quote);

/// The latest book of one instrument with the top of book last published for it.
pub struct BookEntry {
    pub sym: String,
    pub book: MarketBook,
    pub last_bid: Quote,
    pub last_ask: Quote,
}

pub open spec fn entry_view(e: BookEntry) -> InstrumentView {
    (e.book.asks@, e.book.bids@, e.last_bid, e.last_ask)
}

/// The view an instrument has right after a snapshot.
pub open spec fn snapshot_view(board: Board) -> InstrumentView {
    let asks = snapshot_levels(board.asks@);
    let bids = snapshot_levels(board.bids@);
    (asks, bids, best_bid_of(bids), best_ask_of(asks))
}

/// The view an instrument has after a delta on `v`.
pub open spec fn delta_view(v: InstrumentView, board: Board) -> InstrumentView {
    let asks = apply_levels(v.0, board.asks@);
    let bids = apply_levels(v.1, board.bids@);
    (asks, bids, best_bid_of(bids), best_ask_of(asks))
}

/// Whether a delta moved the top of book away from the one last published.
pub open spec fn top_changed(v: InstrumentView, board: Board) -> bool {
    let n = delta_view(v, board);
    n.2 != v.2 || n.3 != v.3
}

/// `r` carries the venue's names, the identity `id`, one time stamp and a fresh event id.
pub open spec fn stamped_rate(r: Rate, id: Identity) -> bool {
    &&& r.venue@ == VENUE@
    &&& r.category@ == CATEGORY@
    &&& r.data_center == id.data_center
    &&& r.process_id == id.process_id
    &&& r.timestamp == r.market_created_timestamp
    &&& r.universal_id@.len() == 36
}

/// `b` carries the venue's names, the identity `id`, one time stamp and a fresh event id.
pub open spec fn stamped_book(b: MarketBook, id: Identity) -> bool {
    &&& b.venue@ == VENUE@
    &&& b.category@ == CATEGORY@
    &&& b.data_center == id.data_center
    &&& b.process_id == id.process_id
    &&& b.timestamp == b.market_created_timestamp
    &&& b.universal_id@.len() == 36
}

/// Rebuilds books per instrument from snapshots and deltas and normalizes feed messages
/// into market events.
pub struct FeedHandler {
    entries: Vec<BookEntry>,
    identity: Identity,
    books: Ghost<Map<Seq<char>, InstrumentView>>,
}

impl View for FeedHandler {
    type V = Map<Seq<char>, InstrumentView>;

    closed spec fn view(&self) -> Map<Seq<char>, InstrumentView> {
        self.books@
    }
}

impl FeedHandler {
    pub closed spec fn wf(&self) -> bool {
        &&& forall|i: int|
            0 <= i < self.entries@.len() ==> (#[trigger] self.entries@[i]).book.wf()
                && self.entries@[i].book.sym@ == self.entries@[i].sym@
                && stamped_book(self.entries@[i].book, self.identity)
        &&& forall|i: int, j: int|
            0 <= i < j < self.entries@.len() ==> self.entries@[i].sym@ != self.entries@[j].sym@
        &&& forall|i: int|
            0 <= i < self.entries@.len() ==> self.books@.contains_key(
                (#[trigger] self.entries@[i]).sym@,
            ) && self.books@[self.entries@[i].sym@] == entry_view(self.entries@[i])
        &&& forall|k: Seq<char>|
            self.books@.contains_key(k) ==> exists|i: int|
                0 <= i < self.entries@.len() && (#[trigger] self.entries@[i]).sym@ == k
    }

    /// The identity stamped on the records this handler produces.
    pub closed spec fn id(&self) -> Identity {
        self.identity
    }

    /// A handler with no books yet.
    pub fn new(identity: Identity) -> (r: FeedHandler)
        ensures
            r.wf(),
            r@ == Map::<Seq<char>, InstrumentView>::empty(),
            r.id() == identity,
    {
        FeedHandler { entries: Vec::new(), identity, books: Ghost(Map::empty()) }
    }

    /// Whether a snapshot has been seen for `sym`.
    pub fn has_book(&self, sym: &String) -> (r: bool)
        requires
            self.wf(),
        ensures
            r == self@.contains_key(sym@),
    {
        self.find(sym).is_some()
    }

    fn find(&self, sym: &String) -> (r: Option<usize>)
        requires
            self.wf(),
        ensures
            r matches Some(i) ==> i < self.entries@.len() && self.entries@[i as int].sym@ == sym@,
            r is Some <==> self.books@.contains_key(sym@),
    {
        let mut i: usize = 0;
        while i < self.entries.len()
            invariant
                self.wf(),
                i <= self.entries@.len(),
                forall|k: int| 0 <= k < i ==> self.entries@[k].sym@ != sym@,
            decreases self.entries@.len() - i,
        {
            if self.entries[i].sym == *sym {
                return Some(i);
            }
            i = i + 1;
        }
        proof {
            if self.books@.contains_key(sym@) {
                let k = choose|k: int|
                    0 <= k < self.entries@.len() && (#[trigger] self.entries@[k]).sym@ == sym@;
                assert(self.entries@[k].sym@ == sym@);
            }
        }
        None
    }

    /// An owned copy of the latest book of `sym`, if a snapshot has been seen for it.
    pub fn latest_book(&self, sym: &String) -> (r: Option<MarketBook>)
        requires
            self.wf(),
        ensures
            r is Some <==> self@.contains_key(sym@),
            r matches Some(b) ==> b.wf() && b.asks@ == self@[sym@].0 && b.bids@ == self@[sym@].1
                && b.sym@ == sym@ && stamped_book(b, self.id()),
    {
        match self.find(sym) {
            Some(i) => {
                assert(self.books@[sym@] == entry_view(self.entries@[i as int]));
                Some(self.entries[i].book.duplicate())
            },
            None => None,
        }
    }

    /// Store `e` for its instrument, replacing any earlier entry.
    fn store(&mut self, e: BookEntry)
        requires
            old(self).wf(),
            e.book.wf(),
            e.book.sym@ == e.sym@,
            stamped_book(e.book, old(self).identity),
        ensures
            final(self).wf(),
            final(self)@ == old(self)@.insert(e.sym@, entry_view(e)),
            final(self).identity == old(self).identity,
    {
        let ghost k = e.sym@;
        let ghost v = entry_view(e);
        match self.find(&e.sym) {
            Some(i) => {
                let ghost old_entries = self.entries@;
                self.entries.set(i, e);
                self.books = Ghost(self.books@.insert(k, v));
                assert forall|j: int| 0 <= j < self.entries@.len() implies self.books@.contains_key(
                    (#[trigger] self.entries@[j]).sym@,
                ) && self.books@[self.entries@[j].sym@] == entry_view(self.entries@[j]) by {
                    if j != i {
                        assert(old_entries[j].sym@ != old_entries[i as int].sym@);
                    }
                }
                assert forall|q: Seq<char>| self.books@.contains_key(q) implies exists|j: int|
                    0 <= j < self.entries@.len() && (#[trigger] self.entries@[j]).sym@ == q by {
                    if q == k {
                        assert(self.entries@[i as int].sym@ == q);
                    } else {
                        let j = choose|j: int|
                            0 <= j < old_entries.len() && (#[trigger] old_entries[j]).sym@ == q;
                        assert(self.entries@[j].sym@ == q);
                    }
                }
            },
            None => {
                let ghost old_entries = self.entries@;
                self.entries.push(e);
                self.books = Ghost(self.books@.insert(k, v));
                let ghost n = old_entries.len() as int;
                assert forall|a: int, b: int|
                    0 <= a < b < self.entries@.len() implies self.entries@[a].sym@
                    != self.entries@[b].sym@ by {
                    if b == n {
                        assert(old_entries[a] == self.entries@[a]);
                    }
                }
                assert forall|j: int| 0 <= j < self.entries@.len() implies self.books@.contains_key(
                    (#[trigger] self.entries@[j]).sym@,
                ) && self.books@[self.entries@[j].sym@] == entry_view(self.entries@[j]) by {
                    if j < n {
                        assert(old_entries[j] == self.entries@[j]);
                    }
                }
                assert forall|q: Seq<char>| self.books@.contains_key(q) implies exists|j: int|
                    0 <= j < self.entries@.len() && (#[trigger] self.entries@[j]).sym@ == q by {
                    if q == k {
                        assert(self.entries@[n].sym@ == q);
                    } else {
                        let j = choose|j: int|
                            0 <= j < old_entries.len() && (#[trigger] old_entries[j]).sym@ == q;
                        assert(self.entries@[j] == old_entries[j]);
                    }
                }
            },
        }
    }

    /// No ladder of any instrument holds an entry of size zero, whatever sequence of
    /// snapshots and deltas produced it.
    pub proof fn lemma_no_zero_sizes(&self)
        requires
            self.wf(),
        ensures
            forall|k: Seq<char>|
                #[trigger] self@.contains_key(k) ==> no_zero_sizes(self@[k].0) && no_zero_sizes(
                    self@[k].1,
                ),
    {
        assert forall|k: Seq<char>| #[trigger] self@.contains_key(k) implies no_zero_sizes(
            self@[k].0,
        ) && no_zero_sizes(self@[k].1) by {
            let i = choose|i: int|
                0 <= i < self.entries@.len() && (#[trigger] self.entries@[i]).sym@ == k;
            crate::ladder::lemma_ladder_no_zero_sizes(&self.entries@[i].book.asks);
            crate::ladder::lemma_ladder_no_zero_sizes(&self.entries@[i].book.bids);
        }
    }

    /// A full snapshot for `sym`: the book is replaced wholesale and a Rate event is
    /// emitted, followed by a MarketBook event.
    pub fn on_board_snapshot(&mut self, sym: String, board: Board) -> (events: Vec<MarketData>)
        requires
            old(self).wf(),
        ensures
            final(self).wf(),
            final(self).id() == old(self).id(),
            final(self)@ == old(self)@.insert(sym@, snapshot_view(board)),
            events@.len() == 2,
            events@[0] matches MarketData::Rate(r) && r.sym == sym && r.best_bid == snapshot_view(
                board,
            ).2 && r.best_ask == snapshot_view(board).3 && r.mid_price == mid_of(
                r.best_bid,
                r.best_ask,
            ) && r.misc@ == Seq::<char>::empty() && stamped_rate(r, old(self).id()),
            events@[1] matches MarketData::MarketBook(b) && b.wf() && b.sym == sym && b.asks@
                == snapshot_view(board).0 && b.bids@ == snapshot_view(board).1 && b.misc@
                == SNAPSHOT_TAG@ && stamped_book(b, old(self).id()),
    {
        let ghost bv = board;
        let book = board.to_market_book(sym.clone(), &self.identity);
        let rate = book.to_rate(&self.identity);
        let entry = BookEntry {
            sym: sym.clone(),
            book: book.duplicate(),
            last_bid: rate.best_bid,
            last_ask: rate.best_ask,
        };
        self.store(entry);
        let mut events: Vec<MarketData> = Vec::new();
        events.push(MarketData::Rate(rate));
        events.push(MarketData::MarketBook(book));
        events
    }

    /// Merge a delta board into a copy of `latest`: each level upserts, size zero removes.
    /// The result is stamped now and tagged as a diff.
    pub fn merge_board_message(latest: &MarketBook, board: &Board) -> (r: MarketBook)
        requires
            latest.wf(),
        ensures
            r.wf(),
            r.asks@ == apply_levels(latest.asks@, board.asks@),
            r.bids@ == apply_levels(latest.bids@, board.bids@),
            r.sym == latest.sym,
            r.venue == latest.venue,
            r.category == latest.category,
            r.misc@ == DIFF_TAG@,
            r.timestamp == r.market_created_timestamp,
            r.universal_id@.len() == 36,
            r.data_center == latest.data_center,
            r.process_id == latest.process_id,
    {
        let mut merged = latest.duplicate();
        let now = now_nanos();
        merged.timestamp = now;
        merged.market_created_timestamp = now;
        merged.universal_id = new_uuid();
        merged.misc = String::from_str(DIFF_TAG);
        merged.asks.apply_delta(&board.asks);
        merged.bids.apply_delta(&board.bids);
        merged
    }

    /// A delta for `sym`. Without an earlier snapshot it is dropped. Otherwise the book is
    /// updated; a Rate event is emitted only if the best bid or best ask moved from the last
    /// published one, and a MarketBook event always follows.
    pub fn on_board_delta(&mut self, sym: String, board: Board) -> (events: Vec<MarketData>)
        requires
            old(self).wf(),
        ensures
            final(self).wf(),
            final(self).id() == old(self).id(),
            !old(self)@.contains_key(sym@) ==> events@.len() == 0 && final(self)@ == old(self)@,
            old(self)@.contains_key(sym@) ==> {
                let v = old(self)@[sym@];
                let n = delta_view(v, board);
                &&& final(self)@ == old(self)@.insert(sym@, n)
                &&& events@.len() == if top_changed(v, board) {
                    2int
                } else {
                    1int
                }
                &&& top_changed(v, board) ==> (events@[0] matches MarketData::Rate(r) && r.sym@
                    == sym@ && r.best_bid == n.2 && r.best_ask == n.3 && r.mid_price == mid_of(
                    n.2,
                    n.3,
                ) && r.misc@ == DIFF_TAG@ && stamped_rate(r, old(self).id()))
                &&& events@.last() matches MarketData::MarketBook(b) && b.wf() && b.sym@ == sym@
                    && b.asks@ == n.0 && b.bids@ == n.1 && b.misc@ == DIFF_TAG@ && stamped_book(
                    b,
                    old(self).id(),
                )
            },
    {
        let mut events: Vec<MarketData> = Vec::new();
        let i = match self.find(&sym) {
            Some(i) => i,
            None => {
                return events;
            },
        };
        assert(self.books@[sym@] == entry_view(self.entries@[i as int]));
        let merged = Self::merge_board_message(&self.entries[i].book, &board);
        let mut rate = merged.to_rate(&self.identity);
        rate.misc = String::from_str(DIFF_TAG);
        let last_bid = self.entries[i].last_bid;
        let last_ask = self.entries[i].last_ask;
        let changed = rate.best_bid != last_bid || rate.best_ask != last_ask;
        let entry = BookEntry {
            sym: sym.clone(),
            book: merged.duplicate(),
            last_bid: rate.best_bid,
            last_ask: rate.best_ask,
        };
        self.store(entry);
        if changed {
            events.push(MarketData::Rate(rate));
        }
        events.push(MarketData::MarketBook(merged));
        events
    }

    /// One MarketTrade event per execution, in list order.
    pub fn on_executions(&self, sym: String, execs: &Vec<Execution>) -> (events: Vec<MarketData>)
        ensures
            events@.len() == execs@.len(),
            forall|i: int|
                0 <= i < execs@.len() ==> (#[trigger] events@[i] matches MarketData::MarketTrade(t)
                    && is_trade_of(t, execs@[i], sym, self.id())),
    {
        let mut events: Vec<MarketData> = Vec::new();
        let mut i: usize = 0;
        while i < execs.len()
            invariant
                i <= execs@.len(),
                events@.len() == i,
                forall|k: int|
                    0 <= k < i ==> (#[trigger] events@[k] matches MarketData::MarketTrade(t)
                        && is_trade_of(t, execs@[k], sym, self.id())),
            decreases execs@.len() - i,
        {
            let t = execs[i].to_market_trade(sym.clone(), &self.identity);
            events.push(MarketData::MarketTrade(t));
            i = i + 1;
        }
        events
    }
}

} // verus!
