use vstd::prelude::*;

use crate::identity::Identity;
use crate::marketdata::{MarketData, MarketTrade, Quote, Rate};
use crate::order::{Order, OrderStatus, OrderType, Position};

verus! {

/// Default latency of submitting a market order, in nanoseconds.
pub const MARKET_SUBMIT_LATENCY_NANOS: u64 = 100_000_000;

/// Default latency of receiving a market order's answer, in nanoseconds.
pub const MARKET_RECEIVE_LATENCY_NANOS: u64 = 1_000_000_000;

/// Default latency of submitting a limit order, in nanoseconds.
pub const LIMIT_SUBMIT_LATENCY_NANOS: u64 = 100_000_000;

/// Default latency of receiving a limit order's answer, in nanoseconds.
pub const LIMIT_RECEIVE_LATENCY_NANOS: u64 = 1_000_000_000;

/// Why an order operation failed.
#[derive(Clone, Copy, Debug, PartialEq, Eq, Structural)]
pub enum OrderError {
    /// No pending order has this id.
    NotFound(u64),
}

/// The finite price of a quote (zero for a sentinel).
pub open spec fn quote_price(q: Quote) -> i64 {
    match q {
        Quote::Price(p) => p,
        _ => 0,
    }
}

/// A pending market order fills on this Rate: same instrument and venue, and a buy or sell
/// side.
pub open spec fn market_fills(o: Order, r: Rate) -> bool {
    &&& o.sym@ == r.sym@
    &&& o.venue@ == r.venue@
    &&& o.side != 0
}

/// The quote a market order trades against: the best ask for a buy, the best bid for a sell.
pub open spec fn market_quote(o: Order, r: Rate) -> Quote {
    if o.side > 0 {
        r.best_ask
    } else {
        r.best_bid
    }
}

/// A market order filled in full on a Rate at the quote it trades against. A finite quote
/// becomes the order's price; a sentinel quote is kept as the executed price only.
pub open spec fn market_fill(o: Order, r: Rate) -> Order {
    Order {
        price: match market_quote(o, r) {
            Quote::Price(p) => p,
            _ => o.price,
        },
        executed_price: Some(market_quote(o, r)),
        executed_amount: o.amount,
        received_timestamp: r.timestamp,
        order_status: OrderStatus::Filled,
        ..o
    }
}

/// A pending limit order fills on this trade: same instrument and venue, an opposite-side
/// trade that crosses the limit price, and the order was created before the trade.
pub open spec fn limit_fills(o: Order, t: MarketTrade) -> bool {
    &&& o.sym@ == t.sym@
    &&& o.venue@ == t.venue@
    &&& o.market_created_timestamp < t.market_created_timestamp
    &&& (o.side > 0 && t.side < 0 && t.price <= o.price) || (o.side < 0 && t.side > 0 && o.price
        <= t.price)
}

/// A limit order filled in full at its limit price by a trade.
pub open spec fn limit_fill(o: Order, t: MarketTrade) -> Order {
    Order {
        executed_price: Some(Quote::Price(o.price)),
        executed_amount: o.amount,
        received_timestamp: t.timestamp,
        order_status: OrderStatus::Filled,
        ..o
    }
}

/// The market orders that stay pending after a Rate, in their order.
pub open spec fn kept_market(s: Seq<Order>, r: Rate) -> Seq<Order>
    decreases s.len(),
{
    if s.len() == 0 {
        s
    } else if market_fills(s.last(), r) {
        kept_market(s.drop_last(), r)
    } else {
        kept_market(s.drop_last(), r).push(s.last())
    }
}

/// The market orders a Rate fills, as filled, in their order.
pub open spec fn filled_market(s: Seq<Order>, r: Rate) -> Seq<Order>
    decreases s.len(),
{
    if s.len() == 0 {
        s
    } else if market_fills(s.last(), r) {
        filled_market(s.drop_last(), r).push(market_fill(s.last(), r))
    } else {
        filled_market(s.drop_last(), r)
    }
}

/// The limit orders that stay pending after a trade, in their order.
pub open spec fn kept_limit(s: Seq<Order>, t: MarketTrade) -> Seq<Order>
    decreases s.len(),
{
    if s.len() == 0 {
        s
    } else if limit_fills(s.last(), t) {
        kept_limit(s.drop_last(), t)
    } else {
        kept_limit(s.drop_last(), t).push(s.last())
    }
}

/// The limit orders a trade fills, as filled, in their order.
pub open spec fn filled_limit(s: Seq<Order>, t: MarketTrade) -> Seq<Order>
    decreases s.len(),
{
    if s.len() == 0 {
        s
    } else if limit_fills(s.last(), t) {
        filled_limit(s.drop_last(), t).push(limit_fill(s.last(), t))
    } else {
        filled_limit(s.drop_last(), t)
    }
}

/// Order ids strictly increase along `s`.
pub open spec fn ids_increasing(s: Seq<Order>) -> bool {
    forall|i: int, j: int| 0 <= i < j < s.len() ==> s[i].order_id < s[j].order_id
}

/// No two orders of `s` share an id.
pub open spec fn ids_distinct(s: Seq<Order>) -> bool {
    forall|i: int, j: int| 0 <= i < j < s.len() ==> s[i].order_id != s[j].order_id
}

/// Every order id of `s` is below `n`.
pub open spec fn ids_below(s: Seq<Order>, n: int) -> bool {
    forall|i: int| 0 <= i < s.len() ==> s[i].order_id < n
}

/// No order of `a` shares an id with an order of `b`.
pub open spec fn ids_disjoint(a: Seq<Order>, b: Seq<Order>) -> bool {
    forall|i: int, j: int| 0 <= i < a.len() && 0 <= j < b.len() ==> a[i].order_id != b[j].order_id
}

proof fn lemma_disjoint_sym(a: Seq<Order>, b: Seq<Order>)
    requires
        ids_disjoint(a, b),
    ensures
        ids_disjoint(b, a),
{
    assert forall|i: int, j: int| 0 <= i < b.len() && 0 <= j < a.len() implies b[i].order_id
        != a[j].order_id by {
        assert(a[j].order_id != b[i].order_id);
    }
}

proof fn lemma_concat_ids(a: Seq<Order>, b: Seq<Order>, t: Seq<Order>, n: int)
    requires
        ids_distinct(a),
        ids_increasing(b),
        ids_disjoint(a, b),
        ids_disjoint(t, a),
        ids_disjoint(t, b),
        ids_below(a, n),
        ids_below(b, n),
    ensures
        ids_distinct(a + b),
        ids_disjoint(t, a + b),
        ids_below(a + b, n),
{
    let c = a + b;
    assert forall|i: int, j: int| 0 <= i < j < c.len() implies c[i].order_id != c[j].order_id by {
        if j < a.len() {
        } else if i < a.len() {
            assert(c[j] == b[j - a.len()]);
        } else {
            assert(c[i] == b[i - a.len()] && c[j] == b[j - a.len()]);
        }
    }
    assert forall|i: int, j: int| 0 <= i < t.len() && 0 <= j < c.len() implies t[i].order_id
        != c[j].order_id by {
        if j >= a.len() {
            assert(c[j] == b[j - a.len()]);
        }
    }
    assert forall|i: int| 0 <= i < c.len() implies c[i].order_id < n by {
        if i >= a.len() {
            assert(c[i] == b[i - a.len()]);
        }
    }
}

proof fn lemma_remove_ids(s: Seq<Order>, k: int, t: Seq<Order>, u: Seq<Order>, n: int)
    requires
        0 <= k < s.len(),
        ids_increasing(s),
        ids_disjoint(s, t),
        ids_disjoint(s, u),
        ids_below(s, n),
    ensures
        ids_increasing(s.remove(k)),
        ids_disjoint(s.remove(k), t),
        ids_disjoint(s.remove(k), u),
        ids_below(s.remove(k), n),
{
    let r = s.remove(k);
    assert forall|i: int| 0 <= i < r.len() implies r[i] == s[if i < k { i } else { i + 1 }] by {}
    assert forall|i: int, j: int| 0 <= i < j < r.len() implies r[i].order_id < r[j].order_id by {
        assert(r[i] == s[if i < k { i } else { i + 1 }]);
        assert(r[j] == s[if j < k { j } else { j + 1 }]);
    }
    assert forall|i: int, j: int| 0 <= i < r.len() && 0 <= j < t.len() implies r[i].order_id
        != t[j].order_id by {
        assert(r[i] == s[if i < k { i } else { i + 1 }]);
    }
    assert forall|i: int, j: int| 0 <= i < r.len() && 0 <= j < u.len() implies r[i].order_id
        != u[j].order_id by {
        assert(r[i] == s[if i < k { i } else { i + 1 }]);
    }
    assert forall|i: int| 0 <= i < r.len() implies r[i].order_id < n by {
        assert(r[i] == s[if i < k { i } else { i + 1 }]);
    }
}

proof fn lemma_push_ids(s: Seq<Order>, o: Order, t: Seq<Order>, u: Seq<Order>, n: int)
    requires
        ids_increasing(s),
        ids_below(s, n),
        ids_below(t, n),
        ids_below(u, n),
        ids_disjoint(s, t),
        ids_disjoint(s, u),
        o.order_id == n,
    ensures
        ids_increasing(s.push(o)),
        ids_disjoint(s.push(o), t),
        ids_disjoint(s.push(o), u),
        ids_below(s.push(o), n + 1),
{
    let r = s.push(o);
    assert forall|i: int| 0 <= i < s.len() implies r[i] == s[i] by {}
}

proof fn lemma_partition_market(s: Seq<Order>, x: Rate, t: Seq<Order>, n: int)
    requires
        ids_increasing(s),
        ids_disjoint(s, t),
        ids_below(s, n),
    ensures
        ids_increasing(kept_market(s, x)),
        ids_increasing(filled_market(s, x)),
        ids_disjoint(kept_market(s, x), filled_market(s, x)),
        ids_disjoint(kept_market(s, x), t),
        ids_disjoint(filled_market(s, x), t),
        ids_below(kept_market(s, x), n),
        ids_below(filled_market(s, x), n),
    decreases s.len(),
{
    if s.len() > 0 {
        let p = s.drop_last();
        let l = s.last();
        assert(ids_below(p, l.order_id as int)) by {
            assert forall|i: int| 0 <= i < p.len() implies p[i].order_id < l.order_id by {
                assert(p[i] == s[i]);
            }
        }
        assert(ids_disjoint(p, t)) by {
            assert forall|i: int, j: int| 0 <= i < p.len() && 0 <= j < t.len() implies p[i].order_id
                != t[j].order_id by {
                assert(p[i] == s[i]);
            }
        }
        assert(forall|j: int| 0 <= j < t.len() ==> t[j].order_id != l.order_id) by {
            assert forall|j: int| 0 <= j < t.len() implies t[j].order_id != l.order_id by {
                assert(s[s.len() - 1] == l);
            }
        }
        assert(ids_below(p, n)) by {
            assert forall|i: int| 0 <= i < p.len() implies p[i].order_id < n by {
                assert(p[i] == s[i]);
            }
        }
        assert(ids_increasing(p)) by {
            assert forall|i: int, j: int| 0 <= i < j < p.len() implies p[i].order_id
                < p[j].order_id by {
                assert(p[i] == s[i] && p[j] == s[j]);
            }
        }
        assert(l.order_id < n) by {
            assert(s[s.len() - 1] == l);
        }
        lemma_partition_market(p, x, t, l.order_id as int);
        lemma_partition_market(p, x, t, n);
        let k = kept_market(p, x);
        let f = filled_market(p, x);
        if market_fills(l, x) {
            let g = f.push(market_fill(l, x));
            assert(market_fill(l, x).order_id == l.order_id);
            assert forall|i: int| 0 <= i < f.len() implies g[i] == f[i] by {}
        } else {
            let g = k.push(l);
            assert forall|i: int| 0 <= i < k.len() implies g[i] == k[i] by {}
        }
    }
}

proof fn lemma_partition_limit(s: Seq<Order>, x: MarketTrade, t: Seq<Order>, n: int)
    requires
        ids_increasing(s),
        ids_disjoint(s, t),
        ids_below(s, n),
    ensures
        ids_increasing(kept_limit(s, x)),
        ids_increasing(filled_limit(s, x)),
        ids_disjoint(kept_limit(s, x), filled_limit(s, x)),
        ids_disjoint(kept_limit(s, x), t),
        ids_disjoint(filled_limit(s, x), t),
        ids_below(kept_limit(s, x), n),
        ids_below(filled_limit(s, x), n),
    decreases s.len(),
{
    if s.len() > 0 {
        let p = s.drop_last();
        let l = s.last();
        assert(ids_below(p, l.order_id as int)) by {
            assert forall|i: int| 0 <= i < p.len() implies p[i].order_id < l.order_id by {
                assert(p[i] == s[i]);
            }
        }
        assert(ids_disjoint(p, t)) by {
            assert forall|i: int, j: int| 0 <= i < p.len() && 0 <= j < t.len() implies p[i].order_id
                != t[j].order_id by {
                assert(p[i] == s[i]);
            }
        }
        assert(forall|j: int| 0 <= j < t.len() ==> t[j].order_id != l.order_id) by {
            assert forall|j: int| 0 <= j < t.len() implies t[j].order_id != l.order_id by {
                assert(s[s.len() - 1] == l);
            }
        }
        assert(ids_below(p, n)) by {
            assert forall|i: int| 0 <= i < p.len() implies p[i].order_id < n by {
                assert(p[i] == s[i]);
            }
        }
        assert(ids_increasing(p)) by {
            assert forall|i: int, j: int| 0 <= i < j < p.len() implies p[i].order_id
                < p[j].order_id by {
                assert(p[i] == s[i] && p[j] == s[j]);
            }
        }
        assert(l.order_id < n) by {
            assert(s[s.len() - 1] == l);
        }
        lemma_partition_limit(p, x, t, l.order_id as int);
        lemma_partition_limit(p, x, t, n);
        let k = kept_limit(p, x);
        let f = filled_limit(p, x);
        if limit_fills(l, x) {
            let g = f.push(limit_fill(l, x));
            assert(limit_fill(l, x).order_id == l.order_id);
            assert forall|i: int| 0 <= i < f.len() implies g[i] == f[i] by {}
        } else {
            let g = k.push(l);
            assert forall|i: int| 0 <= i < k.len() implies g[i] == k[i] by {}
        }
    }
}

/// Each pending market order either fills, and then appears filled among the fills and no longer
/// among the pending orders, or stays pending unchanged and appears in no fill.
pub proof fn lemma_market_order_outcome(s: Seq<Order>, x: Rate, i: int)
    requires
        0 <= i < s.len(),
        ids_increasing(s),
    ensures
        market_fills(s[i], x) ==> (exists|j: int|
            0 <= j < filled_market(s, x).len() && filled_market(s, x)[j] == market_fill(s[i], x)),
        market_fills(s[i], x) ==> forall|j: int|
            0 <= j < kept_market(s, x).len() ==> kept_market(s, x)[j].order_id != s[i].order_id,
        !market_fills(s[i], x) ==> (exists|j: int|
            0 <= j < kept_market(s, x).len() && kept_market(s, x)[j] == s[i]),
        !market_fills(s[i], x) ==> forall|j: int|
            0 <= j < filled_market(s, x).len() ==> filled_market(s, x)[j].order_id != s[i].order_id,
    decreases s.len(),
{
    let p = s.drop_last();
    let l = s.last();
    assert(ids_increasing(p)) by {
        assert forall|a: int, b: int| 0 <= a < b < p.len() implies p[a].order_id
            < p[b].order_id by {
            assert(p[a] == s[a] && p[b] == s[b]);
        }
    }
    assert(ids_below(p, l.order_id as int)) by {
        assert forall|a: int| 0 <= a < p.len() implies p[a].order_id < l.order_id by {
            assert(p[a] == s[a]);
        }
    }
    lemma_partition_market(p, x, Seq::empty(), l.order_id as int);
    let k = kept_market(p, x);
    let f = filled_market(p, x);
    if i == s.len() - 1 {
        assert(s[i] == l);
        assert(market_fill(l, x).order_id == l.order_id);
        if market_fills(l, x) {
            assert(filled_market(s, x)[f.len() as int] == market_fill(l, x));
        } else {
            assert(kept_market(s, x)[k.len() as int] == l);
        }
    } else {
        assert(p[i] == s[i]);
        lemma_market_order_outcome(p, x, i);
        assert(s[i].order_id < l.order_id);
        if market_fills(l, x) {
            let g = f.push(market_fill(l, x));
            assert forall|j: int| 0 <= j < f.len() implies g[j] == f[j] by {}
        } else {
            let g = k.push(l);
            assert forall|j: int| 0 <= j < k.len() implies g[j] == k[j] by {}
        }
    }
}

/// Each pending limit order either fills, and then appears filled among the fills and no longer
/// among the pending orders, or stays pending unchanged and appears in no fill.
pub proof fn lemma_limit_order_outcome(s: Seq<Order>, x: MarketTrade, i: int)
    requires
        0 <= i < s.len(),
        ids_increasing(s),
    ensures
        limit_fills(s[i], x) ==> (exists|j: int|
            0 <= j < filled_limit(s, x).len() && filled_limit(s, x)[j] == limit_fill(s[i], x)),
        limit_fills(s[i], x) ==> forall|j: int|
            0 <= j < kept_limit(s, x).len() ==> kept_limit(s, x)[j].order_id != s[i].order_id,
        !limit_fills(s[i], x) ==> (exists|j: int|
            0 <= j < kept_limit(s, x).len() && kept_limit(s, x)[j] == s[i]),
        !limit_fills(s[i], x) ==> forall|j: int|
            0 <= j < filled_limit(s, x).len() ==> filled_limit(s, x)[j].order_id != s[i].order_id,
    decreases s.len(),
{
    let p = s.drop_last();
    let l = s.last();
    assert(ids_increasing(p)) by {
        assert forall|a: int, b: int| 0 <= a < b < p.len() implies p[a].order_id
            < p[b].order_id by {
            assert(p[a] == s[a] && p[b] == s[b]);
        }
    }
    assert(ids_below(p, l.order_id as int)) by {
        assert forall|a: int| 0 <= a < p.len() implies p[a].order_id < l.order_id by {
            assert(p[a] == s[a]);
        }
    }
    lemma_partition_limit(p, x, Seq::empty(), l.order_id as int);
    let k = kept_limit(p, x);
    let f = filled_limit(p, x);
    if i == s.len() - 1 {
        assert(s[i] == l);
        assert(limit_fill(l, x).order_id == l.order_id);
        if limit_fills(l, x) {
            assert(filled_limit(s, x)[f.len() as int] == limit_fill(l, x));
        } else {
            assert(kept_limit(s, x)[k.len() as int] == l);
        }
    } else {
        assert(p[i] == s[i]);
        lemma_limit_order_outcome(p, x, i);
        assert(s[i].order_id < l.order_id);
        if limit_fills(l, x) {
            let g = f.push(limit_fill(l, x));
            assert forall|j: int| 0 <= j < f.len() implies g[j] == f[j] by {}
        } else {
            let g = k.push(l);
            assert forall|j: int| 0 <= j < k.len() implies g[j] == k[j] by {}
        }
    }
}

/// The first order with id `id` in `s`.
pub open spec fn first_with_id(s: Seq<Order>, id: u64) -> Option<Order>
    decreases s.len(),
{
    if s.len() == 0 {
        None
    } else if s[0].order_id == id {
        Some(s[0])
    } else {
        first_with_id(s.drop_first(), id)
    }
}

/// `i` is the first position of an order with id `id` in `s`.
pub open spec fn first_index_of(s: Seq<Order>, id: u64, i: int) -> bool {
    &&& 0 <= i < s.len()
    &&& s[i].order_id == id
    &&& forall|j: int| 0 <= j < i ==> s[j].order_id != id
}

/// `a + b`, saturating at the largest timestamp.
pub open spec fn add_latency(a: i128, b: u64) -> i128 {
    if a + b > i128::MAX {
        i128::MAX
    } else {
        (a + b) as i128
    }
}

fn add_latency_exec(a: i128, b: u64) -> (r: i128)
    ensures
        r == add_latency(a, b),
{
    if a > i128::MAX - b as i128 {
        i128::MAX
    } else {
        a + b as i128
    }
}

/// A canceled order: stamped at `ts`, counted on the market after the submit latency and
/// received after the receive latency.
pub open spec fn canceled(o: Order, ts: i128, submit: u64, receive: u64) -> Order {
    Order {
        order_status: OrderStatus::Canceled,
        timestamp: ts,
        market_created_timestamp: add_latency(ts, submit),
        received_timestamp: add_latency(add_latency(ts, submit), receive),
        ..o
    }
}

/// What every execution venue offers a strategy.
pub trait ExecutionClient {
    /// The client's internal consistency.
    spec fn ready(&self) -> bool;

    /// Whether one more order can be created.
    spec fn can_submit(&self) -> bool;

    fn submit_order(
        &mut self,
        timestamp: i128,
        sym: &str,
        side: i16,
        price: i64,
        amount: u64,
        order_type: OrderType,
        model_id: &str,
    ) -> (r: Order)
        requires
            old(self).ready(),
            old(self).can_submit(),
        ensures
            final(self).ready(),
    ;

    fn cancel_order(&mut self, timestamp: i128, order_id: u64) -> (r: Result<Order, OrderError>)
        requires
            old(self).ready(),
        ensures
            final(self).ready(),
    ;

    fn get_order_status(&self, order_id: u64) -> Option<Order>;

    fn get_positions(&self) -> Position;
}

/// Simulated execution against the normalized event stream.
pub struct BacktestClient {
    venue: String,
    pending_market_orders: Vec<Order>,
    pending_limit_orders: Vec<Order>,
    filled_orders: Vec<Order>,
    best_bid: Quote,
    best_ask: Quote,
    market_order_submit_latency: u64,
    market_order_receive_latency: u64,
    limit_order_submit_latency: u64,
    limit_order_receive_latency: u64,
    next_order_id: u64,
    identity: Identity,
}

impl BacktestClient {
    pub closed spec fn venue_name(&self) -> String {
        self.venue
    }

    pub closed spec fn pending_market(&self) -> Seq<Order> {
        self.pending_market_orders@
    }

    pub closed spec fn pending_limit(&self) -> Seq<Order> {
        self.pending_limit_orders@
    }

    pub closed spec fn filled(&self) -> Seq<Order> {
        self.filled_orders@
    }

    pub closed spec fn last_bid(&self) -> Quote {
        self.best_bid
    }

    pub closed spec fn last_ask(&self) -> Quote {
        self.best_ask
    }

    pub closed spec fn next_id(&self) -> u64 {
        self.next_order_id
    }

    pub closed spec fn market_submit_latency(&self) -> u64 {
        self.market_order_submit_latency
    }

    pub closed spec fn market_receive_latency(&self) -> u64 {
        self.market_order_receive_latency
    }

    pub closed spec fn limit_submit_latency(&self) -> u64 {
        self.limit_order_submit_latency
    }

    pub closed spec fn limit_receive_latency(&self) -> u64 {
        self.limit_order_receive_latency
    }

    /// Every order id held is below the next id and held once: each pending list in
    /// increasing id order, the filled list without repeats, and no id in two lists.
    pub open spec fn wf(&self) -> bool {
        &&& ids_below(self.pending_market(), self.next_id() as int)
        &&& ids_below(self.pending_limit(), self.next_id() as int)
        &&& ids_below(self.filled(), self.next_id() as int)
        &&& ids_increasing(self.pending_market())
        &&& ids_increasing(self.pending_limit())
        &&& ids_distinct(self.filled())
        &&& ids_disjoint(self.pending_market(), self.pending_limit())
        &&& ids_disjoint(self.pending_market(), self.filled())
        &&& ids_disjoint(self.pending_limit(), self.filled())
    }

    /// The state other than the three order collections is the same in both.
    pub open spec fn same_settings(&self, o: &BacktestClient) -> bool {
        &&& self.venue_name() == o.venue_name()
        &&& self.next_id() == o.next_id()
        &&& self.last_bid() == o.last_bid()
        &&& self.last_ask() == o.last_ask()
        &&& self.market_submit_latency() == o.market_submit_latency()
        &&& self.market_receive_latency() == o.market_receive_latency()
        &&& self.limit_submit_latency() == o.limit_submit_latency()
        &&& self.limit_receive_latency() == o.limit_receive_latency()
    }

    /// An engine with nothing pending, a best bid of zero and an unquoted ask, and the
    /// default latencies.
    pub fn new(venue: &str, identity: Identity) -> (r: BacktestClient)
        ensures
            r.wf(),
            r.venue_name()@ == venue@,
            r.pending_market().len() == 0,
            r.pending_limit().len() == 0,
            r.filled().len() == 0,
            r.last_bid() == Quote::Price(0),
            r.last_ask() == Quote::PosInfinity,
            r.next_id() == 0,
            r.market_submit_latency() == MARKET_SUBMIT_LATENCY_NANOS,
            r.market_receive_latency() == MARKET_RECEIVE_LATENCY_NANOS,
            r.limit_submit_latency() == LIMIT_SUBMIT_LATENCY_NANOS,
            r.limit_receive_latency() == LIMIT_RECEIVE_LATENCY_NANOS,
    {
        BacktestClient {
            venue: venue.to_owned(),
            pending_market_orders: Vec::new(),
            pending_limit_orders: Vec::new(),
            filled_orders: Vec::new(),
            best_bid: Quote::Price(0),
            best_ask: Quote::PosInfinity,
            market_order_submit_latency: MARKET_SUBMIT_LATENCY_NANOS,
            market_order_receive_latency: MARKET_RECEIVE_LATENCY_NANOS,
            limit_order_submit_latency: LIMIT_SUBMIT_LATENCY_NANOS,
            limit_order_receive_latency: LIMIT_RECEIVE_LATENCY_NANOS,
            next_order_id: 0,
            identity,
        }
    }

    /// The same engine with other latencies, in nanoseconds.
    pub fn with_latencies(
        self,
        market_submit: u64,
        market_receive: u64,
        limit_submit: u64,
        limit_receive: u64,
    ) -> (r: BacktestClient)
        ensures
            r.venue_name() == self.venue_name(),
            r.pending_market() == self.pending_market(),
            r.pending_limit() == self.pending_limit(),
            r.filled() == self.filled(),
            r.last_bid() == self.last_bid(),
            r.last_ask() == self.last_ask(),
            r.next_id() == self.next_id(),
            r.market_submit_latency() == market_submit,
            r.market_receive_latency() == market_receive,
            r.limit_submit_latency() == limit_submit,
            r.limit_receive_latency() == limit_receive,
    {
        BacktestClient {
            market_order_submit_latency: market_submit,
            market_order_receive_latency: market_receive,
            limit_order_submit_latency: limit_submit,
            limit_order_receive_latency: limit_receive,
            ..self
        }
    }

    /// The best bid and best ask of the last Rate seen.
    pub fn quotes(&self) -> (r: (Quote, Quote))
        ensures
            r == (self.last_bid(), self.last_ask()),
    {
        (self.best_bid, self.best_ask)
    }

    /// Feed one market event to the engine. A Rate fills every pending market order of its
    /// instrument and venue and then becomes the last known quote; a MarketTrade fills every
    /// pending limit order it crosses. Returns the orders filled, in pending order.
    pub fn next(&mut self, market_data: &MarketData) -> (r: Vec<Order>)
        requires
            old(self).wf(),
        ensures
            final(self).wf(),
            final(self).venue_name() == old(self).venue_name(),
            final(self).next_id() == old(self).next_id(),
            final(self).market_submit_latency() == old(self).market_submit_latency(),
            final(self).market_receive_latency() == old(self).market_receive_latency(),
            final(self).limit_submit_latency() == old(self).limit_submit_latency(),
            final(self).limit_receive_latency() == old(self).limit_receive_latency(),
            final(self).filled() == old(self).filled() + r@,
            match market_data {
                MarketData::Rate(rate) => {
                    &&& r@ == filled_market(old(self).pending_market(), *rate)
                    &&& final(self).pending_market() == kept_market(
                        old(self).pending_market(),
                        *rate,
                    )
                    &&& final(self).pending_limit() == old(self).pending_limit()
                    &&& final(self).last_bid() == rate.best_bid
                    &&& final(self).last_ask() == rate.best_ask
                },
                MarketData::MarketTrade(t) => {
                    &&& r@ == filled_limit(old(self).pending_limit(), *t)
                    &&& final(self).pending_limit() == kept_limit(old(self).pending_limit(), *t)
                    &&& final(self).pending_market() == old(self).pending_market()
                    &&& final(self).last_bid() == old(self).last_bid()
                    &&& final(self).last_ask() == old(self).last_ask()
                },
                MarketData::MarketBook(_) => {
                    &&& r@.len() == 0
                    &&& final(self).pending_limit() == old(self).pending_limit()
                    &&& final(self).pending_market() == old(self).pending_market()
                    &&& final(self).last_bid() == old(self).last_bid()
                    &&& final(self).last_ask() == old(self).last_ask()
                },
            },
    {
        let fills = match market_data {
            MarketData::Rate(rate) => {
                let f = self.process_market_orders(rate);
                self.best_bid = rate.best_bid;
                self.best_ask = rate.best_ask;
                f
            },
            MarketData::MarketTrade(t) => self.process_limit_orders(t),
            MarketData::MarketBook(_) => Vec::new(),
        };
        append_all(&mut self.filled_orders, &fills);
        proof {
            let pm = old(self).pending_market();
            let pl = old(self).pending_limit();
            let fl = old(self).filled();
            let n = old(self).next_id() as int;
            match market_data {
                MarketData::Rate(rate) => {
                    lemma_partition_market(pm, *rate, pl, n);
                    lemma_partition_market(pm, *rate, fl, n);
                    let k = kept_market(pm, *rate);
                    let f = filled_market(pm, *rate);
                    lemma_disjoint_sym(f, fl);
                    lemma_disjoint_sym(f, pl);
                    lemma_concat_ids(fl, f, k, n);
                    lemma_concat_ids(fl, f, pl, n);
                },
                MarketData::MarketTrade(t) => {
                    lemma_partition_limit(pl, *t, pm, n);
                    lemma_partition_limit(pl, *t, fl, n);
                    let k = kept_limit(pl, *t);
                    let f = filled_limit(pl, *t);
                    lemma_disjoint_sym(f, fl);
                    lemma_disjoint_sym(f, pm);
                    lemma_disjoint_sym(k, pm);
                    lemma_concat_ids(fl, f, pm, n);
                    lemma_concat_ids(fl, f, k, n);
                },
                MarketData::MarketBook(_) => {
                    assert(fl + fills@ =~= fl);
                },
            }
        }
        fills
    }

    fn process_market_orders(&mut self, rate: &Rate) -> (r: Vec<Order>)
        ensures
            r@ == filled_market(old(self).pending_market_orders@, *rate),
            final(self).pending_market_orders@ == kept_market(
                old(self).pending_market_orders@,
                *rate,
            ),
            final(self).pending_limit_orders == old(self).pending_limit_orders,
            final(self).filled_orders == old(self).filled_orders,
            final(self).venue_name() == old(self).venue_name(),
            final(self).best_bid == old(self).best_bid,
            final(self).best_ask == old(self).best_ask,
            final(self).next_order_id == old(self).next_order_id,
            final(self).market_order_submit_latency == old(self).market_order_submit_latency,
            final(self).market_order_receive_latency == old(self).market_order_receive_latency,
            final(self).limit_order_submit_latency == old(self).limit_order_submit_latency,
            final(self).limit_order_receive_latency == old(self).limit_order_receive_latency,
    {
        let ghost s = self.pending_market_orders@;
        let mut kept: Vec<Order> = Vec::new();
        let mut fills: Vec<Order> = Vec::new();
        let mut i: usize = 0;
        while i < self.pending_market_orders.len()
            invariant
                self.pending_market_orders@ == s,
                i <= s.len(),
                kept@ == kept_market(s.subrange(0, i as int), *rate),
                fills@ == filled_market(s.subrange(0, i as int), *rate),
            decreases s.len() - i,
        {
            let mut o = self.pending_market_orders[i].duplicate();
            proof {
                let pre = s.subrange(0, i as int + 1);
                assert(pre.drop_last() =~= s.subrange(0, i as int));
                assert(pre.last() == o);
            }
            if o.sym == rate.sym && o.venue == rate.venue && o.side != 0 {
                let q = if o.side > 0 {
                    rate.best_ask
                } else {
                    rate.best_bid
                };
                match q {
                    Quote::Price(p) => {
                        o.price = p;
                    },
                    _ => {},
                }
                o.executed_price = Some(q);
                o.executed_amount = o.amount;
                o.received_timestamp = rate.timestamp;
                o.order_status = OrderStatus::Filled;
                fills.push(o);
            } else {
                kept.push(o);
            }
            i = i + 1;
        }
        assert(s.subrange(0, s.len() as int) =~= s);
        self.pending_market_orders = kept;
        fills
    }

    fn process_limit_orders(&mut self, t: &MarketTrade) -> (r: Vec<Order>)
        ensures
            r@ == filled_limit(old(self).pending_limit_orders@, *t),
            final(self).pending_limit_orders@ == kept_limit(old(self).pending_limit_orders@, *t),
            final(self).pending_market_orders == old(self).pending_market_orders,
            final(self).filled_orders == old(self).filled_orders,
            final(self).venue_name() == old(self).venue_name(),
            final(self).best_bid == old(self).best_bid,
            final(self).best_ask == old(self).best_ask,
            final(self).next_order_id == old(self).next_order_id,
            final(self).market_order_submit_latency == old(self).market_order_submit_latency,
            final(self).market_order_receive_latency == old(self).market_order_receive_latency,
            final(self).limit_order_submit_latency == old(self).limit_order_submit_latency,
            final(self).limit_order_receive_latency == old(self).limit_order_receive_latency,
    {
        let ghost s = self.pending_limit_orders@;
        let mut kept: Vec<Order> = Vec::new();
        let mut fills: Vec<Order> = Vec::new();
        let mut i: usize = 0;
        while i < self.pending_limit_orders.len()
            invariant
                self.pending_limit_orders@ == s,
                i <= s.len(),
                kept@ == kept_limit(s.subrange(0, i as int), *t),
                fills@ == filled_limit(s.subrange(0, i as int), *t),
            decreases s.len() - i,
        {
            let mut o = self.pending_limit_orders[i].duplicate();
            proof {
                let pre = s.subrange(0, i as int + 1);
                assert(pre.drop_last() =~= s.subrange(0, i as int));
                assert(pre.last() == o);
            }
            let crosses = (o.side > 0 && t.side < 0 && t.price <= o.price) || (o.side < 0 && t.side
                > 0 && o.price <= t.price);
            if o.sym == t.sym && o.venue == t.venue && o.market_created_timestamp
                < t.market_created_timestamp && crosses {
                o.executed_price = Some(Quote::Price(o.price));
                o.executed_amount = o.amount;
                o.received_timestamp = t.timestamp;
                o.order_status = OrderStatus::Filled;
                fills.push(o);
            } else {
                kept.push(o);
            }
            i = i + 1;
        }
        assert(s.subrange(0, s.len() as int) =~= s);
        self.pending_limit_orders = kept;
        fills
    }

    /// Create a new order with the next order id, hold it as pending (market or limit by its
    /// type) and return a copy.
    pub fn submit_order(
        &mut self,
        timestamp: i128,
        sym: &str,
        side: i16,
        price: i64,
        amount: u64,
        order_type: OrderType,
        model_id: &str,
    ) -> (r: Order)
        requires
            old(self).wf(),
            old(self).next_id() < u64::MAX,
        ensures
            final(self).wf(),
            r.order_id == old(self).next_id(),
            forall|i: int|
                0 <= i < old(self).pending_market().len() ==> old(self).pending_market()[i].order_id
                    != r.order_id,
            forall|i: int|
                0 <= i < old(self).pending_limit().len() ==> old(self).pending_limit()[i].order_id
                    != r.order_id,
            forall|i: int|
                0 <= i < old(self).filled().len() ==> old(self).filled()[i].order_id != r.order_id,
            r.timestamp == timestamp,
            r.market_created_timestamp == timestamp,
            r.received_timestamp == timestamp,
            r.sym@ == sym@,
            r.side == side,
            r.price == price,
            r.amount == amount,
            r.executed_amount == 0,
            r.order_type == order_type,
            r.order_status == OrderStatus::New,
            r.venue == old(self).venue_name(),
            r.model_id@ == model_id@,
            final(self).next_id() == old(self).next_id() + 1,
            order_type is Market ==> final(self).pending_market() == old(self).pending_market().push(
                r,
            ) && final(self).pending_limit() == old(self).pending_limit(),
            order_type is Limit ==> final(self).pending_limit() == old(self).pending_limit().push(r)
                && final(self).pending_market() == old(self).pending_market(),
            final(self).filled() == old(self).filled(),
            final(self).venue_name() == old(self).venue_name(),
            final(self).last_bid() == old(self).last_bid(),
            final(self).last_ask() == old(self).last_ask(),
            final(self).market_submit_latency() == old(self).market_submit_latency(),
            final(self).market_receive_latency() == old(self).market_receive_latency(),
            final(self).limit_submit_latency() == old(self).limit_submit_latency(),
            final(self).limit_receive_latency() == old(self).limit_receive_latency(),
    {
        let is_market = match order_type {
            OrderType::Market(_) => true,
            OrderType::Limit(_) => false,
        };
        let o = Order::new(
            timestamp,
            sym,
            side,
            price,
            amount,
            order_type,
            self.venue.as_str(),
            model_id,
            self.next_order_id,
            &self.identity,
        );
        let ghost v = self.venue;
        assert(o.venue@ == v@);
        let mut fixed = o;
        fixed.venue = self.venue.clone();
        let ghost pm = self.pending_market_orders@;
        let ghost pl = self.pending_limit_orders@;
        let ghost fl = self.filled_orders@;
        let ghost n = self.next_order_id as int;
        if is_market {
            self.pending_market_orders.push(fixed.duplicate());
            proof {
                lemma_push_ids(pm, fixed, pl, fl, n);
            }
        } else {
            self.pending_limit_orders.push(fixed.duplicate());
            proof {
                lemma_push_ids(pl, fixed, pm, fl, n);
                lemma_disjoint_sym(pl.push(fixed), pm);
            }
        }
        self.next_order_id = self.next_order_id + 1;
        fixed
    }

    /// Cancel a pending limit order: it leaves the pending set, stamped Canceled at
    /// `timestamp` with the submit and receive latencies applied. An unknown id is an error
    /// and changes nothing.
    pub fn cancel_order(&mut self, timestamp: i128, order_id: u64) -> (r: Result<
        Order,
        OrderError,
    >)
        requires
            old(self).wf(),
        ensures
            final(self).wf(),
            final(self).same_settings(old(self)),
            final(self).pending_market() == old(self).pending_market(),
            final(self).filled() == old(self).filled(),
            r is Err <==> first_with_id(old(self).pending_limit(), order_id) is None,
            r is Err ==> r == Err::<Order, OrderError>(OrderError::NotFound(order_id))
                && final(self).pending_limit() == old(self).pending_limit(),
            r matches Ok(o) ==> exists|i: int|
                first_index_of(old(self).pending_limit(), order_id, i) && final(self).pending_limit()
                    == old(self).pending_limit().remove(i) && o == canceled(
                    old(self).pending_limit()[i],
                    timestamp,
                    old(self).market_submit_latency(),
                    old(self).market_receive_latency(),
                ),
    {
        let ghost s = self.pending_limit_orders@;
        assert(s.subrange(0, s.len() as int) =~= s);
        let mut i: usize = 0;
        while i < self.pending_limit_orders.len()
            invariant
                *self == *old(self),
                old(self).wf(),
                self.pending_limit_orders@ == s,
                i <= s.len(),
                forall|j: int| 0 <= j < i ==> s[j].order_id != order_id,
                first_with_id(s, order_id) == first_with_id(s.subrange(i as int, s.len() as int), order_id),
            decreases s.len() - i,
        {
            proof {
                let rest = s.subrange(i as int, s.len() as int);
                assert(rest.drop_first() =~= s.subrange(i as int + 1, s.len() as int));
                assert(rest[0] == s[i as int]);
            }
            if self.pending_limit_orders[i].order_id == order_id {
                let mut o = self.pending_limit_orders.remove(i);
                o.order_status = OrderStatus::Canceled;
                o.timestamp = timestamp;
                o.market_created_timestamp = add_latency_exec(
                    timestamp,
                    self.market_order_submit_latency,
                );
                o.received_timestamp = add_latency_exec(
                    o.market_created_timestamp,
                    self.market_order_receive_latency,
                );
                assert(first_index_of(s, order_id, i as int));
                proof {
                    lemma_remove_ids(
                        s,
                        i as int,
                        old(self).pending_market(),
                        old(self).filled(),
                        old(self).next_id() as int,
                    );
                    lemma_disjoint_sym(old(self).pending_market(), s);
                    lemma_disjoint_sym(s.remove(i as int), old(self).pending_market());
                }
                return Ok(o);
            }
            i = i + 1;
        }
        proof {
            assert(s.subrange(s.len() as int, s.len() as int).len() == 0);
        }
        Err(OrderError::NotFound(order_id))
    }

    /// The pending order with this id: pending limit orders are searched first, then pending
    /// market orders. Filled and canceled orders are no longer pending.
    pub fn get_order_status(&self, order_id: u64) -> (r: Option<Order>)
        ensures
            r == (match first_with_id(self.pending_limit(), order_id) {
                Some(o) => Some(o),
                None => first_with_id(self.pending_market(), order_id),
            }),
    {
        match find_by_id(&self.pending_limit_orders, order_id) {
            Some(o) => Some(o),
            None => find_by_id(&self.pending_market_orders, order_id),
        }
    }

    /// A flat position for this engine's venue.
    pub fn get_positions(&self) -> (r: Position)
        ensures
            r.sym@ == "BTCUSD"@,
            r.model_id@ == "backtest"@,
            r.amount == 0,
            r.cost == 0,
            r.venue@ == self.venue_name()@,
    {
        Position::new("BTCUSD", self.venue.as_str(), "backtest", &self.identity)
    }
}

fn append_all(dst: &mut Vec<Order>, src: &Vec<Order>)
    ensures
        final(dst)@ == old(dst)@ + src@,
{
    let mut i: usize = 0;
    while i < src.len()
        invariant
            i <= src@.len(),
            dst@ == old(dst)@ + src@.subrange(0, i as int),
        decreases src@.len() - i,
    {
        dst.push(src[i].duplicate());
        i = i + 1;
    }
    assert(src@.subrange(0, src@.len() as int) =~= src@);
}

fn find_by_id(s: &Vec<Order>, order_id: u64) -> (r: Option<Order>)
    ensures
        r == first_with_id(s@, order_id),
{
    assert(s@.subrange(0, s@.len() as int) =~= s@);
    let mut i: usize = 0;
    while i < s.len()
        invariant
            i <= s@.len(),
            first_with_id(s@, order_id) == first_with_id(
                s@.subrange(i as int, s@.len() as int),
                order_id,
            ),
        decreases s@.len() - i,
    {
        proof {
            let rest = s@.subrange(i as int, s@.len() as int);
            assert(rest.drop_first() =~= s@.subrange(i as int + 1, s@.len() as int));
            assert(rest[0] == s@[i as int]);
        }
        if s[i].order_id == order_id {
            return Some(s[i].duplicate());
        }
        i = i + 1;
    }
    None
}

impl ExecutionClient for BacktestClient {
    open spec fn ready(&self) -> bool {
        self.wf()
    }

    open spec fn can_submit(&self) -> bool {
        self.next_id() < u64::MAX
    }

    fn submit_order(
        &mut self,
        timestamp: i128,
        sym: &str,
        side: i16,
        price: i64,
        amount: u64,
        order_type: OrderType,
        model_id: &str,
    ) -> Order {
        BacktestClient::submit_order(self, timestamp, sym, side, price, amount, order_type, model_id)
    }

    fn cancel_order(&mut self, timestamp: i128, order_id: u64) -> Result<Order, OrderError> {
        BacktestClient::cancel_order(self, timestamp, order_id)
    }

    fn get_order_status(&self, order_id: u64) -> Option<Order> {
        BacktestClient::get_order_status(self, order_id)
    }

    fn get_positions(&self) -> Position {
        BacktestClient::get_positions(self)
    }
}

} // verus!
