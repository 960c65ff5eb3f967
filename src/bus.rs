use vstd::prelude::*;

use crate::marketdata::MarketData;

verus! {

/// A consumer of normalized market events.
pub trait EventSink {
    /// The events this sink has taken so far, in order (as copies). A verified sink defines
    /// it from its own state; the default only serves sinks written outside verified code.
    open spec fn received(&self) -> Seq<MarketData> {
        Seq::empty()
    }

    /// Take one event: it is appended to what the sink has taken.
    fn accept(&mut self, event: &MarketData)
        requires
            event.wf(),
        ensures
            final(self).received().len() == old(self).received().len() + 1,
            final(self).received().drop_last() == old(self).received(),
            final(self).received().last().same_as(event),
    ;
}

/// `after` is `before` followed by one copy of each of `events`, in order.
pub open spec fn took_in_order(
    before: Seq<MarketData>,
    after: Seq<MarketData>,
    events: Seq<MarketData>,
) -> bool {
    &&& after.len() == before.len() + events.len()
    &&& after.subrange(0, before.len() as int) == before
    &&& forall|k: int|
        0 <= k < events.len() ==> #[trigger] after[before.len() + k].same_as(&events[k])
}

/// A sink that keeps a copy of every event it accepts.
pub struct Recorder {
    events: Vec<MarketData>,
}

impl Recorder {
    /// Number of events accepted so far.
    pub open spec fn count(&self) -> nat {
        self.received().len()
    }

    pub fn new() -> (r: Recorder)
        ensures
            r.count() == 0,
    {
        Recorder { events: Vec::new() }
    }

    /// Number of events accepted so far.
    pub fn len(&self) -> (r: usize)
        ensures
            r == self.count(),
    {
        self.events.len()
    }

    /// The copy of the `i`-th accepted event.
    pub fn get(&self, i: usize) -> (r: &MarketData)
        requires
            i < self.count(),
        ensures
            *r == self.received()[i as int],
    {
        &self.events[i]
    }
}

impl EventSink for Recorder {
    closed spec fn received(&self) -> Seq<MarketData> {
        self.events@
    }

    fn accept(&mut self, event: &MarketData) {
        let ghost before = self.events@;
        self.events.push(event.duplicate());
        assert(self.events@.drop_last() =~= before);
    }
}

/// Ordered, synchronous fan-out of each event to every registered sink.
pub struct FanOut<S: EventSink> {
    sinks: Vec<S>,
}

impl<S: EventSink> FanOut<S> {
    /// The registered sinks, in registration order.
    pub closed spec fn sinks(&self) -> Seq<S> {
        self.sinks@
    }

    pub fn new() -> (r: FanOut<S>)
        ensures
            r.sinks().len() == 0,
    {
        FanOut { sinks: Vec::new() }
    }

    /// Register a sink after all the others.
    pub fn add_sink(&mut self, sink: S)
        ensures
            final(self).sinks() == old(self).sinks().push(sink),
    {
        self.sinks.push(sink);
    }

    /// Number of registered sinks.
    pub fn len(&self) -> (r: usize)
        ensures
            r == self.sinks().len(),
    {
        self.sinks.len()
    }

    /// The `i`-th registered sink.
    pub fn sink(&self, i: usize) -> (r: &S)
        requires
            i < self.sinks().len(),
        ensures
            *r == self.sinks()[i as int],
    {
        &self.sinks[i]
    }

    /// Hand one event to every sink, in registration order.
    pub fn publish(&mut self, event: &MarketData)
        requires
            event.wf(),
        ensures
            final(self).sinks().len() == old(self).sinks().len(),
            forall|j: int|
                0 <= j < old(self).sinks().len() ==> took_in_order(
                    old(self).sinks()[j].received(),
                    #[trigger] final(self).sinks()[j].received(),
                    seq![*event],
                ),
    {
        let n = self.sinks.len();
        assert(n == old(self).sinks@.len());
        let mut i: usize = 0;
        while i < n
            invariant
                event.wf(),
                self.sinks@.len() == n,
                i <= n,
                forall|j: int|
                    0 <= j < i ==> took_in_order(
                        old(self).sinks@[j].received(),
                        #[trigger] self.sinks@[j].received(),
                        seq![*event],
                    ),
                forall|j: int| i <= j < n ==> #[trigger] self.sinks@[j] == old(self).sinks@[j],
            decreases n - i,
        {
            let mut s = self.sinks.remove(i);
            s.accept(event);
            self.sinks.insert(i, s);
            proof {
                let a = self.sinks@[i as int].received();
                let b = old(self).sinks@[i as int].received();
                assert(a.subrange(0, b.len() as int) =~= a.drop_last());
                assert(a[b.len() + 0int] == a.last());
            }
            i = i + 1;
        }
    }

    /// Hand each event, in order, to every sink.
    pub fn publish_all(&mut self, events: &Vec<MarketData>)
        requires
            forall|k: int| 0 <= k < events@.len() ==> (#[trigger] events@[k]).wf(),
        ensures
            final(self).sinks().len() == old(self).sinks().len(),
            forall|j: int|
                0 <= j < old(self).sinks().len() ==> took_in_order(
                    old(self).sinks()[j].received(),
                    #[trigger] final(self).sinks()[j].received(),
                    events@,
                ),
    {
        let ghost n = self.sinks@.len();
        assert forall|j: int| 0 <= j < n implies took_in_order(
            old(self).sinks@[j].received(),
            #[trigger] self.sinks@[j].received(),
            events@.subrange(0, 0),
        ) by {
            let r = self.sinks@[j].received();
            assert(r.subrange(0, r.len() as int) =~= r);
        }
        let mut k: usize = 0;
        while k < events.len()
            invariant
                k <= events@.len(),
                forall|m: int| 0 <= m < events@.len() ==> (#[trigger] events@[m]).wf(),
                self.sinks@.len() == n,
                n == old(self).sinks@.len(),
                forall|j: int|
                    0 <= j < n ==> took_in_order(
                        old(self).sinks@[j].received(),
                        #[trigger] self.sinks@[j].received(),
                        events@.subrange(0, k as int),
                    ),
            decreases events@.len() - k,
        {
            let ghost mid = self.sinks@;
            self.publish(&events[k]);
            proof {
                assert forall|j: int| 0 <= j < n implies took_in_order(
                    old(self).sinks@[j].received(),
                    #[trigger] self.sinks@[j].received(),
                    events@.subrange(0, k + 1),
                ) by {
                    let b = old(self).sinks@[j].received();
                    let m = mid[j].received();
                    let a = self.sinks@[j].received();
                    assert(took_in_order(m, a, seq![events@[k as int]]));
                    assert(took_in_order(b, m, events@.subrange(0, k as int)));
                    assert(a.subrange(0, m.len() as int) == m);
                    assert(a.subrange(0, b.len() as int) =~= m.subrange(0, b.len() as int));
                    assert forall|q: int| 0 <= q < k + 1 implies #[trigger] a[b.len() + q].same_as(
                        &events@.subrange(0, k + 1)[q],
                    ) by {
                        if q < k {
                            assert(a[b.len() + q] == m[b.len() + q]);
                            assert(events@.subrange(0, k + 1)[q] == events@.subrange(0, k as int)[q]);
                        } else {
                            assert(a[m.len() + 0int].same_as(&seq![events@[k as int]][0]));
                        }
                    }
                }
            }
            k = k + 1;
        }
        assert(events@.subrange(0, events@.len() as int) =~= events@);
    }
}

} // verus!
