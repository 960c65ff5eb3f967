use std::collections::BTreeMap;
use vstd::laws_cmp::obeys_cmp;
use vstd::prelude::*;
use vstd::std_specs::btree::{increasing_seq, key_obeys_cmp_spec, spec_btree_map_iter};
use vstd::std_specs::cmp::OrdSpec;
use vstd::std_specs::iter::IteratorSpec;

verus! {

broadcast use vstd::std_specs::btree::group_btree_axioms;

/// Prices are fixed-point: this many units make one unit of the quote currency.
pub const PRICE_SCALE: i64 = 100_000_000;

/// Sizes are fixed-point: this many units make one unit of the traded asset.
pub const SIZE_SCALE: u64 = 100_000_000;

/// One price level: a fixed-point price and the quantity resting at it.
#[derive(Clone, Copy, Debug, PartialEq, Eq, Structural)]
pub struct PriceLevel {
    pub price: i64,
    pub size: u64,
}

/// Prices strictly increase along the sequence.
pub open spec fn strictly_sorted(s: Seq<PriceLevel>) -> bool {
    forall|i: int, j: int| 0 <= i < j < s.len() ==> s[i].price < s[j].price
}

/// No level in the sequence has size zero.
pub open spec fn all_positive(s: Seq<PriceLevel>) -> bool {
    forall|i: int| 0 <= i < s.len() ==> s[i].size > 0
}

/// The price -> size map that a list of levels describes, later entries winning.
pub open spec fn levels_map(s: Seq<PriceLevel>) -> Map<i64, u64>
    decreases s.len(),
{
    if s.len() == 0 {
        Map::empty()
    } else {
        levels_map(s.drop_last()).insert(s.last().price, s.last().size)
    }
}

/// A map in which no stored entry has size zero.
pub open spec fn no_zero_sizes(m: Map<i64, u64>) -> bool {
    forall|p: i64| m.contains_key(p) ==> m[p] > 0
}

/// Upsert one level: size zero removes the price, any other size overwrites it.
pub open spec fn upsert_level(m: Map<i64, u64>, l: PriceLevel) -> Map<i64, u64> {
    if l.size == 0 {
        m.remove(l.price)
    } else {
        m.insert(l.price, l.size)
    }
}

/// Apply a delta list to a map, level by level in list order.
pub open spec fn apply_levels(m: Map<i64, u64>, s: Seq<PriceLevel>) -> Map<i64, u64>
    decreases s.len(),
{
    if s.len() == 0 {
        m
    } else {
        upsert_level(apply_levels(m, s.drop_last()), s.last())
    }
}

/// The map a snapshot list describes: zero-size entries are dropped, not inserted.
pub open spec fn snapshot_levels(s: Seq<PriceLevel>) -> Map<i64, u64>
    decreases s.len(),
{
    if s.len() == 0 {
        Map::empty()
    } else if s.last().size == 0 {
        snapshot_levels(s.drop_last())
    } else {
        snapshot_levels(s.drop_last()).insert(s.last().price, s.last().size)
    }
}

/// `p` is the largest key of `m`.
pub open spec fn is_max_key(m: Map<i64, u64>, p: i64) -> bool {
    m.contains_key(p) && forall|k: i64| m.contains_key(k) ==> k <= p
}

/// `p` is the smallest key of `m`.
pub open spec fn is_min_key(m: Map<i64, u64>, p: i64) -> bool {
    m.contains_key(p) && forall|k: i64| m.contains_key(k) ==> p <= k
}

proof fn lemma_levels_map_index(s: Seq<PriceLevel>)
    requires
        strictly_sorted(s),
    ensures
        forall|p: i64|
            levels_map(s).contains_key(p) <==> exists|i: int| 0 <= i < s.len() && s[i].price == p,
        forall|i: int| 0 <= i < s.len() ==> #[trigger] levels_map(s)[s[i].price] == s[i].size,
    decreases s.len(),
{
    if s.len() > 0 {
        let t = s.drop_last();
        lemma_levels_map_index(t);
        assert(levels_map(s) == levels_map(t).insert(s.last().price, s.last().size));
        assert forall|p: i64|
            levels_map(s).contains_key(p) <==> exists|i: int|
                0 <= i < s.len() && s[i].price == p by {
            if levels_map(s).contains_key(p) {
                if p == s.last().price {
                    assert(s[s.len() - 1].price == p);
                } else {
                    let i = choose|i: int| 0 <= i < t.len() && t[i].price == p;
                    assert(s[i].price == p);
                }
            }
            if exists|i: int| 0 <= i < s.len() && s[i].price == p {
                let i = choose|i: int| 0 <= i < s.len() && s[i].price == p;
                if i < s.len() - 1 {
                    assert(t[i].price == p);
                }
            }
        }
        assert forall|i: int| 0 <= i < s.len() implies #[trigger] levels_map(s)[s[i].price]
            == s[i].size by {
            if i < s.len() - 1 {
                assert(t[i] == s[i]);
                assert(s[i].price < s[s.len() - 1].price);
            }
        }
    }
}

/// Two strictly sorted lists with the same index characterisation describe the same map.
proof fn lemma_levels_map_ext(s: Seq<PriceLevel>, m: Map<i64, u64>)
    requires
        strictly_sorted(s),
        forall|p: i64| m.contains_key(p) <==> exists|i: int| 0 <= i < s.len() && s[i].price == p,
        forall|i: int| 0 <= i < s.len() ==> #[trigger] m[s[i].price] == s[i].size,
    ensures
        levels_map(s) == m,
{
    lemma_levels_map_index(s);
    assert forall|p: i64| #[trigger] levels_map(s).contains_key(p) implies levels_map(s)[p]
        == m[p] by {
        let i = choose|i: int| 0 <= i < s.len() && s[i].price == p;
    }
    assert(levels_map(s) =~= m);
}

proof fn lemma_dom_len_of(s: Seq<PriceLevel>)
    requires
        strictly_sorted(s),
    ensures
        levels_map(s).dom().len() == s.len(),
        levels_map(s).dom().finite(),
    decreases s.len(),
{
    if s.len() > 0 {
        let t = s.drop_last();
        lemma_dom_len_of(t);
        lemma_levels_map_index(t);
        if levels_map(t).contains_key(s.last().price) {
            let i = choose|i: int| 0 <= i < t.len() && t[i].price == s.last().price;
            assert(s[i].price < s[s.len() - 1].price);
        }
    }
}

/// The levels of `m` in increasing price order.
fn sorted_levels(m: &BTreeMap<i64, u64>) -> (r: Vec<PriceLevel>)
    ensures
        strictly_sorted(r@),
        levels_map(r@) == m@,
{
    broadcast use vstd::laws_cmp::group_laws_cmp;

    let mut out: Vec<PriceLevel> = Vec::new();
    let ghost sq = spec_btree_map_iter(m).remaining();
    for kv in it: m.iter()
        invariant
            it.seq() == sq,
            out@.len() == it.index(),
            forall|j: int|
                0 <= j < it.index() ==> out@[j].price == *it.seq()[j].0 && out@[j].size
                    == *it.seq()[j].1,
    {
        out.push(PriceLevel { price: *kv.0, size: *kv.1 });
    }
    proof {
        assert(obeys_cmp::<i64>());
        assert(key_obeys_cmp_spec::<i64>());
        let ks = sq.map_values(|kv: (&i64, &u64)| *kv.0);
        assert(increasing_seq(ks));
        assert forall|i: int, j: int| 0 <= i < j < out@.len() implies out@[i].price
            < out@[j].price by {
            assert(ks[i].cmp_spec(&ks[j]) is Less);
            assert(ks[i] == out@[i].price && ks[j] == out@[j].price);
        }
        assert forall|i: int| 0 <= i < out@.len() implies #[trigger] m@[out@[i].price]
            == out@[i].size by {}
        assert forall|p: i64| m@.contains_key(p) <==> exists|i: int|
            0 <= i < out@.len() && out@[i].price == p by {
            if exists|i: int| 0 <= i < out@.len() && out@[i].price == p {
                let i = choose|i: int| 0 <= i < out@.len() && out@[i].price == p;
                assert(m@.contains_key(out@[i].price));
            }
        }
        lemma_levels_map_ext(out@, m@);
    }
    out
}

/// One side of an order book: a price -> size map that never stores size zero.
pub struct Ladder {
    map: BTreeMap<i64, u64>,
}

impl View for Ladder {
    type V = Map<i64, u64>;

    closed spec fn view(&self) -> Map<i64, u64> {
        self.map@
    }
}

impl Ladder {
    /// Well-formedness: no stored size is zero.
    pub closed spec fn wf(&self) -> bool {
        no_zero_sizes(self.map@)
    }

    pub fn new() -> (r: Ladder)
        ensures
            r.wf(),
            r@ == Map::<i64, u64>::empty(),
    {
        Ladder { map: BTreeMap::new() }
    }

    /// Number of stored price levels.
    pub fn len(&self) -> (r: usize)
        requires
            self.wf(),
        ensures
            r == self@.dom().len(),
    {
        let v = sorted_levels(&self.map);
        proof {
            lemma_dom_len_of(v@);
        }
        v.len()
    }

    /// The size stored at `price`, if any.
    pub fn get(&self, price: i64) -> (r: Option<u64>)
        requires
            self.wf(),
        ensures
            r == (if self@.contains_key(price) {
                Some(self@[price])
            } else {
                None::<u64>
            }),
    {
        broadcast use vstd::laws_cmp::group_laws_cmp;

        assert(obeys_cmp::<i64>());
        match self.map.get(&price) {
            Some(v) => Some(*v),
            None => None,
        }
    }

    /// Upsert one level: size zero removes the price level, any other size overwrites it.
    pub fn upsert(&mut self, price: i64, size: u64)
        requires
            old(self).wf(),
        ensures
            final(self).wf(),
            final(self)@ == upsert_level(old(self)@, PriceLevel { price, size }),
    {
        broadcast use vstd::laws_cmp::group_laws_cmp;

        assert(obeys_cmp::<i64>());
        if size == 0 {
            self.map.remove(&price);
        } else {
            self.map.insert(price, size);
        }
    }

    /// The largest stored price, if any.
    pub fn max_price(&self) -> (r: Option<i64>)
        requires
            self.wf(),
        ensures
            r is None <==> self@.dom().is_empty(),
            r matches Some(p) ==> is_max_key(self@, p),
    {
        let v = sorted_levels(&self.map);
        proof {
            lemma_levels_map_index(v@);
        }
        let n = v.len();
        if n == 0 {
            assert(self@.dom() =~= Set::<i64>::empty());
            None
        } else {
            let p = v[n - 1].price;
            assert(self@.contains_key(p));
            assert forall|k: i64| self@.contains_key(k) implies k <= p by {
                let i = choose|i: int| 0 <= i < n && v@[i].price == k;
                if i < n - 1 {
                    assert(v@[i].price < v@[n - 1].price);
                }
            }
            Some(p)
        }
    }

    /// The smallest stored price, if any.
    pub fn min_price(&self) -> (r: Option<i64>)
        requires
            self.wf(),
        ensures
            r is None <==> self@.dom().is_empty(),
            r matches Some(p) ==> is_min_key(self@, p),
    {
        let v = sorted_levels(&self.map);
        proof {
            lemma_levels_map_index(v@);
        }
        let n = v.len();
        if n == 0 {
            assert(self@.dom() =~= Set::<i64>::empty());
            None
        } else {
            let p = v[0].price;
            assert(self@.contains_key(p));
            assert forall|k: i64| self@.contains_key(k) implies p <= k by {
                let i = choose|i: int| 0 <= i < n && v@[i].price == k;
                if i > 0 {
                    assert(v@[0].price < v@[i].price);
                }
            }
            Some(p)
        }
    }

    /// The stored levels in ascending price order.
    pub fn levels(&self) -> (r: Vec<PriceLevel>)
        requires
            self.wf(),
        ensures
            strictly_sorted(r@),
            all_positive(r@),
            levels_map(r@) == self@,
    {
        let v = sorted_levels(&self.map);
        proof {
            lemma_levels_map_index(v@);
            assert forall|i: int| 0 <= i < v@.len() implies v@[i].size > 0 by {
                assert(self@.contains_key(v@[i].price));
            }
        }
        v
    }

    /// An owned copy with the same levels.
    pub fn duplicate(&self) -> (r: Ladder)
        requires
            self.wf(),
        ensures
            r.wf(),
            r@ == self@,
    {
        Ladder { map: self.map.clone() }
    }

    /// Apply a delta list in order: each level upserts, size zero removes.
    pub fn apply_delta(&mut self, delta: &Vec<PriceLevel>)
        requires
            old(self).wf(),
        ensures
            final(self).wf(),
            final(self)@ == apply_levels(old(self)@, delta@),
            no_zero_sizes(final(self)@),
    {
        let ghost m0 = self@;
        let mut i: usize = 0;
        while i < delta.len()
            invariant
                self.wf(),
                i <= delta@.len(),
                self@ == apply_levels(m0, delta@.subrange(0, i as int)),
            decreases delta@.len() - i,
        {
            let l = delta[i];
            self.upsert(l.price, l.size);
            proof {
                let pre = delta@.subrange(0, i as int + 1);
                assert(pre.drop_last() =~= delta@.subrange(0, i as int));
                assert(pre.last() == l);
            }
            i = i + 1;
        }
        assert(delta@.subrange(0, delta@.len() as int) =~= delta@);
    }

    /// Build a ladder from a snapshot list; zero-size entries are dropped, not inserted.
    pub fn from_snapshot(levels: &Vec<PriceLevel>) -> (r: Ladder)
        ensures
            r.wf(),
            r@ == snapshot_levels(levels@),
            no_zero_sizes(r@),
    {
        let mut lad = Ladder::new();
        let mut i: usize = 0;
        while i < levels.len()
            invariant
                lad.wf(),
                i <= levels@.len(),
                lad@ == snapshot_levels(levels@.subrange(0, i as int)),
            decreases levels@.len() - i,
        {
            let l = levels[i];
            if l.size != 0 {
                lad.upsert(l.price, l.size);
            }
            proof {
                let pre = levels@.subrange(0, i as int + 1);
                assert(pre.drop_last() =~= levels@.subrange(0, i as int));
                assert(pre.last() == l);
            }
            i = i + 1;
        }
        assert(levels@.subrange(0, levels@.len() as int) =~= levels@);
        lad
    }
}

/// Upserting the same level twice leaves the ladder as upserting it once.
pub proof fn lemma_upsert_idempotent(m: Map<i64, u64>, l: PriceLevel)
    ensures
        upsert_level(upsert_level(m, l), l) == upsert_level(m, l),
{
    if l.size == 0 {
        assert(m.remove(l.price).remove(l.price) =~= m.remove(l.price));
    } else {
        assert(m.insert(l.price, l.size).insert(l.price, l.size) =~= m.insert(l.price, l.size));
    }
}

/// Applying a one-level delta twice gives the same ladder as applying it once.
pub proof fn lemma_apply_delta_idempotent(m: Map<i64, u64>, price: i64, size: u64)
    requires
        size > 0,
    ensures
        apply_levels(apply_levels(m, seq![PriceLevel { price, size }]), seq![PriceLevel { price, size }])
            == apply_levels(m, seq![PriceLevel { price, size }]),
{
    let d = seq![PriceLevel { price, size }];
    assert(d.drop_last() =~= Seq::<PriceLevel>::empty());
    reveal_with_fuel(apply_levels, 2);
    lemma_upsert_idempotent(m, d.last());
}

/// Every ladder that the snapshot or delta operations produce stores no size-zero entry.
pub proof fn lemma_ladder_no_zero_sizes(l: &Ladder)
    requires
        l.wf(),
    ensures
        no_zero_sizes(l@),
{
}

} // verus!
