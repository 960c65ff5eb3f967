use vstd::prelude::*;

verus! {

/// Minimum spacing between two written books of one instrument, in nanoseconds.
pub const BOOK_THROTTLE_NANOS: i128 = 100_000_000;

/// When a book of `sym` was last written; zero if never.
pub open spec fn last_written(m: Map<Seq<char>, i128>, sym: Seq<char>) -> int {
    if m.contains_key(sym) {
        m[sym] as int
    } else {
        0
    }
}

/// Whether a book of `sym` seen at `now` gets written.
pub open spec fn writes_book(m: Map<Seq<char>, i128>, sym: Seq<char>, now: i128) -> bool {
    now - last_written(m, sym) > BOOK_THROTTLE_NANOS
}

struct Stamp {
    sym: String,
    at: i128,
}

/// Per-instrument rate limit for book records: at most one per instrument per interval.
pub struct BookThrottle {
    stamps: Vec<Stamp>,
    seen: Ghost<Map<Seq<char>, i128>>,
}

impl View for BookThrottle {
    type V = Map<Seq<char>, i128>;

    closed spec fn view(&self) -> Map<Seq<char>, i128> {
        self.seen@
    }
}

impl BookThrottle {
    pub closed spec fn wf(&self) -> bool {
        &&& forall|i: int, j: int|
            0 <= i < j < self.stamps@.len() ==> self.stamps@[i].sym@ != self.stamps@[j].sym@
        &&& forall|i: int|
            0 <= i < self.stamps@.len() ==> self.seen@.contains_key(
                (#[trigger] self.stamps@[i]).sym@,
            ) && self.seen@[self.stamps@[i].sym@] == self.stamps@[i].at
        &&& forall|k: Seq<char>|
            self.seen@.contains_key(k) ==> exists|i: int|
                0 <= i < self.stamps@.len() && (#[trigger] self.stamps@[i]).sym@ == k
    }

    pub fn new() -> (r: BookThrottle)
        ensures
            r.wf(),
            r@ == Map::<Seq<char>, i128>::empty(),
    {
        BookThrottle { stamps: Vec::new(), seen: Ghost(Map::empty()) }
    }

    /// Whether a book of `sym` seen at `now` (nanoseconds) is written; if so, `now` becomes
    /// the instrument's last write.
    pub fn should_write(&mut self, sym: &String, now: i128) -> (r: bool)
        requires
            old(self).wf(),
        ensures
            final(self).wf(),
            r == writes_book(old(self)@, sym@, now),
            final(self)@ == if r {
                old(self)@.insert(sym@, now)
            } else {
                old(self)@
            },
    {
        let mut i: usize = 0;
        while i < self.stamps.len()
            invariant
                self.wf(),
                *self == *old(self),
                i <= self.stamps@.len(),
                forall|k: int| 0 <= k < i ==> self.stamps@[k].sym@ != sym@,
            decreases self.stamps@.len() - i,
        {
            if self.stamps[i].sym == *sym {
                let last = self.stamps[i].at;
                assert(last_written(self.seen@, sym@) == last);
                let ok = if last > i128::MAX - BOOK_THROTTLE_NANOS {
                    false
                } else {
                    now > last + BOOK_THROTTLE_NANOS
                };
                if ok {
                    let ghost old_stamps = self.stamps@;
                    self.stamps.set(i, Stamp { sym: sym.clone(), at: now });
                    self.seen = Ghost(self.seen@.insert(sym@, now));
                    assert forall|j: int| 0 <= j < self.stamps@.len() implies self.seen@.contains_key(
                        (#[trigger] self.stamps@[j]).sym@,
                    ) && self.seen@[self.stamps@[j].sym@] == self.stamps@[j].at by {
                        if j != i {
                            assert(old_stamps[j].sym@ != old_stamps[i as int].sym@);
                        }
                    }
                    assert forall|q: Seq<char>| self.seen@.contains_key(q) implies exists|j: int|
                        0 <= j < self.stamps@.len() && (#[trigger] self.stamps@[j]).sym@ == q by {
                        if q == sym@ {
                            assert(self.stamps@[i as int].sym@ == q);
                        } else {
                            let j = choose|j: int|
                                0 <= j < old_stamps.len() && (#[trigger] old_stamps[j]).sym@ == q;
                            assert(self.stamps@[j].sym@ == q);
                        }
                    }
                }
                return ok;
            }
            i = i + 1;
        }
        proof {
            if self.seen@.contains_key(sym@) {
                let k = choose|k: int|
                    0 <= k < self.stamps@.len() && (#[trigger] self.stamps@[k]).sym@ == sym@;
                assert(self.stamps@[k].sym@ == sym@);
            }
        }
        let ok = now > BOOK_THROTTLE_NANOS;
        if ok {
            let ghost old_stamps = self.stamps@;
            let ghost n = old_stamps.len() as int;
            self.stamps.push(Stamp { sym: sym.clone(), at: now });
            self.seen = Ghost(self.seen@.insert(sym@, now));
            assert forall|a: int, b: int|
                0 <= a < b < self.stamps@.len() implies self.stamps@[a].sym@
                != self.stamps@[b].sym@ by {
                if b == n {
                    assert(old_stamps[a] == self.stamps@[a]);
                }
            }
            assert forall|j: int| 0 <= j < self.stamps@.len() implies self.seen@.contains_key(
                (#[trigger] self.stamps@[j]).sym@,
            ) && self.seen@[self.stamps@[j].sym@] == self.stamps@[j].at by {
                if j < n {
                    assert(old_stamps[j] == self.stamps@[j]);
                }
            }
            assert forall|q: Seq<char>| self.seen@.contains_key(q) implies exists|j: int|
                0 <= j < self.stamps@.len() && (#[trigger] self.stamps@[j]).sym@ == q by {
                if q == sym@ {
                    assert(self.stamps@[n].sym@ == q);
                } else {
                    let j = choose|j: int|
                        0 <= j < old_stamps.len() && (#[trigger] old_stamps[j]).sym@ == q;
                    assert(self.stamps@[j] == old_stamps[j]);
                }
            }
        }
        ok
    }
}

} // verus!
