use vstd::prelude::*;

use crate::decimal::Dec;
use crate::ids::{CurrencyPair, ExchangeAccountId, MarketAccountId, MarketId};
use crate::keyed::{ExactKey, KeyedList};

verus! {

/// The side of the book that a ladder holds.
#[derive(Clone, Copy, Debug, PartialEq, Eq, Structural)]
pub enum LadderSide {
    Bid,
    Ask,
}

/// Price levels as exact values, in the order in which they are applied.
pub open spec fn levels_view(levels: Seq<(Dec, Dec)>) -> Seq<(int, int)> {
    levels.map_values(|l: (Dec, Dec)| (l.0.value(), l.1.value()))
}

/// Applies price levels one after another: an amount of zero removes the level,
/// any other amount sets it, so that of two levels with one price the later wins.
pub open spec fn apply_levels_spec(m: Map<int, int>, levels: Seq<(int, int)>) -> Map<int, int>
    decreases levels.len(),
{
    if levels.len() == 0 {
        m
    } else {
        let prev = apply_levels_spec(m, levels.drop_last());
        let (price, amount) = levels.last();
        if amount == 0 {
            prev.remove(price)
        } else {
            prev.insert(price, amount)
        }
    }
}

/// Whether no amount in the levels is negative.
pub open spec fn levels_non_negative(levels: Seq<(Dec, Dec)>) -> bool {
    forall|i: int| 0 <= i < levels.len() ==> (#[trigger] levels[i]).1.value() >= 0
}

/// Whether every level of a ladder has a strictly positive amount.
pub open spec fn all_positive(m: Map<int, int>) -> bool {
    forall|p: int| #[trigger] m.contains_key(p) ==> m[p] > 0
}

/// Applying levels to a ladder: for a price whose last occurrence in the levels is
/// at position `i`, the ladder afterwards lacks that price when the amount there is
/// zero, and maps it to that amount otherwise.
pub proof fn lemma_update_sets_last_level(m: Map<int, int>, levels: Seq<(int, int)>, i: int)
    requires
        0 <= i < levels.len(),
        forall|j: int| i < j < levels.len() ==> (#[trigger] levels[j]).0 != levels[i].0,
    ensures
        levels[i].1 == 0 ==> !apply_levels_spec(m, levels).contains_key(levels[i].0),
        levels[i].1 != 0 ==> apply_levels_spec(m, levels).contains_key(levels[i].0)
            && apply_levels_spec(m, levels)[levels[i].0] == levels[i].1,
    decreases levels.len(),
{
    if i < levels.len() - 1 {
        let init = levels.drop_last();
        assert forall|j: int| i < j < init.len() implies (#[trigger] init[j]).0 != init[i].0 by {
            assert(init[j] == levels[j]);
        }
        lemma_update_sets_last_level(m, init, i);
        assert(levels.last() == levels[levels.len() - 1]);
    }
}

/// Applying levels leaves every price that they do not mention as it was.
pub proof fn lemma_update_keeps_other_levels(m: Map<int, int>, levels: Seq<(int, int)>, p: int)
    requires
        forall|j: int| 0 <= j < levels.len() ==> (#[trigger] levels[j]).0 != p,
    ensures
        apply_levels_spec(m, levels).contains_key(p) == m.contains_key(p),
        m.contains_key(p) ==> apply_levels_spec(m, levels)[p] == m[p],
    decreases levels.len(),
{
    if levels.len() > 0 {
        let init = levels.drop_last();
        assert forall|j: int| 0 <= j < init.len() implies (#[trigger] init[j]).0 != p by {
            assert(init[j] == levels[j]);
        }
        lemma_update_keeps_other_levels(m, init, p);
        assert(levels.last() == levels[levels.len() - 1]);
    }
}

proof fn lemma_apply_positive(m: Map<int, int>, levels: Seq<(int, int)>)
    requires
        all_positive(m),
        forall|j: int| 0 <= j < levels.len() ==> (#[trigger] levels[j]).1 >= 0,
    ensures
        all_positive(apply_levels_spec(m, levels)),
    decreases levels.len(),
{
    if levels.len() > 0 {
        let init = levels.drop_last();
        assert forall|j: int| 0 <= j < init.len() implies (#[trigger] init[j]).1 >= 0 by {
            assert(init[j] == levels[j]);
        }
        lemma_apply_positive(m, init);
        assert(levels.last() == levels[levels.len() - 1]);
    }
}

/// One side of an order book: price levels with strictly positive amounts.
pub struct PriceLadder {
    side: LadderSide,
    levels: KeyedList<Dec, Dec>,
}

impl View for PriceLadder {
    type V = Map<int, int>;

    closed spec fn view(&self) -> Map<int, int> {
        self.levels.map()
    }
}

impl PriceLadder {
    #[verifier::type_invariant]
    spec fn inv(&self) -> bool {
        &&& self.levels.wf()
        &&& all_positive(self.levels.map())
    }

    pub closed spec fn side_spec(&self) -> LadderSide {
        self.side
    }

    pub fn new(side: LadderSide) -> (r: PriceLadder)
        ensures
            r@ == Map::<int, int>::empty(),
            r.side_spec() == side,
    {
        PriceLadder { side, levels: KeyedList::new() }
    }

    pub fn side(&self) -> (r: LadderSide)
        ensures
            r == self.side_spec(),
    {
        self.side
    }

    pub fn len(&self) -> (r: usize)
        ensures
            r == self@.len(),
    {
        proof {
            use_type_invariant(self);
            self.levels.lemma_entries();
            lemma_distinct_keys_len(self.levels.entries(), self.levels.map());
        }
        self.levels.len()
    }

    /// The amount at `price`, if the ladder has that level.
    pub fn get(&self, price: &Dec) -> (r: Option<Dec>)
        ensures
            r is Some <==> self@.contains_key(price.value()),
            r matches Some(a) ==> a.value() == self@[price.value()] && a.value() > 0,
    {
        proof {
            use_type_invariant(self);
        }
        match self.levels.get(price) {
            Some(a) => Some(*a),
            None => None,
        }
    }

    /// Applies the levels in order: an amount of zero removes its price, any
    /// other amount inserts or overwrites it.
    pub fn apply_levels(&mut self, levels: &Vec<(Dec, Dec)>)
        requires
            levels_non_negative(levels@),
        ensures
            final(self)@ == apply_levels_spec(old(self)@, levels_view(levels@)),
            final(self).side_spec() == old(self).side_spec(),
    {
        proof {
            use_type_invariant(&*self);
        }
        let mut list: KeyedList<Dec, Dec> = KeyedList::new();
        std::mem::swap(&mut list, &mut self.levels);
        let ghost start = list.map();
        let mut i: usize = 0;
        while i < levels.len()
            invariant
                list.wf(),
                i <= levels@.len(),
                levels_non_negative(levels@),
                all_positive(start),
                list.map() == apply_levels_spec(start, levels_view(levels@).take(i as int)),
            decreases levels@.len() - i,
        {
            let (price, amount) = levels[i];
            proof {
                assert(levels_view(levels@).take(i + 1).drop_last() =~= levels_view(
                    levels@,
                ).take(i as int));
                assert(levels@[i as int].1.value() >= 0);
            }
            if amount.is_zero() {
                list.remove(&price);
            } else {
                list.insert(price, amount);
            }
            i = i + 1;
        }
        proof {
            assert(levels_view(levels@).take(i as int) =~= levels_view(levels@));
            lemma_apply_positive(start, levels_view(levels@));
        }
        self.levels = list;
    }

    /// The best level: the highest price of a bid ladder, the lowest of an ask ladder.
    pub fn best(&self) -> (r: Option<(Dec, Dec)>)
        ensures
            r is None <==> self@.len() == 0,
            r matches Some(l) ==> self@.contains_key(l.0.value()) && self@[l.0.value()]
                == l.1.value() && forall|p: int| #[trigger]
                self@.contains_key(p) ==> if self.side_spec() == LadderSide::Bid {
                    p <= l.0.value()
                } else {
                    p >= l.0.value()
                },
    {
        proof {
            use_type_invariant(self);
            self.levels.lemma_entries();
            lemma_distinct_keys_len(self.levels.entries(), self.levels.map());
        }
        let n = self.levels.len();
        if n == 0 {
            assert(self@.dom() =~= Set::<int>::empty()) by {
                assert forall|p: int| !self@.contains_key(p) by {
                    if self@.contains_key(p) {
                        let j = choose|j: int|
                            0 <= j < self.levels.entries().len()
                                && #[trigger] self.levels.entries()[j].0 == p;
                    }
                }
            }
            return None;
        }
        let mut best_index: usize = 0;
        let mut i: usize = 1;
        while i < n
            invariant
                self.levels.wf(),
                n == self.levels.entries().len(),
                1 <= i <= n,
                best_index < i,
                forall|j: int|
                    0 <= j < i ==> if self.side == LadderSide::Bid {
                        (#[trigger] self.levels.entries()[j]).0 <= self.levels.entries()[
                            best_index as int].0
                    } else {
                        (#[trigger] self.levels.entries()[j]).0 >= self.levels.entries()[
                            best_index as int].0
                    },
            decreases n - i,
        {
            let p = self.levels.key_at(i);
            let b = self.levels.key_at(best_index);
            let better = match self.side {
                LadderSide::Bid => b.less_than(p),
                LadderSide::Ask => p.less_than(b),
            };
            if better {
                best_index = i;
            }
            i = i + 1;
        }
        let price = *self.levels.key_at(best_index);
        let amount = *self.levels.value_at(best_index);
        proof {
            assert forall|p: int| #[trigger] self@.contains_key(p) implies if self.side_spec()
                == LadderSide::Bid {
                p <= price.value()
            } else {
                p >= price.value()
            } by {
                let j = choose|j: int|
                    0 <= j < self.levels.entries().len() && #[trigger] self.levels.entries()[j].0
                        == p;
                assert(self.levels.entries()[j].0 == p);
            }
        }
        Some((price, amount))
    }

    /// The levels as `(price, amount)` pairs, best first.
    pub fn levels_from_best(&self) -> (r: Vec<(Dec, Dec)>)
        ensures
            r@.len() == self@.len(),
            forall|i: int|
                0 <= i < r@.len() ==> self@.contains_key((#[trigger] r@[i]).0.value())
                    && self@[r@[i].0.value()] == r@[i].1.value(),
            forall|i: int, j: int|
                0 <= i < j < r@.len() ==> if self.side_spec() == LadderSide::Bid {
                    (#[trigger] r@[i]).0.value() > (#[trigger] r@[j]).0.value()
                } else {
                    r@[i].0.value() < r@[j].0.value()
                },
    {
        proof {
            use_type_invariant(self);
            self.levels.lemma_entries();
            lemma_distinct_keys_len(self.levels.entries(), self.levels.map());
        }
        let mut rest = PriceLadder { side: self.side, levels: KeyedList::new() };
        let n = self.levels.len();
        let mut k: usize = 0;
        while k < n
            invariant
                self.levels.wf(),
                n == self.levels.entries().len(),
                k <= n,
                forall|j: int| 0 <= j < k ==> rest@.contains_key(#[trigger] self.levels.entries()[j].0)
                    && rest@[self.levels.entries()[j].0] == self.levels.entries()[j].1,
                forall|p: int| #[trigger] rest@.contains_key(p) ==> self@.contains_key(p) && rest@[p] == self@[p],
                forall|p: int| #[trigger] rest@.contains_key(p) ==> exists|j: int|
                    0 <= j < k && #[trigger] self.levels.entries()[j].0 == p,
                forall|j: int| 0 <= j < n ==> self@.contains_key(#[trigger] self.levels.entries()[j].0)
                    && self@[self.levels.entries()[j].0] == self.levels.entries()[j].1,
                forall|i: int, j: int| 0 <= i < j < n ==> #[trigger] self.levels.entries()[i].0
                    != #[trigger] self.levels.entries()[j].0,
                rest.side_spec() == self.side,
                rest@.dom().finite(),
                all_positive(self@),
                rest@.len() == k,
            decreases n - k,
        {
            let price = *self.levels.key_at(k);
            let amount = *self.levels.value_at(k);
            proof {
                assert(!rest@.contains_key(price.value())) by {
                    if rest@.contains_key(price.value()) {
                        let j = choose|j: int| 0 <= j < k && #[trigger] self.levels.entries()[j].0 == price.value();
                        assert(self.levels.entries()[j].0 != self.levels.entries()[k as int].0);
                    }
                }
                assert(self@.contains_key(price.value()));
            }
            rest.put_level(price, amount);
            k = k + 1;
        }
        proof {
            assert(rest@ =~= self@) by {
                assert forall|p: int| #[trigger] self@.contains_key(p) implies rest@.contains_key(p) by {
                    let j = choose|j: int| 0 <= j < n && #[trigger] self.levels.entries()[j].0 == p;
                }
            }
        }
        let mut out: Vec<(Dec, Dec)> = Vec::new();
        while rest.len() > 0
            invariant
                rest.side_spec() == self.side,
                rest@.dom().finite(),
                out@.len() + rest@.len() == self@.len(),
                forall|p: int| #[trigger] rest@.contains_key(p) ==> self@.contains_key(p) && rest@[p] == self@[p],
                forall|i: int|
                    0 <= i < out@.len() ==> self@.contains_key((#[trigger] out@[i]).0.value())
                        && self@[out@[i].0.value()] == out@[i].1.value(),
                forall|i: int, p: int|
                    0 <= i < out@.len() && #[trigger] rest@.contains_key(p) ==> if self.side
                        == LadderSide::Bid {
                        (#[trigger] out@[i]).0.value() > p
                    } else {
                        out@[i].0.value() < p
                    },
                forall|i: int, j: int|
                    0 <= i < j < out@.len() ==> if self.side == LadderSide::Bid {
                        (#[trigger] out@[i]).0.value() > (#[trigger] out@[j]).0.value()
                    } else {
                        out@[i].0.value() < out@[j].0.value()
                    },
            decreases rest@.len(),
        {
            let top = rest.best();
            match top {
                Some((price, amount)) => {
                    let ghost before = rest@;
                    rest.remove_level(&price);
                    proof {
                        before.lemma_remove_key_len(price.value());
                    }
                    out.push((price, amount));
                },
                None => {
                    assert(false);
                },
            }
        }
        out
    }

    /// Sets one level, to a strictly positive amount.
    fn put_level(&mut self, price: Dec, amount: Dec)
        requires
            amount.value() > 0,
        ensures
            final(self)@ == old(self)@.insert(price.value(), amount.value()),
            final(self).side_spec() == old(self).side_spec(),
    {
        proof {
            use_type_invariant(&*self);
        }
        let mut list: KeyedList<Dec, Dec> = KeyedList::new();
        std::mem::swap(&mut list, &mut self.levels);
        list.insert(price, amount);
        self.levels = list;
    }

    /// Removes the level at `price`, if there is one.
    fn remove_level(&mut self, price: &Dec)
        ensures
            final(self)@ == old(self)@.remove(price.value()),
            final(self).side_spec() == old(self).side_spec(),
    {
        proof {
            use_type_invariant(&*self);
        }
        let mut list: KeyedList<Dec, Dec> = KeyedList::new();
        std::mem::swap(&mut list, &mut self.levels);
        list.remove(price);
        self.levels = list;
    }
}

/// The number of keys of a map whose keys are exactly the distinct keys of a list.
proof fn lemma_distinct_keys_len<V>(s: Seq<(int, V)>, m: Map<int, V>)
    requires
        forall|i: int, j: int| 0 <= i < j < s.len() ==> #[trigger] s[i].0 != #[trigger] s[j].0,
        forall|i: int| 0 <= i < s.len() ==> m.contains_key(#[trigger] s[i].0),
        forall|k: int| #[trigger] m.contains_key(k) ==> exists|i: int| 0 <= i < s.len() && #[trigger] s[i].0 == k,
    ensures
        m.dom().finite(),
        m.len() == s.len(),
    decreases s.len(),
{
    let keys = s.map_values(|e: (int, V)| e.0);
    assert(m.dom() =~= keys.to_set()) by {
        assert forall|k: int| m.contains_key(k) implies keys.to_set().contains(k) by {
            let i = choose|i: int| 0 <= i < s.len() && #[trigger] s[i].0 == k;
            assert(keys[i] == k);
        }
        assert forall|k: int| keys.to_set().contains(k) implies m.contains_key(k) by {
            let i = choose|i: int| 0 <= i < keys.len() && keys[i] == k;
            assert(s[i].0 == k);
        }
    }
    assert(keys.no_duplicates()) by {
        assert forall|i: int, j: int| 0 <= i < keys.len() && 0 <= j < keys.len() && i != j implies keys[i] != keys[j] by {
            if i < j {
                assert(s[i].0 != s[j].0);
            } else {
                assert(s[j].0 != s[i].0);
            }
        }
    }
    keys.unique_seq_to_set();
}

} // verus!
