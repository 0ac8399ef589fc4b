use vstd::prelude::*;

use crate::decimal::{fits, lemma_fits_zero, Dec};
use crate::ids::{CurrencyCode, CurrencyPair, ExchangeAccountId};
use crate::keyed::{ExactKey, KeyedList};

verus! {

/// The key of one leaf: exchange account, currency pair, currency.
pub type LeafKey = (ExchangeAccountId, CurrencyPair, CurrencyCode);

/// A leaf key as values.
pub type LeafView = ((Seq<char>, u8), (Seq<char>, Seq<char>), Seq<char>);

/// The value of a key in a map of amounts, zero where it has none.
pub open spec fn get_or_zero<K>(m: Map<K, int>, k: K) -> int {
    if m.contains_key(k) {
        m[k]
    } else {
        0
    }
}

/// The sum of the leaves of one currency at one account, over all currency pairs.
pub open spec fn currency_sum(
    leaves: Seq<(LeafView, int)>,
    account: (Seq<char>, u8),
    currency: Seq<char>,
) -> int
    decreases leaves.len(),
{
    if leaves.len() == 0 {
        0
    } else {
        let last = leaves.last();
        currency_sum(leaves.drop_last(), account, currency) + if last.0.0 == account && last.0.2
            == currency {
            last.1
        } else {
            0
        }
    }
}

/// Whether every partial sum of `currency_sum`, taken in the order of the leaves,
/// fits in a `Dec`.
pub open spec fn currency_sum_fits(
    leaves: Seq<(LeafView, int)>,
    account: (Seq<char>, u8),
    currency: Seq<char>,
) -> bool {
    forall|i: int|
        0 <= i <= leaves.len() ==> fits(#[trigger] currency_sum(leaves.take(i), account, currency))
}

/// The sum of all leaves.
pub open spec fn leaves_sum(leaves: Seq<(LeafView, int)>) -> int
    decreases leaves.len(),
{
    if leaves.len() == 0 {
        0
    } else {
        leaves_sum(leaves.drop_last()) + leaves.last().1
    }
}

proof fn lemma_currency_sum_update(
    s: Seq<(LeafView, int)>,
    i: int,
    e: (LeafView, int),
    a: (Seq<char>, u8),
    c: Seq<char>,
)
    requires
        0 <= i < s.len(),
    ensures
        currency_sum(s.update(i, e), a, c) == currency_sum(s, a, c) - (if s[i].0.0 == a && s[i].0.2
            == c {
            s[i].1
        } else {
            0
        }) + (if e.0.0 == a && e.0.2 == c {
            e.1
        } else {
            0
        }),
    decreases s.len(),
{
    if i < s.len() - 1 {
        lemma_currency_sum_update(s.drop_last(), i, e, a, c);
        assert(s.update(i, e).drop_last() =~= s.drop_last().update(i, e));
    } else {
        assert(s.update(i, e).drop_last() =~= s.drop_last());
    }
}

/// A hierarchical accumulator of amounts keyed by (exchange account, currency pair,
/// currency). A missing leaf reads as zero; a write creates it.
pub struct ServiceValueTree {
    leaves: KeyedList<LeafKey, Dec>,
}

impl View for ServiceValueTree {
    type V = Map<LeafView, int>;

    closed spec fn view(&self) -> Map<LeafView, int> {
        self.leaves.map()
    }
}

impl ServiceValueTree {
    #[verifier::type_invariant]
    spec fn inv(&self) -> bool {
        self.leaves.wf()
    }

    /// The leaves in the order in which they are walked.
    pub closed spec fn leaf_seq(&self) -> Seq<(LeafView, int)> {
        self.leaves.entries()
    }

    pub fn new() -> (r: ServiceValueTree)
        ensures
            r@ == Map::<LeafView, int>::empty(),
            r.leaf_seq() == Seq::<(LeafView, int)>::empty(),
    {
        ServiceValueTree { leaves: KeyedList::new() }
    }

    pub fn get(&self, key: &LeafKey) -> (r: Dec)
        ensures
            r.value() == get_or_zero(self@, key@),
    {
        proof {
            use_type_invariant(self);
        }
        match self.leaves.get(key) {
            Some(v) => *v,
            None => Dec::zero(),
        }
    }

    /// Whether the leaf exists, whatever its value.
    pub fn contains(&self, key: &LeafKey) -> (r: bool)
        ensures
            r == self@.contains_key(key@),
    {
        proof {
            use_type_invariant(self);
        }
        self.leaves.find(key).is_some()
    }

    pub fn set(&mut self, key: LeafKey, value: Dec)
        ensures
            final(self)@ == old(self)@.insert(key@, value.value()),
            forall|a: (Seq<char>, u8), c: Seq<char>|
                #[trigger] currency_sum(final(self).leaf_seq(), a, c) == currency_sum(
                    old(self).leaf_seq(),
                    a,
                    c,
                ) + if key@.0 == a && key@.2 == c {
                    value.value() - get_or_zero(old(self)@, key@)
                } else {
                    0
                },
    {
        proof {
            use_type_invariant(&*self);
            self.leaves.lemma_entries();
        }
        let ghost old_seq = self.leaves.entries();
        let ghost old_map = self.leaves.map();
        let ghost k = key@;
        let ghost v = value.value();
        let mut list: KeyedList<LeafKey, Dec> = KeyedList::new();
        std::mem::swap(&mut list, &mut self.leaves);
        list.insert(key, value);
        self.leaves = list;
        proof {
            assert forall|a: (Seq<char>, u8), c: Seq<char>|
                #[trigger] currency_sum(self.leaf_seq(), a, c) == currency_sum(old_seq, a, c) + if k.0 == a
                    && k.2 == c {
                    v - get_or_zero(old_map, k)
                } else {
                    0
                } by {
                if old_map.contains_key(k) {
                    let i = choose|i: int|
                        0 <= i < old_seq.len() && old_seq[i].0 == k && self.leaf_seq() == old_seq.update(
                            i,
                            (k, v),
                        );
                    lemma_currency_sum_update(old_seq, i, (k, v), a, c);
                } else {
                    assert(old_seq.push((k, v)).drop_last() =~= old_seq);
                }
            }
        }
    }

    /// Adds `delta` to a leaf. Nothing changes, and `false` comes back, when the
    /// sum does not fit.
    pub fn add_assign(&mut self, key: LeafKey, delta: Dec) -> (r: bool)
        ensures
            r == fits(get_or_zero(old(self)@, key@) + delta.value()),
            r ==> final(self)@ == old(self)@.insert(
                key@,
                get_or_zero(old(self)@, key@) + delta.value(),
            ),
            !r ==> final(self)@ == old(self)@,
    {
        let current = self.get(&key);
        match current.checked_add(delta) {
            Some(v) => {
                self.set(key, v);
                true
            },
            None => false,
        }
    }

    /// Subtracts `delta` from a leaf. Nothing changes, and `false` comes back, when
    /// the difference does not fit.
    pub fn sub_assign(&mut self, key: LeafKey, delta: Dec) -> (r: bool)
        ensures
            r == fits(get_or_zero(old(self)@, key@) - delta.value()),
            r ==> final(self)@ == old(self)@.insert(
                key@,
                get_or_zero(old(self)@, key@) - delta.value(),
            ),
            !r ==> final(self)@ == old(self)@,
    {
        let current = self.get(&key);
        match current.checked_sub(delta) {
            Some(v) => {
                self.set(key, v);
                true
            },
            None => false,
        }
    }

    /// Every leaf as `(account, pair, currency, value)`, in the walking order, which
    /// stays the same while the tree is not changed.
    pub fn leaves(&self) -> (r: Vec<(LeafKey, Dec)>)
        ensures
            r@.len() == self.leaf_seq().len(),
            forall|i: int|
                0 <= i < r@.len() ==> (#[trigger] r@[i]).0@ == self.leaf_seq()[i].0
                    && r@[i].1.value() == self.leaf_seq()[i].1,
            forall|k: LeafView|
                #[trigger] self@.contains_key(k) ==> exists|i: int|
                    0 <= i < self.leaf_seq().len() && #[trigger] self.leaf_seq()[i].0 == k,
            forall|i: int|
                0 <= i < self.leaf_seq().len() ==> #[trigger] self@.contains_key(
                    self.leaf_seq()[i].0,
                ) && self@[self.leaf_seq()[i].0] == self.leaf_seq()[i].1,
    {
        proof {
            use_type_invariant(self);
            self.leaves.lemma_entries();
        }
        let mut out: Vec<(LeafKey, Dec)> = Vec::new();
        let n = self.leaves.len();
        let mut i: usize = 0;
        while i < n
            invariant
                n == self.leaf_seq().len(),
                i <= n,
                out@.len() == i,
                forall|j: int|
                    0 <= j < i ==> (#[trigger] out@[j]).0@ == self.leaf_seq()[j].0
                        && out@[j].1.value() == self.leaf_seq()[j].1,
            decreases n - i,
        {
            let k = self.leaves.key_at(i).copy_key();
            let v = *self.leaves.value_at(i);
            out.push((k, v));
            i = i + 1;
        }
        out
    }

    /// The sum of the leaves of one currency at one account, over all currency
    /// pairs; `None` when a partial sum does not fit.
    pub fn currency_total(&self, account: &ExchangeAccountId, currency: &CurrencyCode) -> (r:
        Option<Dec>)
        ensures
            r is Some <==> currency_sum_fits(self.leaf_seq(), account@, currency@),
            r matches Some(d) ==> d.value() == currency_sum(self.leaf_seq(), account@, currency@),
    {
        let ghost s = self.leaf_seq();
        let n = self.leaves.len();
        let mut total = Dec::zero();
        let mut i: usize = 0;
        assert(s.take(0) =~= Seq::<(LeafView, int)>::empty());
        proof {
            lemma_fits_zero();
        }
        while i < n
            invariant
                n == s.len(),
                s == self.leaf_seq(),
                i <= n,
                total.value() == currency_sum(s.take(i as int), account@, currency@),
                forall|j: int| 0 <= j <= i ==> fits(#[trigger] currency_sum(s.take(j), account@, currency@)),
            decreases n - i,
        {
            let key = self.leaves.key_at(i);
            let v = *self.leaves.value_at(i);
            proof {
                assert(s.take(i + 1).drop_last() =~= s.take(i as int));
                assert(s.take(i + 1).last() == s[i as int]);
            }
            if key.0.same_key(account) && key.2.same_key(currency) {
                match total.checked_add(v) {
                    Some(t) => {
                        total = t;
                    },
                    None => {
                        assert(!fits(currency_sum(s.take(i + 1), account@, currency@)));
                        return None;
                    },
                }
            }
            i = i + 1;
        }
        assert(s.take(n as int) =~= s);
        Some(total)
    }

    /// The sum of all leaves; `None` when a partial sum, in the walking order, does
    /// not fit.
    pub fn sum_leaves(&self) -> (r: Option<Dec>)
        ensures
            r is Some <==> forall|i: int|
                0 <= i <= self.leaf_seq().len() ==> fits(#[trigger] leaves_sum(self.leaf_seq().take(i))),
            r matches Some(d) ==> d.value() == leaves_sum(self.leaf_seq()),
    {
        let ghost s = self.leaf_seq();
        let n = self.leaves.len();
        let mut total = Dec::zero();
        let mut i: usize = 0;
        assert(s.take(0) =~= Seq::<(LeafView, int)>::empty());
        proof {
            lemma_fits_zero();
        }
        while i < n
            invariant
                n == s.len(),
                s == self.leaf_seq(),
                i <= n,
                total.value() == leaves_sum(s.take(i as int)),
                forall|j: int| 0 <= j <= i ==> fits(#[trigger] leaves_sum(s.take(j))),
            decreases n - i,
        {
            let v = *self.leaves.value_at(i);
            proof {
                assert(s.take(i + 1).drop_last() =~= s.take(i as int));
                assert(s.take(i + 1).last() == s[i as int]);
            }
            match total.checked_add(v) {
                Some(t) => {
                    total = t;
                },
                None => {
                    assert(!fits(leaves_sum(s.take(i + 1))));
                    return None;
                },
            }
            i = i + 1;
        }
        assert(s.take(n as int) =~= s);
        Some(total)
    }
}

} // verus!
