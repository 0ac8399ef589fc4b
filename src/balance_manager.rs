use vstd::prelude::*;

use crate::balance::{
    conserved, lemma_reserved_by_covers, lemma_reserved_by_push, lemma_reserved_by_remove,
    lemma_reserved_by_update, reserved_by, BalanceReservation, Balances, FillView, OrderFill,
    OrderSide, ReservationId, ReservationView,
};
use crate::decimal::{decimal_product, fits, Dec};
use crate::ids::{CurrencyCode, CurrencyPair, ExchangeAccountId, MarketAccountId};
use crate::keyed::{ExactKey, KeyedList};
use crate::value_tree::{currency_sum, currency_sum_fits, get_or_zero, LeafView, ServiceValueTree};

verus! {

/// Hands out reservation identifiers in increasing order, never the same twice.
pub struct ReservationIdAllocator {
    next: u64,
}

impl ReservationIdAllocator {
    pub closed spec fn next_spec(&self) -> u64 {
        self.next
    }

    pub fn new(first: u64) -> (r: ReservationIdAllocator)
        ensures
            r.next_spec() == first,
    {
        ReservationIdAllocator { next: first }
    }

    pub fn allocate(&mut self) -> (r: ReservationId)
        requires
            old(self).next_spec() < u64::MAX,
        ensures
            r.id == old(self).next_spec(),
            final(self).next_spec() == old(self).next_spec() + 1,
    {
        let id = ReservationId { id: self.next };
        self.next = self.next + 1;
        id
    }
}

/// A request to reserve `amount` of `currency` at an exchange account.
pub struct ReserveRequest {
    pub exchange_account_id: ExchangeAccountId,
    pub currency_pair: CurrencyPair,
    pub currency: CurrencyCode,
    pub side: OrderSide,
    pub price: Dec,
    pub amount: Dec,
    /// Milliseconds since the Unix epoch.
    pub now: i64,
}

impl ReserveRequest {
    pub open spec fn leaf(&self) -> LeafView {
        (self.exchange_account_id@, self.currency_pair@, self.currency@)
    }
}

#[derive(Clone, Copy, Debug, PartialEq, Eq, Structural)]
pub enum ReserveFailure {
    InsufficientFunds { available: Dec, requested: Dec },
    /// A sum of amounts left the range that a `Dec` holds.
    AmountOverflow,
}

#[derive(Clone, Copy, Debug, PartialEq, Eq, Structural)]
pub enum UnreserveFailure {
    UnknownReservation,
    OverUnreserve { remaining: Dec, requested: Dec },
    /// An amount to be written left the range that a `Dec` holds.
    AmountOverflow,
}

#[derive(Clone, Copy, Debug, PartialEq, Eq, Structural)]
pub enum FillFailure {
    UnknownReservation,
    OverFill { remaining: Dec, requested: Dec },
    /// A sum or product of amounts left the range that a `Dec` holds.
    AmountOverflow,
}

/// The smaller of two values.
pub open spec fn min_int(a: int, b: int) -> int {
    if a <= b {
        a
    } else {
        b
    }
}

/// `x` for a buy, `-x` for a sell.
pub open spec fn signed(side: OrderSide, x: int) -> int {
    if side == OrderSide::Buy {
        x
    } else {
        -x
    }
}

/// The quote amount of a fill: the decimal product of the filled amount and the price.
pub open spec fn quote_of(f: FillView) -> Option<int> {
    decimal_product(f.filled, f.price)
}

/// What a fill costs in the reservation's currency: the quote amount where the
/// reservation holds the quote currency, the base amount otherwise.
pub open spec fn fill_cost(r: ReservationView, f: FillView) -> int {
    if r.currency == r.pair.1 {
        quote_of(f).unwrap()
    } else {
        f.filled
    }
}

pub open spec fn base_leaf(r: ReservationView) -> LeafView {
    (r.account, r.pair, r.pair.0)
}

pub open spec fn quote_leaf(r: ReservationView) -> LeafView {
    (r.account, r.pair, r.pair.1)
}

pub open spec fn commission_leaf(r: ReservationView, f: FillView) -> LeafView {
    (r.account, r.pair, f.commission_currency)
}

/// The virtual diff after the base leaf is settled.
pub open spec fn diff_after_base(d: Map<LeafView, int>, r: ReservationView, f: FillView) -> Map<
    LeafView,
    int,
> {
    d.insert(base_leaf(r), get_or_zero(d, base_leaf(r)) + signed(f.side, f.filled))
}

/// The virtual diff after the base and quote leaves are settled.
pub open spec fn diff_after_quote(d: Map<LeafView, int>, r: ReservationView, f: FillView) -> Map<
    LeafView,
    int,
> {
    let d1 = diff_after_base(d, r, f);
    d1.insert(
        quote_leaf(r),
        get_or_zero(d1, quote_leaf(r)) - signed(f.side, quote_of(f).unwrap()),
    )
}

/// The virtual diff after a fill: base in and quote out on a buy, the reverse on a
/// sell, and the commission out of its currency.
pub open spec fn diff_after_fill(d: Map<LeafView, int>, r: ReservationView, f: FillView) -> Map<
    LeafView,
    int,
> {
    let d2 = diff_after_quote(d, r, f);
    d2.insert(commission_leaf(r, f), get_or_zero(d2, commission_leaf(r, f)) - f.commission)
}

/// How a fill moves the virtual free balance of currency `c` at account `a`: the
/// base currency comes in on a buy and goes out on a sell, the quote currency the
/// reverse, the commission goes out, and the cost held back by the reservation is
/// released.
pub open spec fn fill_free_change(
    r: ReservationView,
    f: FillView,
    a: (Seq<char>, u8),
    c: Seq<char>,
) -> int {
    let here = r.account == a;
    (if here && r.pair.0 == c {
        signed(f.side, f.filled)
    } else {
        0
    }) - (if here && r.pair.1 == c {
        signed(f.side, quote_of(f).unwrap())
    } else {
        0
    }) - (if here && f.commission_currency == c {
        f.commission
    } else {
        0
    }) + (if here && r.currency == c {
        fill_cost(r, f)
    } else {
        0
    })
}

/// Whether every amount that a fill writes fits in a `Dec`.
pub open spec fn fill_fits(
    d: Map<LeafView, int>,
    positions: Map<((Seq<char>, u8), (Seq<char>, Seq<char>)), int>,
    reserved: Map<LeafView, int>,
    r: ReservationView,
    f: FillView,
) -> bool {
    &&& fits(get_or_zero(d, base_leaf(r)) + signed(f.side, f.filled))
    &&& fits(
        get_or_zero(diff_after_base(d, r, f), quote_leaf(r)) - signed(
            f.side,
            quote_of(f).unwrap(),
        ),
    )
    &&& fits(get_or_zero(diff_after_quote(d, r, f), commission_leaf(r, f)) - f.commission)
    &&& fits(get_or_zero(positions, (r.account, r.pair)) + signed(f.side, f.filled))
    &&& fits(r.filled + fill_cost(r, f))
    &&& fits(r.still - fill_cost(r, f))
    &&& fits(get_or_zero(reserved, r.leaf()) - fill_cost(r, f))
}

/// Arbitrates reservations of balance: a reservation is granted only while the
/// free balance covers it, and the reserved amounts always equal what the
/// outstanding reservations hold back.
pub struct BalanceManager {
    balances: Balances,
    ids: ReservationIdAllocator,
}

impl BalanceManager {
    /// The lists are well formed, every reservation is valid, and conservation holds.
    pub closed spec fn wf(&self) -> bool {
        &&& self.balances.balances_by_exchange_id.wf()
        &&& self.balances.position_by_fill_amount.wf()
        &&& self.balances.balance_reservations_by_reservation_id.wf()
        &&& self.balances.last_order_fills.wf()
        &&& Self::reservations_valid(
            self.balances.balance_reservations_by_reservation_id.entries(),
            self.ids.next_spec(),
        )
        &&& conserved(
            self.balances.reserved_amount@,
            self.balances.balance_reservations_by_reservation_id.entries(),
        )
    }

    /// Every reservation is valid, stands under its own identifier, and has an
    /// identifier below the next one to be handed out.
    pub open spec fn reservations_valid(s: Seq<(u64, ReservationView)>, next: u64) -> bool {
        forall|i: int|
            0 <= i < s.len() ==> (#[trigger] s[i]).1.valid() && s[i].0 == s[i].1.id && s[i].0
                < next
    }

    pub closed spec fn version(&self) -> u64 {
        self.balances.version
    }

    pub closed spec fn next_id(&self) -> u64 {
        self.ids.next_spec()
    }

    pub closed spec fn exchange_free(&self) -> Map<((Seq<char>, u8), Seq<char>), int> {
        self.balances.balances_by_exchange_id.map()
    }

    pub closed spec fn virtual_diff(&self) -> Map<LeafView, int> {
        self.balances.virtual_diff_balances@
    }

    pub closed spec fn diff_leaves(&self) -> Seq<(LeafView, int)> {
        self.balances.virtual_diff_balances.leaf_seq()
    }

    pub closed spec fn reserved(&self) -> Map<LeafView, int> {
        self.balances.reserved_amount@
    }

    pub closed spec fn reserved_leaves(&self) -> Seq<(LeafView, int)> {
        self.balances.reserved_amount.leaf_seq()
    }

    pub closed spec fn limits(&self) -> Map<LeafView, int> {
        self.balances.amount_limits@
    }

    pub closed spec fn positions(&self) -> Map<((Seq<char>, u8), (Seq<char>, Seq<char>)), int> {
        self.balances.position_by_fill_amount.map()
    }

    pub closed spec fn reservations(&self) -> Map<u64, ReservationView> {
        self.balances.balance_reservations_by_reservation_id.map()
    }

    pub closed spec fn reservation_seq(&self) -> Seq<(u64, ReservationView)> {
        self.balances.balance_reservations_by_reservation_id.entries()
    }

    pub closed spec fn last_fills(&self) -> Map<((Seq<char>, u8), (Seq<char>, Seq<char>)), FillView> {
        self.balances.last_order_fills.map()
    }

    /// Free balance of a currency at an account as the engine sees it: what the
    /// exchange reported, plus the engine's pending adjustments, less what is reserved.
    pub open spec fn virtual_free(&self, account: (Seq<char>, u8), currency: Seq<char>) -> int {
        get_or_zero(self.exchange_free(), (account, currency)) + currency_sum(
            self.diff_leaves(),
            account,
            currency,
        ) - currency_sum(self.reserved_leaves(), account, currency)
    }

    /// What a leaf's limit still allows, where the leaf has a limit.
    pub open spec fn limit_remaining(&self, k: LeafView) -> int {
        self.limits()[k] - get_or_zero(self.reserved(), k)
    }

    /// The amount that a reservation on leaf `k` may take.
    pub open spec fn available(&self, k: LeafView) -> int {
        if self.limits().contains_key(k) {
            min_int(self.virtual_free(k.0, k.2), self.limit_remaining(k))
        } else {
            self.virtual_free(k.0, k.2)
        }
    }

    /// Whether every step of computing `available(k)` fits in a `Dec`.
    pub open spec fn available_fits(&self, k: LeafView) -> bool {
        let ex = get_or_zero(self.exchange_free(), (k.0, k.2));
        let ds = currency_sum(self.diff_leaves(), k.0, k.2);
        &&& currency_sum_fits(self.diff_leaves(), k.0, k.2)
        &&& currency_sum_fits(self.reserved_leaves(), k.0, k.2)
        &&& fits(ex + ds)
        &&& fits(self.virtual_free(k.0, k.2))
        &&& self.limits().contains_key(k) ==> fits(self.limit_remaining(k))
    }

    /// The reserved-amount leaves equal what the outstanding reservations hold back.
    pub open spec fn conservation_holds(&self) -> bool {
        conserved(self.reserved(), self.reservation_seq())
    }

    pub fn new(balances: Balances, first_reservation_id: u64) -> (r: BalanceManager)
        requires
            balances.balances_by_exchange_id.wf(),
            balances.position_by_fill_amount.wf(),
            balances.balance_reservations_by_reservation_id.wf(),
            balances.last_order_fills.wf(),
            Self::reservations_valid(
                balances.balance_reservations_by_reservation_id.entries(),
                first_reservation_id,
            ),
            conserved(
                balances.reserved_amount@,
                balances.balance_reservations_by_reservation_id.entries(),
            ),
        ensures
            r.wf(),
            r.version() == balances.version,
            r.next_id() == first_reservation_id,
            r.exchange_free() == balances.balances_by_exchange_id.map(),
            r.virtual_diff() == balances.virtual_diff_balances@,
            r.reserved() == balances.reserved_amount@,
            r.limits() == balances.amount_limits@,
            r.positions() == balances.position_by_fill_amount.map(),
            r.reservations() == balances.balance_reservations_by_reservation_id.map(),
            r.last_fills() == balances.last_order_fills.map(),
    {
        BalanceManager { balances, ids: ReservationIdAllocator::new(first_reservation_id) }
    }

    pub fn get_version(&self) -> (r: u64)
        ensures
            r == self.version(),
    {
        self.balances.version
    }

    /// The amount that a reservation on the leaf may take now: the virtual free
    /// balance, capped by what the leaf's limit still allows where it has one.
    /// `None` when a step of the sum does not fit.
    pub fn effective_free(
        &self,
        account: &ExchangeAccountId,
        pair: &CurrencyPair,
        currency: &CurrencyCode,
    ) -> (r: Option<Dec>)
        requires
            self.wf(),
        ensures
            r is Some <==> self.available_fits((account@, pair@, currency@)),
            r matches Some(d) ==> d.value() == self.available((account@, pair@, currency@)),
    {
        let ex = match self.balances.balances_by_exchange_id.get(
            &(account.copy_key(), currency.copy_key()),
        ) {
            Some(v) => *v,
            None => Dec::zero(),
        };
        let ds = match self.balances.virtual_diff_balances.currency_total(account, currency) {
            Some(v) => v,
            None => {
                return None;
            },
        };
        let rs = match self.balances.reserved_amount.currency_total(account, currency) {
            Some(v) => v,
            None => {
                return None;
            },
        };
        let partial = match ex.checked_add(ds) {
            Some(v) => v,
            None => {
                return None;
            },
        };
        let free = match partial.checked_sub(rs) {
            Some(v) => v,
            None => {
                return None;
            },
        };
        let leaf = (account.copy_key(), pair.copy_key(), currency.copy_key());
        if self.balances.amount_limits.contains(&leaf) {
            let limit = self.balances.amount_limits.get(&leaf);
            let reserved = self.balances.reserved_amount.get(&leaf);
            match limit.checked_sub(reserved) {
                Some(remaining) => {
                    if remaining.less_than(&free) {
                        Some(remaining)
                    } else {
                        Some(free)
                    }
                },
                None => None,
            }
        } else {
            Some(free)
        }
    }

    /// Reserves `request.amount` of the currency on the request's leaf when the
    /// amount available there covers it.
    pub fn try_reserve(&mut self, request: &ReserveRequest) -> (r: Result<
        ReservationId,
        ReserveFailure,
    >)
        requires
            old(self).wf(),
            old(self).version() < u64::MAX,
            old(self).next_id() < u64::MAX,
            request.amount.value() >= 0,
        ensures
            final(self).wf(),
            final(self).conservation_holds(),
            !old(self).available_fits(request.leaf()) ==> r == Err::<
                ReservationId,
                ReserveFailure,
            >(ReserveFailure::AmountOverflow) && *final(self) == *old(self),
            old(self).available_fits(request.leaf()) && request.amount.value() > old(
                self,
            ).available(request.leaf()) ==> (r matches Err(
                ReserveFailure::InsufficientFunds { available, requested },
            ) && available.value() == old(self).available(request.leaf()) && requested
                == request.amount) && *final(self) == *old(self),
            old(self).available_fits(request.leaf()) && request.amount.value() <= old(
                self,
            ).available(request.leaf()) && !fits(
                get_or_zero(old(self).reserved(), request.leaf()) + request.amount.value(),
            ) ==> r == Err::<ReservationId, ReserveFailure>(ReserveFailure::AmountOverflow)
                && *final(self) == *old(self),
            old(self).available_fits(request.leaf()) && request.amount.value() <= old(
                self,
            ).available(request.leaf()) && fits(
                get_or_zero(old(self).reserved(), request.leaf()) + request.amount.value(),
            ) ==> {
                &&& r == Ok::<ReservationId, ReserveFailure>(
                    (ReservationId { id: old(self).next_id() }),
                )
                &&& final(self).reservations() == old(self).reservations().insert(
                    old(self).next_id(),
                    new_reservation_view(request, old(self).next_id()),
                )
                &&& final(self).reserved() == old(self).reserved().insert(
                    request.leaf(),
                    get_or_zero(old(self).reserved(), request.leaf()) + request.amount.value(),
                )
                &&& final(self).virtual_free(request.exchange_account_id@, request.currency@)
                    == old(self).virtual_free(request.exchange_account_id@, request.currency@)
                    - request.amount.value()
                &&& final(self).virtual_free(request.exchange_account_id@, request.currency@) >= 0
                &&& final(self).version() == old(self).version() + 1
                &&& final(self).next_id() == old(self).next_id() + 1
                &&& final(self).exchange_free() == old(self).exchange_free()
                &&& final(self).virtual_diff() == old(self).virtual_diff()
                &&& final(self).limits() == old(self).limits()
                &&& final(self).positions() == old(self).positions()
                &&& final(self).last_fills() == old(self).last_fills()
            },
    {
        let available = match self.effective_free(
            &request.exchange_account_id,
            &request.currency_pair,
            &request.currency,
        ) {
            Some(v) => v,
            None => {
                return Err(ReserveFailure::AmountOverflow);
            },
        };
        if available.less_than(&request.amount) {
            return Err(
                ReserveFailure::InsufficientFunds { available, requested: request.amount },
            );
        }
        let leaf = (
            request.exchange_account_id.copy_key(),
            request.currency_pair.copy_key(),
            request.currency.copy_key(),
        );
        let current = self.balances.reserved_amount.get(&leaf);
        let updated = match current.checked_add(request.amount) {
            Some(v) => v,
            None => {
                return Err(ReserveFailure::AmountOverflow);
            },
        };
        let ghost old_seq = self.reservation_seq();
        let ghost old_reserved = self.reserved();
        let id = self.ids.allocate();
        let reservation = BalanceReservation {
            id,
            exchange_account_id: request.exchange_account_id.copy_key(),
            currency_pair: request.currency_pair.copy_key(),
            currency: request.currency.copy_key(),
            side: request.side,
            price: request.price,
            amount_requested: request.amount,
            amount_filled: Dec::zero(),
            amount_unreserved_or_cancelled: Dec::zero(),
            amount_still_reserved: request.amount,
            created_at: request.now,
        };
        proof {
            assert(!old(self).reservations().contains_key(id.id)) by {
                self.balances.balance_reservations_by_reservation_id.lemma_entries();
                if old(self).reservations().contains_key(id.id) {
                    let j = choose|j: int|
                        0 <= j < old_seq.len() && #[trigger] old_seq[j].0 == id.id;
                    assert(old_seq[j].0 < id.id);
                }
            }
        }
        self.balances.reserved_amount.set(leaf, updated);
        self.balances.balance_reservations_by_reservation_id.insert(id, reservation);
        self.balances.version = self.balances.version + 1;
        proof {
            let new_seq = self.reservation_seq();
            assert(new_seq == old_seq.push((id.id, reservation@)));
            assert forall|k: LeafView| #[trigger] reserved_by(new_seq, k) == get_or_zero(
                self.reserved(),
                k,
            ) by {
                lemma_reserved_by_push(old_seq, (id.id, reservation@), k);
                assert(reserved_by(old_seq, k) == get_or_zero(old_reserved, k));
            }
            assert(Self::reservations_valid(new_seq, self.ids.next_spec())) by {
                assert forall|i: int| 0 <= i < new_seq.len() implies (#[trigger] new_seq[i]).1.valid()
                    && new_seq[i].0 == new_seq[i].1.id && new_seq[i].0 < self.ids.next_spec() by {
                    if i < old_seq.len() {
                        assert(new_seq[i] == old_seq[i]);
                    }
                }
            }
        }
        Ok(id)
    }

    /// Whether giving back `amount` of reservation `rv` writes only amounts that fit.
    pub open spec fn unreserve_fits(&self, rv: ReservationView, amount: int) -> bool {
        &&& fits(rv.unreserved + amount)
        &&& fits(rv.still - amount)
        &&& fits(get_or_zero(self.reserved(), rv.leaf()) - amount)
    }

    /// Gives back `amount` of a reservation. A reservation with nothing left held
    /// back and nothing filled is dropped; one with fills is kept for accounting.
    pub fn unreserve(&mut self, reservation_id: ReservationId, amount: Dec) -> (r: Result<
        (),
        UnreserveFailure,
    >)
        requires
            old(self).wf(),
            old(self).version() < u64::MAX,
            amount.value() >= 0,
        ensures
            final(self).wf(),
            final(self).conservation_holds(),
            !old(self).reservations().contains_key(reservation_id.id) ==> r == Err::<
                (),
                UnreserveFailure,
            >(UnreserveFailure::UnknownReservation) && *final(self) == *old(self),
            old(self).reservations().contains_key(reservation_id.id) && amount.value() > old(
                self,
            ).reservations()[reservation_id.id].still_reserved() ==> (r matches Err(
                UnreserveFailure::OverUnreserve { remaining, requested },
            ) && remaining.value() == old(self).reservations()[reservation_id.id].still_reserved()
                && requested == amount) && *final(self) == *old(self),
            old(self).reservations().contains_key(reservation_id.id) && amount.value() <= old(
                self,
            ).reservations()[reservation_id.id].still_reserved() && !old(self).unreserve_fits(
                old(self).reservations()[reservation_id.id],
                amount.value(),
            ) ==> r == Err::<(), UnreserveFailure>(UnreserveFailure::AmountOverflow) && *final(self)
                == *old(self),
            old(self).reservations().contains_key(reservation_id.id) && amount.value() <= old(
                self,
            ).reservations()[reservation_id.id].still_reserved() && old(self).unreserve_fits(
                old(self).reservations()[reservation_id.id],
                amount.value(),
            ) ==> {
                let rv = old(self).reservations()[reservation_id.id];
                let nv = ReservationView {
                    unreserved: rv.unreserved + amount.value(),
                    still: rv.still - amount.value(),
                    ..rv
                };
                &&& r == Ok::<(), UnreserveFailure>(())
                &&& final(self).reservations() == if nv.still == 0 && nv.filled == 0 {
                    old(self).reservations().remove(reservation_id.id)
                } else {
                    old(self).reservations().insert(reservation_id.id, nv)
                }
                &&& final(self).reserved() == old(self).reserved().insert(
                    rv.leaf(),
                    get_or_zero(old(self).reserved(), rv.leaf()) - amount.value(),
                )
                &&& final(self).virtual_free(rv.account, rv.currency) == old(self).virtual_free(
                    rv.account,
                    rv.currency,
                ) + amount.value()
                &&& final(self).version() == old(self).version() + 1
                &&& final(self).next_id() == old(self).next_id()
                &&& final(self).exchange_free() == old(self).exchange_free()
                &&& final(self).virtual_diff() == old(self).virtual_diff()
                &&& final(self).limits() == old(self).limits()
                &&& final(self).positions() == old(self).positions()
                &&& final(self).last_fills() == old(self).last_fills()
            },
    {
        let i = match self.balances.balance_reservations_by_reservation_id.find(&reservation_id) {
            Some(i) => i,
            None => {
                return Err(UnreserveFailure::UnknownReservation);
            },
        };
        let ghost old_seq = self.reservation_seq();
        let ghost old_reserved = self.reserved();
        proof {
            self.balances.balance_reservations_by_reservation_id.lemma_entries();
            lemma_reserved_by_covers(old_seq, i as int);
        }
        let res = self.balances.balance_reservations_by_reservation_id.value_at(i);
        let still = res.amount_still_reserved();
        if still.less_than(&amount) {
            return Err(UnreserveFailure::OverUnreserve { remaining: still, requested: amount });
        }
        let new_unreserved = match res.amount_unreserved_or_cancelled.checked_add(amount) {
            Some(v) => v,
            None => {
                return Err(UnreserveFailure::AmountOverflow);
            },
        };
        let new_still = match still.checked_sub(amount) {
            Some(v) => v,
            None => {
                return Err(UnreserveFailure::AmountOverflow);
            },
        };
        let leaf = (
            res.exchange_account_id.copy_key(),
            res.currency_pair.copy_key(),
            res.currency.copy_key(),
        );
        let current = self.balances.reserved_amount.get(&leaf);
        let new_leaf = match current.checked_sub(amount) {
            Some(v) => v,
            None => {
                return Err(UnreserveFailure::AmountOverflow);
            },
        };
        let updated = res.with_amounts(res.amount_filled, new_unreserved, new_still);
        let drop_it = updated.amount_filled.is_zero() && new_still.is_zero();
        self.balances.reserved_amount.set(leaf, new_leaf);
        let ghost e = (reservation_id.id, updated@);
        if drop_it {
            self.balances.balance_reservations_by_reservation_id.remove_at(i);
            proof {
                self.lemma_after_remove(old_seq, old_reserved, i as int);
            }
        } else {
            self.balances.balance_reservations_by_reservation_id.set_value_at(i, updated);
            proof {
                self.lemma_after_update(old_seq, old_reserved, i as int, e);
            }
        }
        self.balances.version = self.balances.version + 1;
        Ok(())
    }

    /// Conservation and validity survive removing a reservation that holds nothing back.
    proof fn lemma_after_remove(
        &self,
        old_seq: Seq<(u64, ReservationView)>,
        old_reserved: Map<LeafView, int>,
        i: int,
    )
        requires
            0 <= i < old_seq.len(),
            self.reservation_seq() == old_seq.remove(i),
            Self::reservations_valid(old_seq, self.ids.next_spec()),
            forall|k: LeafView| #[trigger] reserved_by(old_seq, k) == get_or_zero(old_reserved, k),
            self.reserved() == old_reserved.insert(
                old_seq[i].1.leaf(),
                get_or_zero(old_reserved, old_seq[i].1.leaf()) - old_seq[i].1.still_reserved(),
            ),
        ensures
            forall|k: LeafView| #[trigger] reserved_by(self.reservation_seq(), k) == get_or_zero(
                self.reserved(),
                k,
            ),
            Self::reservations_valid(self.reservation_seq(), self.ids.next_spec()),
    {
        assert forall|k: LeafView| #[trigger] reserved_by(self.reservation_seq(), k) == get_or_zero(
            self.reserved(),
            k,
        ) by {
            lemma_reserved_by_remove(old_seq, i, k);
            assert(reserved_by(old_seq, k) == get_or_zero(old_reserved, k));
        }
        let new_seq = self.reservation_seq();
        assert forall|j: int| 0 <= j < new_seq.len() implies (#[trigger] new_seq[j]).1.valid()
            && new_seq[j].0 == new_seq[j].1.id && new_seq[j].0 < self.ids.next_spec() by {
            if j < i {
                assert(new_seq[j] == old_seq[j]);
            } else {
                assert(new_seq[j] == old_seq[j + 1]);
            }
        }
    }

    /// Conservation and validity survive replacing a reservation by a valid one of
    /// the same leaf, when the leaf moves by the change in what it holds back.
    proof fn lemma_after_update(
        &self,
        old_seq: Seq<(u64, ReservationView)>,
        old_reserved: Map<LeafView, int>,
        i: int,
        e: (u64, ReservationView),
    )
        requires
            0 <= i < old_seq.len(),
            self.reservation_seq() == old_seq.update(i, e),
            e.0 == old_seq[i].0,
            e.1.id == old_seq[i].1.id,
            e.1.valid(),
            e.1.leaf() == old_seq[i].1.leaf(),
            Self::reservations_valid(old_seq, self.ids.next_spec()),
            forall|k: LeafView| #[trigger] reserved_by(old_seq, k) == get_or_zero(old_reserved, k),
            self.reserved() == old_reserved.insert(
                old_seq[i].1.leaf(),
                get_or_zero(old_reserved, old_seq[i].1.leaf()) - (old_seq[i].1.still_reserved()
                    - e.1.still_reserved()),
            ),
        ensures
            forall|k: LeafView| #[trigger] reserved_by(self.reservation_seq(), k) == get_or_zero(
                self.reserved(),
                k,
            ),
            Self::reservations_valid(self.reservation_seq(), self.ids.next_spec()),
    {
        assert forall|k: LeafView| #[trigger] reserved_by(self.reservation_seq(), k) == get_or_zero(
            self.reserved(),
            k,
        ) by {
            lemma_reserved_by_update(old_seq, i, e, k);
            assert(reserved_by(old_seq, k) == get_or_zero(old_reserved, k));
        }
        let new_seq = self.reservation_seq();
        assert forall|j: int| 0 <= j < new_seq.len() implies (#[trigger] new_seq[j]).1.valid()
            && new_seq[j].0 == new_seq[j].1.id && new_seq[j].0 < self.ids.next_spec() by {
            if j != i {
                assert(new_seq[j] == old_seq[j]);
            }
        }
    }

    /// Gives back everything that a reservation still holds back.
    pub fn cancel_reservation(&mut self, reservation_id: ReservationId) -> (r: Result<
        (),
        UnreserveFailure,
    >)
        requires
            old(self).wf(),
            old(self).version() < u64::MAX,
        ensures
            final(self).wf(),
            final(self).conservation_holds(),
            !old(self).reservations().contains_key(reservation_id.id) ==> r == Err::<
                (),
                UnreserveFailure,
            >(UnreserveFailure::UnknownReservation) && *final(self) == *old(self),
            old(self).reservations().contains_key(reservation_id.id) && !old(self).unreserve_fits(
                old(self).reservations()[reservation_id.id],
                old(self).reservations()[reservation_id.id].still,
            ) ==> r == Err::<(), UnreserveFailure>(UnreserveFailure::AmountOverflow) && *final(self)
                == *old(self),
            old(self).reservations().contains_key(reservation_id.id) && old(self).unreserve_fits(
                old(self).reservations()[reservation_id.id],
                old(self).reservations()[reservation_id.id].still,
            ) ==> {
                let rv = old(self).reservations()[reservation_id.id];
                let nv = ReservationView { unreserved: rv.unreserved + rv.still, still: 0, ..rv };
                &&& r == Ok::<(), UnreserveFailure>(())
                &&& final(self).reservations() == if nv.filled == 0 {
                    old(self).reservations().remove(reservation_id.id)
                } else {
                    old(self).reservations().insert(reservation_id.id, nv)
                }
                &&& final(self).reserved() == old(self).reserved().insert(
                    rv.leaf(),
                    get_or_zero(old(self).reserved(), rv.leaf()) - rv.still,
                )
                &&& final(self).virtual_free(rv.account, rv.currency) == old(self).virtual_free(
                    rv.account,
                    rv.currency,
                ) + rv.still
                &&& final(self).version() == old(self).version() + 1
                &&& final(self).next_id() == old(self).next_id()
                &&& final(self).exchange_free() == old(self).exchange_free()
                &&& final(self).virtual_diff() == old(self).virtual_diff()
                &&& final(self).limits() == old(self).limits()
                &&& final(self).positions() == old(self).positions()
                &&& final(self).last_fills() == old(self).last_fills()
            },
    {
        let still = match self.balances.balance_reservations_by_reservation_id.get(&reservation_id) {
            Some(res) => {
                proof {
                    self.balances.balance_reservations_by_reservation_id.lemma_entries();
                    let j = choose|j: int|
                        0 <= j < self.reservation_seq().len() && #[trigger] self.reservation_seq()[j].0
                            == reservation_id.id;
                    assert(self.reservation_seq()[j].1.valid());
                }
                res.amount_still_reserved()
            },
            None => {
                return Err(UnreserveFailure::UnknownReservation);
            },
        };
        self.unreserve(reservation_id, still)
    }

    /// Applies a fill of the order that a reservation was made for: the cost of the
    /// fill leaves the reservation and the reserved amount, the position moves by
    /// the filled amount, and the virtual diff takes the settlement and the commission.
    pub fn apply_fill(&mut self, reservation_id: ReservationId, fill: &OrderFill) -> (r: Result<
        (),
        FillFailure,
    >)
        requires
            old(self).wf(),
            old(self).version() < u64::MAX,
            fill.price.value() >= 0,
            fill.filled_amount.value() >= 0,
            fill.commission_amount.value() >= 0,
        ensures
            final(self).wf(),
            final(self).conservation_holds(),
            !old(self).reservations().contains_key(reservation_id.id) ==> r == Err::<
                (),
                FillFailure,
            >(FillFailure::UnknownReservation) && *final(self) == *old(self),
            old(self).reservations().contains_key(reservation_id.id) && quote_of(fill@) is None
                ==> r == Err::<(), FillFailure>(FillFailure::AmountOverflow) && *final(self) == *old(
                self,
            ),
            old(self).reservations().contains_key(reservation_id.id) && quote_of(fill@) is Some
                && fill_cost(old(self).reservations()[reservation_id.id], fill@) > old(
                self,
            ).reservations()[reservation_id.id].still ==> (r matches Err(
                FillFailure::OverFill { remaining, requested },
            ) && remaining.value() == old(self).reservations()[reservation_id.id].still
                && requested.value() == fill_cost(old(self).reservations()[reservation_id.id], fill@))
                && *final(self) == *old(self),
            old(self).reservations().contains_key(reservation_id.id) && quote_of(fill@) is Some
                && fill_cost(old(self).reservations()[reservation_id.id], fill@) <= old(
                self,
            ).reservations()[reservation_id.id].still && !fill_fits(
                old(self).virtual_diff(),
                old(self).positions(),
                old(self).reserved(),
                old(self).reservations()[reservation_id.id],
                fill@,
            ) ==> r == Err::<(), FillFailure>(FillFailure::AmountOverflow) && *final(self) == *old(
                self,
            ),
            old(self).reservations().contains_key(reservation_id.id) && quote_of(fill@) is Some
                && fill_cost(old(self).reservations()[reservation_id.id], fill@) <= old(
                self,
            ).reservations()[reservation_id.id].still && fill_fits(
                old(self).virtual_diff(),
                old(self).positions(),
                old(self).reserved(),
                old(self).reservations()[reservation_id.id],
                fill@,
            ) ==> {
                let rv = old(self).reservations()[reservation_id.id];
                let cost = fill_cost(rv, fill@);
                let nv = ReservationView { filled: rv.filled + cost, still: rv.still - cost, ..rv };
                &&& r == Ok::<(), FillFailure>(())
                &&& final(self).reservations() == if nv.still == 0 && nv.filled == 0 {
                    old(self).reservations().remove(reservation_id.id)
                } else {
                    old(self).reservations().insert(reservation_id.id, nv)
                }
                &&& final(self).reserved() == old(self).reserved().insert(
                    rv.leaf(),
                    get_or_zero(old(self).reserved(), rv.leaf()) - cost,
                )
                &&& final(self).virtual_diff() == diff_after_fill(old(self).virtual_diff(), rv, fill@)
                &&& forall|a: (Seq<char>, u8), c: Seq<char>|
                    #[trigger] final(self).virtual_free(a, c) == old(self).virtual_free(a, c)
                        + fill_free_change(rv, fill@, a, c)
                &&& final(self).positions() == old(self).positions().insert(
                    (rv.account, rv.pair),
                    get_or_zero(old(self).positions(), (rv.account, rv.pair)) + signed(
                        fill@.side,
                        fill@.filled,
                    ),
                )
                &&& final(self).last_fills() == old(self).last_fills().insert(
                    (rv.account, rv.pair),
                    fill@,
                )
                &&& final(self).version() == old(self).version() + 1
                &&& final(self).next_id() == old(self).next_id()
                &&& final(self).exchange_free() == old(self).exchange_free()
                &&& final(self).limits() == old(self).limits()
            },
    {
        let i = match self.balances.balance_reservations_by_reservation_id.find(&reservation_id) {
            Some(i) => i,
            None => {
                return Err(FillFailure::UnknownReservation);
            },
        };
        let ghost old_seq = self.reservation_seq();
        let ghost old_reserved = self.reserved();
        proof {
            self.balances.balance_reservations_by_reservation_id.lemma_entries();
            lemma_reserved_by_covers(old_seq, i as int);
        }
        let res = self.balances.balance_reservations_by_reservation_id.value_at(i);
        let quote_amount = match fill.filled_amount.checked_mul(fill.price) {
            Some(q) => q,
            None => {
                return Err(FillFailure::AmountOverflow);
            },
        };
        let cost = if res.currency.same_key(&res.currency_pair.quote) {
            quote_amount
        } else {
            fill.filled_amount
        };
        let still = res.amount_still_reserved();
        if still.less_than(&cost) {
            return Err(FillFailure::OverFill { remaining: still, requested: cost });
        }
        let account = res.exchange_account_id.copy_key();
        let pair = res.currency_pair.copy_key();
        let base_key = (account.copy_key(), pair.copy_key(), pair.base.copy_key());
        let quote_key = (account.copy_key(), pair.copy_key(), pair.quote.copy_key());
        let commission_key = (
            account.copy_key(),
            pair.copy_key(),
            fill.commission_currency.copy_key(),
        );
        let is_buy = match fill.trade_side {
            OrderSide::Buy => true,
            OrderSide::Sell => false,
        };
        let signed_filled = if is_buy {
            fill.filled_amount
        } else {
            fill.filled_amount.neg()
        };
        let signed_quote = if is_buy {
            quote_amount
        } else {
            quote_amount.neg()
        };
        let base_value = match self.balances.virtual_diff_balances.get(&base_key).checked_add(
            signed_filled,
        ) {
            Some(v) => v,
            None => {
                return Err(FillFailure::AmountOverflow);
            },
        };
        let quote_before = if quote_key.same_key(&base_key) {
            base_value
        } else {
            self.balances.virtual_diff_balances.get(&quote_key)
        };
        let quote_value = match quote_before.checked_sub(signed_quote) {
            Some(v) => v,
            None => {
                return Err(FillFailure::AmountOverflow);
            },
        };
        let commission_before = if commission_key.same_key(&quote_key) {
            quote_value
        } else if commission_key.same_key(&base_key) {
            base_value
        } else {
            self.balances.virtual_diff_balances.get(&commission_key)
        };
        let commission_value = match commission_before.checked_sub(fill.commission_amount) {
            Some(v) => v,
            None => {
                return Err(FillFailure::AmountOverflow);
            },
        };
        let position_key = (account.copy_key(), pair.copy_key());
        let position_before = match self.balances.position_by_fill_amount.get(&position_key) {
            Some(v) => *v,
            None => Dec::zero(),
        };
        let position_value = match position_before.checked_add(signed_filled) {
            Some(v) => v,
            None => {
                return Err(FillFailure::AmountOverflow);
            },
        };
        let new_filled = match res.amount_filled.checked_add(cost) {
            Some(v) => v,
            None => {
                return Err(FillFailure::AmountOverflow);
            },
        };
        let new_still = match still.checked_sub(cost) {
            Some(v) => v,
            None => {
                return Err(FillFailure::AmountOverflow);
            },
        };
        let leaf = (account.copy_key(), pair.copy_key(), res.currency.copy_key());
        let current = self.balances.reserved_amount.get(&leaf);
        let new_leaf = match current.checked_sub(cost) {
            Some(v) => v,
            None => {
                return Err(FillFailure::AmountOverflow);
            },
        };
        let updated = res.with_amounts(new_filled, res.amount_unreserved_or_cancelled, new_still);
        let drop_it = new_filled.is_zero() && new_still.is_zero();
        self.balances.reserved_amount.set(leaf, new_leaf);
        self.balances.virtual_diff_balances.set(base_key, base_value);
        self.balances.virtual_diff_balances.set(quote_key, quote_value);
        self.balances.virtual_diff_balances.set(commission_key, commission_value);
        self.balances.position_by_fill_amount.insert(position_key, position_value);
        self.balances.last_order_fills.insert(MarketAccountId::new(account, pair), fill.copy_fill());
        let ghost e = (reservation_id.id, updated@);
        if drop_it {
            self.balances.balance_reservations_by_reservation_id.remove_at(i);
            proof {
                self.lemma_after_remove(old_seq, old_reserved, i as int);
            }
        } else {
            self.balances.balance_reservations_by_reservation_id.set_value_at(i, updated);
            proof {
                self.lemma_after_update(old_seq, old_reserved, i as int, e);
            }
        }
        self.balances.version = self.balances.version + 1;
        Ok(())
    }

    /// Sets the cap that gates reservations on one leaf.
    pub fn set_amount_limit(
        &mut self,
        account: &ExchangeAccountId,
        pair: &CurrencyPair,
        currency: &CurrencyCode,
        limit: Dec,
    )
        requires
            old(self).wf(),
            old(self).version() < u64::MAX,
        ensures
            final(self).wf(),
            final(self).limits() == old(self).limits().insert(
                (account@, pair@, currency@),
                limit.value(),
            ),
            final(self).version() == old(self).version() + 1,
            final(self).next_id() == old(self).next_id(),
            final(self).exchange_free() == old(self).exchange_free(),
            final(self).virtual_diff() == old(self).virtual_diff(),
            final(self).reserved() == old(self).reserved(),
            final(self).positions() == old(self).positions(),
            final(self).reservations() == old(self).reservations(),
            final(self).last_fills() == old(self).last_fills(),
    {
        self.balances.amount_limits.set(
            (account.copy_key(), pair.copy_key(), currency.copy_key()),
            limit,
        );
        self.balances.version = self.balances.version + 1;
    }

    /// Replaces the free balances that the exchange reports for an account, and
    /// zeroes the account's virtual diff in each reported currency, which the
    /// fresh balance already reflects. Reservations and fills are left alone.
    pub fn set_exchange_balances(
        &mut self,
        account: &ExchangeAccountId,
        balances: &Vec<(CurrencyCode, Dec)>,
    )
        requires
            old(self).wf(),
            old(self).version() < u64::MAX,
        ensures
            final(self).wf(),
            final(self).exchange_free() == reported_balances(
                without_account(old(self).exchange_free(), account@),
                account@,
                currency_levels(balances@),
            ),
            final(self).virtual_diff() == diff_cleared(
                old(self).virtual_diff(),
                account@,
                currency_levels(balances@),
            ),
            final(self).version() == old(self).version() + 1,
            final(self).next_id() == old(self).next_id(),
            final(self).reserved() == old(self).reserved(),
            final(self).limits() == old(self).limits(),
            final(self).positions() == old(self).positions(),
            final(self).reservations() == old(self).reservations(),
            final(self).last_fills() == old(self).last_fills(),
    {
        let ghost old_ex = self.exchange_free();
        let ghost levels = currency_levels(balances@);
        let ghost entries = self.balances.balances_by_exchange_id.entries();
        proof {
            self.balances.balances_by_exchange_id.lemma_entries();
        }
        let mut kept: KeyedList<(ExchangeAccountId, CurrencyCode), Dec> = KeyedList::new();
        let n = self.balances.balances_by_exchange_id.len();
        let mut i: usize = 0;
        while i < n
            invariant
                self.balances.balances_by_exchange_id.wf(),
                entries == self.balances.balances_by_exchange_id.entries(),
                old_ex == self.balances.balances_by_exchange_id.map(),
                n == entries.len(),
                i <= n,
                kept.wf(),
                forall|j: int| 0 <= j < n ==> old_ex.contains_key(#[trigger] entries[j].0)
                    && old_ex[entries[j].0] == entries[j].1,
                forall|k: ((Seq<char>, u8), Seq<char>)| #[trigger] kept.map().contains_key(k) ==> k.0
                    != account@ && old_ex.contains_key(k) && kept.map()[k] == old_ex[k],
                forall|j: int| 0 <= j < i && (#[trigger] entries[j]).0.0 != account@ ==> kept.map().contains_key(entries[j].0),
            decreases n - i,
        {
            let key = self.balances.balances_by_exchange_id.key_at(i);
            if !key.0.same_key(account) {
                let value = *self.balances.balances_by_exchange_id.value_at(i);
                kept.insert(key.copy_key(), value);
            }
            i = i + 1;
        }
        proof {
            assert(kept.map() =~= without_account(old_ex, account@)) by {
                assert forall|k: ((Seq<char>, u8), Seq<char>)| #[trigger] old_ex.contains_key(k) && k.0 != account@ implies kept.map().contains_key(k) by {
                    let j = choose|j: int| 0 <= j < entries.len() && #[trigger] entries[j].0 == k;
                }
            }
        }
        let m = balances.len();
        let mut t: usize = 0;
        while t < m
            invariant
                kept.wf(),
                m == balances@.len(),
                levels == currency_levels(balances@),
                t <= m,
                kept.map() == reported_balances(
                    without_account(old_ex, account@),
                    account@,
                    levels.take(t as int),
                ),
            decreases m - t,
        {
            let (currency, amount) = (&balances[t].0, balances[t].1);
            proof {
                assert(levels.take(t + 1).drop_last() =~= levels.take(t as int));
            }
            kept.insert((account.copy_key(), currency.copy_key()), amount);
            t = t + 1;
        }
        proof {
            assert(levels.take(m as int) =~= levels);
        }
        self.balances.balances_by_exchange_id = kept;
        let mut diff = ServiceValueTree::new();
        std::mem::swap(&mut diff, &mut self.balances.virtual_diff_balances);
        let ghost old_diff = diff@;
        let leaves = diff.leaves();
        let ghost diff_seq = diff.leaf_seq();
        proof {
            assert(old_diff =~= diff_cleared_upto(old_diff, account@, levels, diff_seq, 0));
        }
        let l = leaves.len();
        let mut j: usize = 0;
        while j < l
            invariant
                l == leaves@.len(),
                l == diff_seq.len(),
                j <= l,
                levels == currency_levels(balances@),
                forall|q: int| 0 <= q < l ==> (#[trigger] leaves@[q]).0@ == diff_seq[q].0,
                forall|q: int| 0 <= q < l ==> #[trigger] old_diff.contains_key(diff_seq[q].0),
                diff@ == diff_cleared_upto(old_diff, account@, levels, diff_seq, j as int),
                forall|k: LeafView| #[trigger] old_diff.contains_key(k) ==> exists|q: int|
                    0 <= q < diff_seq.len() && #[trigger] diff_seq[q].0 == k,
            decreases l - j,
        {
            let key = &leaves[j].0;
            let cleared = key.0.same_key(account) && reported_currency(balances, &key.2);
            if cleared {
                diff.set(key.copy_key(), Dec::zero());
            }
            proof {
                let after = diff_cleared_upto(old_diff, account@, levels, diff_seq, j + 1);
                assert(old_diff.contains_key(diff_seq[j as int].0));
                assert(diff@ =~= after) by {
                    assert forall|k: LeafView| diff@.contains_key(k) implies #[trigger] diff@[k] == after[k] by {
                        if k == diff_seq[j as int].0 {
                        } else {
                            assert(old_diff.contains_key(k) ==> ((exists|q: int| 0 <= q < j + 1 && #[trigger] diff_seq[q].0 == k) == (exists|q: int| 0 <= q < j && #[trigger] diff_seq[q].0 == k)));
                        }
                    }
                }
            }
            j = j + 1;
        }
        proof {
            assert(diff@ =~= diff_cleared(old_diff, account@, levels)) by {
                assert forall|k: LeafView| diff@.contains_key(k) implies #[trigger] diff@[k] == diff_cleared(old_diff, account@, levels)[k] by {
                    assert(old_diff.contains_key(k));
                }
            }
        }
        std::mem::swap(&mut diff, &mut self.balances.virtual_diff_balances);
        self.balances.version = self.balances.version + 1;
    }

    pub fn get_reservation(&self, reservation_id: ReservationId) -> (r: Option<&BalanceReservation>)
        requires
            self.wf(),
        ensures
            r is Some <==> self.reservations().contains_key(reservation_id.id),
            r matches Some(res) ==> res@ == self.reservations()[reservation_id.id],
    {
        self.balances.balance_reservations_by_reservation_id.get(&reservation_id)
    }

    pub fn get_reserved_amount(
        &self,
        account: &ExchangeAccountId,
        pair: &CurrencyPair,
        currency: &CurrencyCode,
    ) -> (r: Dec)
        ensures
            r.value() == get_or_zero(self.reserved(), (account@, pair@, currency@)),
    {
        self.balances.reserved_amount.get(&(account.copy_key(), pair.copy_key(), currency.copy_key()))
    }

    pub fn get_virtual_diff(
        &self,
        account: &ExchangeAccountId,
        pair: &CurrencyPair,
        currency: &CurrencyCode,
    ) -> (r: Dec)
        ensures
            r.value() == get_or_zero(self.virtual_diff(), (account@, pair@, currency@)),
    {
        self.balances.virtual_diff_balances.get(
            &(account.copy_key(), pair.copy_key(), currency.copy_key()),
        )
    }

    /// The signed base-currency position of an account on a pair.
    pub fn get_position(&self, account: &ExchangeAccountId, pair: &CurrencyPair) -> (r: Dec)
        requires
            self.wf(),
        ensures
            r.value() == get_or_zero(self.positions(), (account@, pair@)),
    {
        match self.balances.position_by_fill_amount.get(&(account.copy_key(), pair.copy_key())) {
            Some(v) => *v,
            None => Dec::zero(),
        }
    }

    /// The free balance that the exchange last reported.
    pub fn get_exchange_balance(&self, account: &ExchangeAccountId, currency: &CurrencyCode) -> (r:
        Dec)
        requires
            self.wf(),
        ensures
            r.value() == get_or_zero(self.exchange_free(), (account@, currency@)),
    {
        match self.balances.balances_by_exchange_id.get(&(account.copy_key(), currency.copy_key())) {
            Some(v) => *v,
            None => Dec::zero(),
        }
    }

    pub fn get_last_order_fill(&self, market_account_id: &MarketAccountId) -> (r: Option<&OrderFill>)
        requires
            self.wf(),
        ensures
            r is Some <==> self.last_fills().contains_key(market_account_id@),
            r matches Some(f) ==> f@ == self.last_fills()[market_account_id@],
    {
        self.balances.last_order_fills.get(market_account_id)
    }
}

/// A fill whose cost equals what a reservation still holds back leaves nothing
/// held back. For a reservation held in any currency but the pair's quote
/// currency, the cost is the filled amount itself.
pub proof fn lemma_full_fill_clears_reservation(rv: ReservationView, f: FillView)
    requires
        rv.currency != rv.pair.1,
        f.filled == rv.still_reserved(),
    ensures
        fill_cost(rv, f) == rv.still_reserved(),
        (ReservationView {
            filled: rv.filled + fill_cost(rv, f),
            still: rv.still - fill_cost(rv, f),
            ..rv
        }).still_reserved() == 0,
{
}

/// The same for a reservation held in the quote currency, whose cost is the
/// decimal product of the filled amount and the price.
pub proof fn lemma_full_quote_fill_clears_reservation(rv: ReservationView, f: FillView)
    requires
        rv.currency == rv.pair.1,
        quote_of(f) == Some(rv.still_reserved()),
    ensures
        (ReservationView {
            filled: rv.filled + fill_cost(rv, f),
            still: rv.still - fill_cost(rv, f),
            ..rv
        }).still_reserved() == 0,
{
}

/// Whether a currency is among the reported `(currency, amount)` levels.
pub open spec fn currency_reported(levels: Seq<(Seq<char>, int)>, c: Seq<char>) -> bool {
    exists|i: int| 0 <= i < levels.len() && (#[trigger] levels[i]).0 == c
}

fn reported_currency(balances: &Vec<(CurrencyCode, Dec)>, currency: &CurrencyCode) -> (r: bool)
    ensures
        r == currency_reported(currency_levels(balances@), currency@),
{
    let mut i: usize = 0;
    while i < balances.len()
        invariant
            i <= balances@.len(),
            forall|j: int| 0 <= j < i ==> (#[trigger] balances@[j]).0@ != currency@,
        decreases balances@.len() - i,
    {
        if balances[i].0.same_key(currency) {
            assert(currency_levels(balances@)[i as int].0 == currency@);
            return true;
        }
        i = i + 1;
    }
    assert forall|j: int| 0 <= j < currency_levels(balances@).len() implies (#[trigger] currency_levels(balances@)[j]).0 != currency@ by {
        assert(balances@[j].0@ != currency@);
    }
    false
}

/// Reported balances as values.
pub open spec fn currency_levels(balances: Seq<(CurrencyCode, Dec)>) -> Seq<(Seq<char>, int)> {
    balances.map_values(|b: (CurrencyCode, Dec)| (b.0@, b.1.value()))
}

/// The exchange balances of every account but one.
pub open spec fn without_account(
    m: Map<((Seq<char>, u8), Seq<char>), int>,
    account: (Seq<char>, u8),
) -> Map<((Seq<char>, u8), Seq<char>), int> {
    Map::new(|k: ((Seq<char>, u8), Seq<char>)| m.contains_key(k) && k.0 != account, |k| m[k])
}

/// Writes the reported balances of an account in order; of two with one currency
/// the later stands.
pub open spec fn reported_balances(
    m: Map<((Seq<char>, u8), Seq<char>), int>,
    account: (Seq<char>, u8),
    levels: Seq<(Seq<char>, int)>,
) -> Map<((Seq<char>, u8), Seq<char>), int>
    decreases levels.len(),
{
    if levels.len() == 0 {
        m
    } else {
        reported_balances(m, account, levels.drop_last()).insert(
            (account, levels.last().0),
            levels.last().1,
        )
    }
}

/// The virtual diff with the account's leaves of reported currencies set to zero.
pub open spec fn diff_cleared(
    d: Map<LeafView, int>,
    account: (Seq<char>, u8),
    levels: Seq<(Seq<char>, int)>,
) -> Map<LeafView, int> {
    Map::new(
        |k: LeafView| d.contains_key(k),
        |k: LeafView|
            if k.0 == account && currency_reported(levels, k.2) {
                0
            } else {
                d[k]
            },
    )
}

spec fn diff_cleared_upto(
    d: Map<LeafView, int>,
    account: (Seq<char>, u8),
    levels: Seq<(Seq<char>, int)>,
    leaves: Seq<(LeafView, int)>,
    n: int,
) -> Map<LeafView, int> {
    Map::new(
        |k: LeafView| d.contains_key(k),
        |k: LeafView|
            if k.0 == account && currency_reported(levels, k.2) && exists|q: int|
                0 <= q < n && #[trigger] leaves[q].0 == k {
                0
            } else {
                d[k]
            },
    )
}

/// The reservation that a granted request creates.
pub open spec fn new_reservation_view(request: &ReserveRequest, id: u64) -> ReservationView {
    ReservationView {
        id,
        account: request.exchange_account_id@,
        pair: request.currency_pair@,
        currency: request.currency@,
        side: request.side,
        price: request.price.value(),
        requested: request.amount.value(),
        filled: 0,
        unreserved: 0,
        still: request.amount.value(),
        created_at: request.now,
    }
}

} // verus!
