use vstd::prelude::*;

use crate::decimal::Dec;
use crate::ids::{CurrencyCode, CurrencyPair, ExchangeAccountId, MarketAccountId};
use crate::keyed::{ExactKey, KeyedList};
use crate::value_tree::{LeafView, ServiceValueTree};

verus! {

/// Identifies a balance reservation; identifiers are handed out in increasing order.
#[derive(Clone, Copy, Debug, PartialEq, Eq, Hash, Structural)]
pub struct ReservationId {
    pub id: u64,
}

impl View for ReservationId {
    type V = u64;

    open spec fn view(&self) -> u64 {
        self.id
    }
}

impl ExactKey for ReservationId {
    fn same_key(&self, o: &Self) -> (r: bool) {
        self.id == o.id
    }

    fn copy_key(&self) -> (r: Self) {
        *self
    }
}

#[derive(Clone, Copy, Debug, PartialEq, Eq, Structural)]
pub enum OrderSide {
    Buy,
    Sell,
}

/// A reservation as values.
pub struct ReservationView {
    pub id: u64,
    pub account: (Seq<char>, u8),
    pub pair: (Seq<char>, Seq<char>),
    pub currency: Seq<char>,
    pub side: OrderSide,
    pub price: int,
    pub requested: int,
    pub filled: int,
    pub unreserved: int,
    pub still: int,
    pub created_at: i64,
}

impl ReservationView {
    /// What is still held back: what was asked for, less what was filled and what
    /// was given back.
    pub open spec fn still_reserved(self) -> int {
        self.still
    }

    /// The leaf of the reserved-amount tree that the reservation counts toward.
    pub open spec fn leaf(self) -> LeafView {
        (self.account, self.pair, self.currency)
    }

    /// Amounts are never negative, and what was asked for is what was filled, what
    /// was given back and what is still held back.
    pub open spec fn valid(self) -> bool {
        &&& self.filled >= 0
        &&& self.unreserved >= 0
        &&& self.still >= 0
        &&& self.requested == self.filled + self.unreserved + self.still
    }
}

/// An intent to spend an amount of a currency at an exchange account. All of its
/// amounts are in `currency`.
pub struct BalanceReservation {
    pub id: ReservationId,
    pub exchange_account_id: ExchangeAccountId,
    pub currency_pair: CurrencyPair,
    pub currency: CurrencyCode,
    pub side: OrderSide,
    pub price: Dec,
    pub amount_requested: Dec,
    pub amount_filled: Dec,
    pub amount_unreserved_or_cancelled: Dec,
    /// What is still held back: the request less what was filled and given back.
    pub amount_still_reserved: Dec,
    /// Milliseconds since the Unix epoch.
    pub created_at: i64,
}

impl View for BalanceReservation {
    type V = ReservationView;

    open spec fn view(&self) -> ReservationView {
        ReservationView {
            id: self.id.id,
            account: self.exchange_account_id@,
            pair: self.currency_pair@,
            currency: self.currency@,
            side: self.side,
            price: self.price.value(),
            requested: self.amount_requested.value(),
            filled: self.amount_filled.value(),
            unreserved: self.amount_unreserved_or_cancelled.value(),
            still: self.amount_still_reserved.value(),
            created_at: self.created_at,
        }
    }
}

impl BalanceReservation {
    /// The same reservation with other filled and given-back amounts.
    pub fn with_amounts(
        &self,
        amount_filled: Dec,
        amount_unreserved_or_cancelled: Dec,
        amount_still_reserved: Dec,
    ) -> (r: BalanceReservation)
        ensures
            r@ == (ReservationView {
                filled: amount_filled.value(),
                unreserved: amount_unreserved_or_cancelled.value(),
                still: amount_still_reserved.value(),
                ..self@
            }),
    {
        BalanceReservation {
            id: self.id,
            exchange_account_id: self.exchange_account_id.copy_key(),
            currency_pair: self.currency_pair.copy_key(),
            currency: self.currency.copy_key(),
            side: self.side,
            price: self.price,
            amount_requested: self.amount_requested,
            amount_filled,
            amount_unreserved_or_cancelled,
            amount_still_reserved,
            created_at: self.created_at,
        }
    }

    pub fn amount_still_reserved(&self) -> (r: Dec)
        ensures
            r.value() == self@.still_reserved(),
    {
        self.amount_still_reserved
    }
}

/// A fill as values.
pub struct FillView {
    pub price: int,
    pub filled: int,
    pub commission_currency: Seq<char>,
    pub commission: int,
    pub side: OrderSide,
}

/// A fill of an order: `filled_amount` of the base currency at `price`, with a
/// commission taken in `commission_currency`.
pub struct OrderFill {
    pub price: Dec,
    pub filled_amount: Dec,
    pub commission_currency: CurrencyCode,
    pub commission_amount: Dec,
    pub trade_side: OrderSide,
}

impl View for OrderFill {
    type V = FillView;

    open spec fn view(&self) -> FillView {
        FillView {
            price: self.price.value(),
            filled: self.filled_amount.value(),
            commission_currency: self.commission_currency@,
            commission: self.commission_amount.value(),
            side: self.trade_side,
        }
    }
}

impl OrderFill {
    pub fn copy_fill(&self) -> (r: OrderFill)
        ensures
            r@ == self@,
    {
        OrderFill {
            price: self.price,
            filled_amount: self.filled_amount,
            commission_currency: self.commission_currency.copy_key(),
            commission_amount: self.commission_amount,
            trade_side: self.trade_side,
        }
    }
}

/// What the outstanding reservations of a list hold back on one leaf.
pub open spec fn reserved_by(s: Seq<(u64, ReservationView)>, k: LeafView) -> int
    decreases s.len(),
{
    if s.len() == 0 {
        0
    } else {
        reserved_by(s.drop_last(), k) + if s.last().1.leaf() == k {
            s.last().1.still_reserved()
        } else {
            0
        }
    }
}

/// Every leaf of the reserved-amount tree equals what the reservations hold back on it.
pub open spec fn conserved(reserved: Map<LeafView, int>, s: Seq<(u64, ReservationView)>) -> bool {
    forall|k: LeafView| #[trigger] reserved_by(s, k) == (if reserved.contains_key(k) {
        reserved[k]
    } else {
        0
    })
}

pub proof fn lemma_reserved_by_push(s: Seq<(u64, ReservationView)>, e: (u64, ReservationView), k: LeafView)
    ensures
        reserved_by(s.push(e), k) == reserved_by(s, k) + if e.1.leaf() == k {
            e.1.still_reserved()
        } else {
            0
        },
{
    assert(s.push(e).drop_last() =~= s);
}

pub proof fn lemma_reserved_by_update(
    s: Seq<(u64, ReservationView)>,
    i: int,
    e: (u64, ReservationView),
    k: LeafView,
)
    requires
        0 <= i < s.len(),
    ensures
        reserved_by(s.update(i, e), k) == reserved_by(s, k) - (if s[i].1.leaf() == k {
            s[i].1.still_reserved()
        } else {
            0
        }) + (if e.1.leaf() == k {
            e.1.still_reserved()
        } else {
            0
        }),
    decreases s.len(),
{
    if i < s.len() - 1 {
        lemma_reserved_by_update(s.drop_last(), i, e, k);
        assert(s.update(i, e).drop_last() =~= s.drop_last().update(i, e));
    } else {
        assert(s.update(i, e).drop_last() =~= s.drop_last());
    }
}

pub proof fn lemma_reserved_by_remove(s: Seq<(u64, ReservationView)>, i: int, k: LeafView)
    requires
        0 <= i < s.len(),
    ensures
        reserved_by(s.remove(i), k) == reserved_by(s, k) - (if s[i].1.leaf() == k {
            s[i].1.still_reserved()
        } else {
            0
        }),
    decreases s.len(),
{
    if i < s.len() - 1 {
        lemma_reserved_by_remove(s.drop_last(), i, k);
        assert(s.remove(i).drop_last() =~= s.drop_last().remove(i));
    } else {
        assert(s.remove(i) =~= s.drop_last());
    }
}

/// With valid reservations, a leaf holds back at least what any one of its
/// reservations does.
pub proof fn lemma_reserved_by_covers(s: Seq<(u64, ReservationView)>, i: int)
    requires
        0 <= i < s.len(),
        forall|j: int| 0 <= j < s.len() ==> (#[trigger] s[j]).1.valid(),
    ensures
        reserved_by(s, s[i].1.leaf()) >= s[i].1.still_reserved(),
    decreases s.len(),
{
    lemma_reserved_by_non_negative(s.drop_last(), s[i].1.leaf());
    if i < s.len() - 1 {
        lemma_reserved_by_covers(s.drop_last(), i);
    }
    assert(s.last() == s[s.len() - 1]);
}

pub proof fn lemma_reserved_by_non_negative(s: Seq<(u64, ReservationView)>, k: LeafView)
    requires
        forall|j: int| 0 <= j < s.len() ==> (#[trigger] s[j]).1.valid(),
    ensures
        reserved_by(s, k) >= 0,
    decreases s.len(),
{
    if s.len() > 0 {
        assert forall|j: int| 0 <= j < s.drop_last().len() implies (#[trigger] s.drop_last()[j]).1.valid() by {
            assert(s.drop_last()[j] == s[j]);
        }
        lemma_reserved_by_non_negative(s.drop_last(), k);
        assert(s.last() == s[s.len() - 1]);
    }
}

/// The balances, reservations, positions and limits that reservations are
/// arbitrated over, with a version that every change advances.
pub struct Balances {
    pub version: u64,
    /// Milliseconds since the Unix epoch.
    pub init_time: i64,
    pub balances_by_exchange_id: KeyedList<(ExchangeAccountId, CurrencyCode), Dec>,
    pub virtual_diff_balances: ServiceValueTree,
    /// In the currency of each leaf.
    pub reserved_amount: ServiceValueTree,
    /// Signed base-currency position per account and pair.
    pub position_by_fill_amount: KeyedList<(ExchangeAccountId, CurrencyPair), Dec>,
    pub amount_limits: ServiceValueTree,
    pub balance_reservations_by_reservation_id: KeyedList<ReservationId, BalanceReservation>,
    pub last_order_fills: KeyedList<MarketAccountId, OrderFill>,
}

impl Balances {
    pub fn new(
        balances_by_exchange_id: KeyedList<(ExchangeAccountId, CurrencyCode), Dec>,
        init_time: i64,
        virtual_diff_balances: ServiceValueTree,
        reserved_amount: ServiceValueTree,
        position_by_fill_amount: KeyedList<(ExchangeAccountId, CurrencyPair), Dec>,
        amount_limits: ServiceValueTree,
        balance_reservations_by_reservation_id: KeyedList<ReservationId, BalanceReservation>,
    ) -> (r: Balances)
        ensures
            r.version == 1,
            r.init_time == init_time,
            r.balances_by_exchange_id == balances_by_exchange_id,
            r.virtual_diff_balances == virtual_diff_balances,
            r.reserved_amount == reserved_amount,
            r.position_by_fill_amount == position_by_fill_amount,
            r.amount_limits == amount_limits,
            r.balance_reservations_by_reservation_id == balance_reservations_by_reservation_id,
            r.last_order_fills.wf(),
            r.last_order_fills.map() == Map::<
                ((Seq<char>, u8), (Seq<char>, Seq<char>)),
                FillView,
            >::empty(),
    {
        Balances {
            version: Balances::get_current_version(),
            init_time,
            balances_by_exchange_id,
            virtual_diff_balances,
            reserved_amount,
            position_by_fill_amount,
            amount_limits,
            balance_reservations_by_reservation_id,
            last_order_fills: KeyedList::new(),
        }
    }

    /// The version that fresh balances start at.
    pub fn get_current_version() -> (r: u64)
        ensures
            r == 1,
    {
        1
    }
}

} // verus!
