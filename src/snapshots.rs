use vstd::prelude::*;

use crate::decimal::Dec;
use crate::ids::{CurrencyPair, ExchangeAccountId, MarketAccountId, MarketId};
use crate::keyed::{ExactKey, KeyedList};
use crate::order_book::{
    apply_levels_spec, lemma_update_sets_last_level, levels_non_negative, levels_view, LadderSide,
    PriceLadder,
};

verus! {

/// The two lists of `(price, amount)` levels that an order book event carries.
pub struct OrderBookData {
    pub asks: Vec<(Dec, Dec)>,
    pub bids: Vec<(Dec, Dec)>,
}

/// A snapshot as exact values: asks, bids, and the time of its last update.
pub type SnapshotView = (Map<int, int>, Map<int, int>, i64);

impl OrderBookData {
    pub fn new(asks: Vec<(Dec, Dec)>, bids: Vec<(Dec, Dec)>) -> (r: OrderBookData)
        ensures
            r.asks@ == asks@,
            r.bids@ == bids@,
    {
        OrderBookData { asks, bids }
    }

    /// No level carries a negative amount.
    pub open spec fn wf(&self) -> bool {
        levels_non_negative(self.asks@) && levels_non_negative(self.bids@)
    }

    /// A fresh snapshot holding these levels; levels with a zero amount are left out.
    pub fn to_local_order_book_snapshot(&self) -> (r: LocalOrderBookSnapshot)
        requires
            self.wf(),
        ensures
            r@ == (
                apply_levels_spec(Map::empty(), levels_view(self.asks@)),
                apply_levels_spec(Map::empty(), levels_view(self.bids@)),
                0i64,
            ),
            r.wf(),
    {
        let mut asks = PriceLadder::new(LadderSide::Ask);
        asks.apply_levels(&self.asks);
        let mut bids = PriceLadder::new(LadderSide::Bid);
        bids.apply_levels(&self.bids);
        LocalOrderBookSnapshot { asks, bids, last_update_time: 0 }
    }
}

/// The local depth of one market.
pub struct LocalOrderBookSnapshot {
    pub asks: PriceLadder,
    pub bids: PriceLadder,
    /// Milliseconds since the Unix epoch.
    pub last_update_time: i64,
}

impl View for LocalOrderBookSnapshot {
    type V = SnapshotView;

    open spec fn view(&self) -> SnapshotView {
        (self.asks@, self.bids@, self.last_update_time)
    }
}

impl LocalOrderBookSnapshot {
    /// The ask ladder holds asks and the bid ladder bids.
    pub open spec fn wf(&self) -> bool {
        self.asks.side_spec() == LadderSide::Ask && self.bids.side_spec() == LadderSide::Bid
    }

    /// Applies an incremental update: each side's levels in order, with a zero
    /// amount removing its price, and records the update's time.
    pub fn apply_update(&mut self, data: &OrderBookData, time: i64)
        requires
            data.wf(),
        ensures
            final(self)@ == (
                apply_levels_spec(old(self)@.0, levels_view(data.asks@)),
                apply_levels_spec(old(self)@.1, levels_view(data.bids@)),
                time,
            ),
            final(self).asks.side_spec() == old(self).asks.side_spec(),
            final(self).bids.side_spec() == old(self).bids.side_spec(),
    {
        self.asks.apply_levels(&data.asks);
        self.bids.apply_levels(&data.bids);
        self.last_update_time = time;
    }

    /// The highest bid, if there is one.
    pub fn top_bid(&self) -> (r: Option<(Dec, Dec)>)
        requires
            self.wf(),
        ensures
            r is None <==> self@.1.len() == 0,
            r matches Some(l) ==> self@.1.contains_key(l.0.value()) && self@.1[l.0.value()]
                == l.1.value() && forall|p: int| #[trigger]
                self@.1.contains_key(p) ==> p <= l.0.value(),
    {
        self.bids.best()
    }

    /// The lowest ask, if there is one.
    pub fn top_ask(&self) -> (r: Option<(Dec, Dec)>)
        requires
            self.wf(),
        ensures
            r is None <==> self@.0.len() == 0,
            r matches Some(l) ==> self@.0.contains_key(l.0.value()) && self@.0[l.0.value()]
                == l.1.value() && forall|p: int| #[trigger]
                self@.0.contains_key(p) ==> p >= l.0.value(),
    {
        self.asks.best()
    }
}

/// Whether an event replaces a market's depth or changes it.
#[derive(Clone, Copy, Debug, PartialEq, Eq, Structural)]
pub enum EventType {
    Snapshot,
    Update,
}

/// An order book event of one market, as an exchange feed delivers it.
pub struct OrderBookEvent {
    /// Milliseconds since the Unix epoch.
    pub creation_time: i64,
    pub exchange_account_id: ExchangeAccountId,
    pub currency_pair: CurrencyPair,
    pub event_id: String,
    pub event_type: EventType,
    pub data: OrderBookData,
}

impl OrderBookEvent {
    pub fn new(
        creation_time: i64,
        exchange_account_id: ExchangeAccountId,
        currency_pair: CurrencyPair,
        event_id: String,
        event_type: EventType,
        data: OrderBookData,
    ) -> (r: OrderBookEvent)
        ensures
            r.creation_time == creation_time,
            r.exchange_account_id@ == exchange_account_id@,
            r.currency_pair@ == currency_pair@,
            r.event_id@ == event_id@,
            r.event_type == event_type,
            r.data.asks@ == data.asks@,
            r.data.bids@ == data.bids@,
    {
        OrderBookEvent {
            creation_time,
            exchange_account_id,
            currency_pair,
            event_id,
            event_type,
            data,
        }
    }

    pub fn market_account_id(&self) -> (r: MarketAccountId)
        ensures
            r@ == (self.exchange_account_id@, self.currency_pair@),
    {
        MarketAccountId::new(self.exchange_account_id.copy_key(), self.currency_pair.copy_key())
    }
}

/// The market that an event belongs to, as a key.
pub open spec fn event_market(event: OrderBookEvent) -> (Seq<char>, (Seq<char>, Seq<char>)) {
    (event.exchange_account_id@.0, event.currency_pair@)
}

/// The snapshots of all markets, keyed by market.
pub type StoreView = Map<(Seq<char>, (Seq<char>, Seq<char>)), SnapshotView>;

/// Whether an event changes the store: a snapshot always does, an update only
/// for a market that has a snapshot.
pub open spec fn event_applies(m: StoreView, event: OrderBookEvent) -> bool {
    event.event_type == EventType::Snapshot || m.contains_key(event_market(event))
}

/// The store after an event: a snapshot replaces the market's depth with its
/// levels; an update applies its levels to the market's depth and stamps its time;
/// an update for a market without a snapshot leaves the store as it was.
pub open spec fn store_after_event(m: StoreView, event: OrderBookEvent) -> StoreView {
    let key = event_market(event);
    let asks = levels_view(event.data.asks@);
    let bids = levels_view(event.data.bids@);
    if event.event_type == EventType::Snapshot {
        m.insert(
            key,
            (
                apply_levels_spec(Map::empty(), asks),
                apply_levels_spec(Map::empty(), bids),
                event.creation_time,
            ),
        )
    } else if m.contains_key(key) {
        m.insert(
            key,
            (apply_levels_spec(m[key].0, asks), apply_levels_spec(m[key].1, bids), event.creation_time),
        )
    } else {
        m
    }
}

/// The levels of one side of an event, as values.
pub open spec fn event_levels(event: OrderBookEvent, asks: bool) -> Seq<(int, int)> {
    if asks {
        levels_view(event.data.asks@)
    } else {
        levels_view(event.data.bids@)
    }
}

/// One side of a snapshot: the asks or the bids.
pub open spec fn ladder_of(s: SnapshotView, asks: bool) -> Map<int, int> {
    if asks {
        s.0
    } else {
        s.1
    }
}

/// An update event for a market with a snapshot sets each price to the amount of
/// its last level in the event, on either side: a zero amount leaves the price
/// out of the ladder, any other amount stands in it.
pub proof fn lemma_update_event_sets_levels(m: StoreView, event: OrderBookEvent, i: int, asks: bool)
    requires
        event.event_type == EventType::Update,
        m.contains_key(event_market(event)),
        0 <= i < event_levels(event, asks).len(),
        forall|j: int|
            i < j < event_levels(event, asks).len() ==> (#[trigger] event_levels(event, asks)[j]).0
                != event_levels(event, asks)[i].0,
    ensures
        event_levels(event, asks)[i].1 == 0 ==> !ladder_of(
            store_after_event(m, event)[event_market(event)],
            asks,
        ).contains_key(event_levels(event, asks)[i].0),
        event_levels(event, asks)[i].1 != 0 ==> ladder_of(
            store_after_event(m, event)[event_market(event)],
            asks,
        ).contains_key(event_levels(event, asks)[i].0) && ladder_of(
            store_after_event(m, event)[event_market(event)],
            asks,
        )[event_levels(event, asks)[i].0] == event_levels(event, asks)[i].1,
{
    let key = event_market(event);
    lemma_update_sets_last_level(ladder_of(m[key], asks), event_levels(event, asks), i);
}

/// An update event for a market without a snapshot changes nothing and is not applied.
pub proof fn lemma_update_without_snapshot_is_dropped(m: StoreView, event: OrderBookEvent)
    requires
        event.event_type == EventType::Update,
        !m.contains_key(event_market(event)),
    ensures
        store_after_event(m, event) == m,
        !event_applies(m, event),
{
}

/// Keeps the current local depth of each market, following the order book events
/// in the order in which they are handled.
pub struct LocalSnapshotsService {
    local_snapshots: KeyedList<MarketId, LocalOrderBookSnapshot>,
}

impl View for LocalSnapshotsService {
    type V = StoreView;

    closed spec fn view(&self) -> Self::V {
        self.local_snapshots.map()
    }
}

impl LocalSnapshotsService {
    #[verifier::type_invariant]
    spec fn inv(&self) -> bool {
        self.local_snapshots.wf()
    }

    pub fn new(local_snapshots: KeyedList<MarketId, LocalOrderBookSnapshot>) -> (r:
        LocalSnapshotsService)
        requires
            local_snapshots.wf(),
        ensures
            r@ == local_snapshots.map(),
    {
        LocalSnapshotsService { local_snapshots }
    }

    pub fn get_snapshot(&self, market_id: MarketId) -> (r: Option<&LocalOrderBookSnapshot>)
        ensures
            r is Some <==> self@.contains_key(market_id@),
            r matches Some(s) ==> s@ == self@[market_id@],
    {
        proof {
            use_type_invariant(self);
        }
        self.local_snapshots.get(&market_id)
    }

    /// The snapshot of a market that is known to have one.
    pub fn get_snapshot_expected(&self, market_id: MarketId) -> (r: &LocalOrderBookSnapshot)
        requires
            self@.contains_key(market_id@),
        ensures
            r@ == self@[market_id@],
    {
        proof {
            use_type_invariant(self);
        }
        let i = self.local_snapshots.find(&market_id).unwrap();
        proof {
            self.local_snapshots.lemma_entries();
        }
        self.local_snapshots.value_at(i)
    }

    /// Handles one event. A snapshot event replaces the market's depth and yields
    /// its market account id. An update event changes the depth of a market that
    /// already has a snapshot and yields the id; for any other market it is dropped,
    /// nothing changes, and `None` comes back.
    pub fn update(&mut self, event: OrderBookEvent) -> (r: Option<MarketAccountId>)
        requires
            event.data.wf(),
        ensures
            final(self)@ == store_after_event(old(self)@, event),
            r is Some <==> event_applies(old(self)@, event),
            r matches Some(id) ==> id@ == (event.exchange_account_id@, event.currency_pair@),
    {
        proof {
            use_type_invariant(&*self);
        }
        let market_account_id = event.market_account_id();
        let market_id = market_account_id.market_id();
        let mut list: KeyedList<MarketId, LocalOrderBookSnapshot> = KeyedList::new();
        std::mem::swap(&mut list, &mut self.local_snapshots);
        let r = match event.event_type {
            EventType::Snapshot => {
                let mut snapshot = event.data.to_local_order_book_snapshot();
                snapshot.last_update_time = event.creation_time;
                list.insert(market_id, snapshot);
                Some(market_account_id)
            },
            EventType::Update => {
                match list.find(&market_id) {
                    Some(i) => {
                        let ghost before = list.map();
                        proof {
                            list.lemma_entries();
                        }
                        let (key, mut snapshot) = list.remove_at(i);
                        snapshot.apply_update(&event.data, event.creation_time);
                        list.insert(key, snapshot);
                        proof {
                            assert(list.map() =~= before.insert(market_id@, snapshot@));
                        }
                        Some(market_account_id)
                    },
                    None => None,
                }
            },
        };
        self.local_snapshots = list;
        r
    }
}

impl Default for LocalSnapshotsService {
    fn default() -> (r: LocalSnapshotsService)
        ensures
            r@ == Map::<(Seq<char>, (Seq<char>, Seq<char>)), SnapshotView>::empty(),
    {
        LocalSnapshotsService::new(KeyedList::new())
    }
}

} // verus!
