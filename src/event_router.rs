use vstd::prelude::*;

use crate::ids::MarketAccountId;
use crate::snapshots::{
    event_applies, store_after_event, EventType, LocalSnapshotsService, OrderBookEvent, StoreView,
};

verus! {

/// What became of an event handed to the router.
pub enum EnqueueOutcome {
    /// The event was queued.
    Accepted,
    /// The queue was full: the oldest queued update, or the incoming update where
    /// none was queued, was dropped. The feed should send a fresh snapshot of
    /// `resync`'s market.
    DroppedUpdate { resync: MarketAccountId },
    /// The queue was full of snapshots: the incoming snapshot comes back, and the
    /// feed waits before handing it over again.
    Full(OrderBookEvent),
}

/// Whether every queued event has non-negative amounts.
pub open spec fn queue_wf(q: Seq<OrderBookEvent>) -> bool {
    forall|i: int| 0 <= i < q.len() ==> (#[trigger] q[i]).data.wf()
}

/// Position `i` holds the oldest queued update.
pub open spec fn is_oldest_update(q: Seq<OrderBookEvent>, i: int) -> bool {
    &&& 0 <= i < q.len()
    &&& q[i].event_type == EventType::Update
    &&& forall|j: int| 0 <= j < i ==> (#[trigger] q[j]).event_type == EventType::Snapshot
}

/// Delivers order book events to the snapshot store one at a time, in the order
/// in which they arrived, through a queue of bounded capacity.
pub struct EventRouter {
    store: LocalSnapshotsService,
    queue: Vec<OrderBookEvent>,
    capacity: usize,
}

impl EventRouter {
    pub closed spec fn queue_spec(&self) -> Seq<OrderBookEvent> {
        self.queue@
    }

    pub closed spec fn store_spec(&self) -> StoreView {
        self.store@
    }

    pub closed spec fn capacity_spec(&self) -> usize {
        self.capacity
    }

    pub closed spec fn wf(&self) -> bool {
        &&& 0 < self.capacity
        &&& self.queue@.len() <= self.capacity
        &&& queue_wf(self.queue@)
    }

    pub fn new(store: LocalSnapshotsService, capacity: usize) -> (r: EventRouter)
        requires
            capacity > 0,
        ensures
            r.wf(),
            r.store_spec() == store@,
            r.queue_spec() == Seq::<OrderBookEvent>::empty(),
            r.capacity_spec() == capacity,
    {
        EventRouter { store, queue: Vec::new(), capacity }
    }

    pub fn store(&self) -> (r: &LocalSnapshotsService)
        ensures
            r@ == self.store_spec(),
    {
        &self.store
    }

    pub fn queued(&self) -> (r: usize)
        ensures
            r == self.queue_spec().len(),
    {
        self.queue.len()
    }

    /// Queues an event. When the queue is full, the oldest queued update makes
    /// room; with no update queued, an incoming update is dropped and an incoming
    /// snapshot is handed back.
    pub fn enqueue(&mut self, event: OrderBookEvent) -> (r: EnqueueOutcome)
        requires
            old(self).wf(),
            event.data.wf(),
        ensures
            final(self).wf(),
            final(self).store_spec() == old(self).store_spec(),
            final(self).capacity_spec() == old(self).capacity_spec(),
            old(self).queue_spec().len() < old(self).capacity_spec() ==> r is Accepted
                && final(self).queue_spec() == old(self).queue_spec().push(event),
            old(self).queue_spec().len() == old(self).capacity_spec() && (exists|i: int|
                is_oldest_update(old(self).queue_spec(), i)) ==> exists|i: int|
                is_oldest_update(old(self).queue_spec(), i) && final(self).queue_spec() == old(
                    self,
                ).queue_spec().remove(i).push(event) && (r matches EnqueueOutcome::DroppedUpdate {
                    resync,
                } && resync@ == (
                    old(self).queue_spec()[i].exchange_account_id@,
                    old(self).queue_spec()[i].currency_pair@,
                )),
            old(self).queue_spec().len() == old(self).capacity_spec() && !(exists|i: int|
                is_oldest_update(old(self).queue_spec(), i)) ==> final(self).queue_spec() == old(
                self,
            ).queue_spec() && (event.event_type == EventType::Update ==> (r matches EnqueueOutcome::DroppedUpdate {
                resync,
            } && resync@ == (event.exchange_account_id@, event.currency_pair@)))
                && (event.event_type == EventType::Snapshot ==> r == EnqueueOutcome::Full(event)),
    {
        if self.queue.len() < self.capacity {
            self.queue.push(event);
            return EnqueueOutcome::Accepted;
        }
        let n = self.queue.len();
        let mut i: usize = 0;
        while i < n
            invariant
                n == self.queue@.len(),
                i <= n,
                forall|j: int| 0 <= j < i ==> (#[trigger] self.queue@[j]).event_type
                    == EventType::Snapshot,
            ensures
                i <= n,
                i < n ==> self.queue@[i as int].event_type == EventType::Update,
                forall|j: int| 0 <= j < i ==> (#[trigger] self.queue@[j]).event_type
                    == EventType::Snapshot,
            decreases n - i,
        {
            if self.queue[i].event_type == EventType::Update {
                break;
            }
            i = i + 1;
        }
        if i < n {
            let ghost q = self.queue@;
            assert(is_oldest_update(q, i as int));
            let dropped = self.queue.remove(i);
            let resync = dropped.market_account_id();
            self.queue.push(event);
            proof {
                assert forall|j: int| 0 <= j < self.queue@.len() implies (#[trigger] self.queue@[j]).data.wf() by {
                    if j < i {
                        assert(self.queue@[j] == q[j]);
                    } else if j < n - 1 {
                        assert(self.queue@[j] == q[j + 1]);
                    }
                }
            }
            EnqueueOutcome::DroppedUpdate { resync }
        } else {
            assert(!(exists|k: int| is_oldest_update(self.queue@, k))) by {
                if exists|k: int| is_oldest_update(self.queue@, k) {
                    let k = choose|k: int| is_oldest_update(self.queue@, k);
                    assert(self.queue@[k].event_type == EventType::Snapshot);
                }
            }
            match event.event_type {
                EventType::Update => EnqueueOutcome::DroppedUpdate { resync: event.market_account_id() },
                EventType::Snapshot => EnqueueOutcome::Full(event),
            }
        }
    }

    /// Hands the oldest queued event to the store and yields its market account id
    /// where the store applied it, for observers to be told after the store changed.
    pub fn dispatch_next(&mut self) -> (r: Option<MarketAccountId>)
        requires
            old(self).wf(),
        ensures
            final(self).wf(),
            final(self).capacity_spec() == old(self).capacity_spec(),
            old(self).queue_spec().len() == 0 ==> r is None && final(self).queue_spec() == old(
                self,
            ).queue_spec() && final(self).store_spec() == old(self).store_spec(),
            old(self).queue_spec().len() > 0 ==> {
                let e = old(self).queue_spec()[0];
                &&& final(self).queue_spec() == old(self).queue_spec().drop_first()
                &&& final(self).store_spec() == store_after_event(old(self).store_spec(), e)
                &&& (r is Some <==> event_applies(old(self).store_spec(), e))
                &&& (r matches Some(id) ==> id@ == (e.exchange_account_id@, e.currency_pair@))
            },
    {
        if self.queue.len() == 0 {
            return None;
        }
        let ghost q = self.queue@;
        let event = self.queue.remove(0);
        proof {
            assert(self.queue@ =~= q.drop_first());
            assert(q[0].data.wf());
            assert forall|j: int| 0 <= j < self.queue@.len() implies (#[trigger] self.queue@[j]).data.wf() by {
                assert(self.queue@[j] == q[j + 1]);
            }
        }
        self.store.update(event)
    }
}

} // verus!
