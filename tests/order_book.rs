use mmb_engine::decimal::Dec;
use mmb_engine::ids::{CurrencyCode, CurrencyPair, ExchangeAccountId, MarketAccountId};
use mmb_engine::keyed::KeyedList;
use mmb_engine::order_book::{LadderSide, PriceLadder};
use mmb_engine::snapshots::{EventType, LocalSnapshotsService, OrderBookData, OrderBookEvent};

fn d(mantissa: i64, scale: u32) -> Dec {
    Dec::from_parts(mantissa, scale)
}

fn pair() -> CurrencyPair {
    CurrencyPair::from_codes(CurrencyCode::new("base"), CurrencyCode::new("quote"))
}

fn create_order_book_event_for_tests(
    exchange_id: &str,
    currency_pair: CurrencyPair,
    event_type: EventType,
    order_book_data: OrderBookData,
) -> OrderBookEvent {
    OrderBookEvent::new(
        1_700_000_000_000,
        ExchangeAccountId::new(exchange_id, 0),
        currency_pair,
        String::new(),
        event_type,
        order_book_data,
    )
}

#[test]
fn update_by_full_snapshot() {
    let local_snapshots = KeyedList::new();
    let mut snapshot_controller = LocalSnapshotsService::new(local_snapshots);

    let order_book_data = OrderBookData::new(
        vec![(d(10, 1), d(21, 1)), (d(30, 1), d(42, 1))],
        vec![(d(29, 1), d(78, 1)), (d(34, 1), d(12, 1))],
    );
    let order_book_event = create_order_book_event_for_tests(
        "does_not_matter",
        pair(),
        EventType::Snapshot,
        order_book_data,
    );

    let market_account_id = snapshot_controller.update(order_book_event).expect("in test");

    let updated_asks = &snapshot_controller
        .get_snapshot(market_account_id.market_id())
        .expect("in test")
        .asks;
    let updated_bids = &snapshot_controller
        .get_snapshot(market_account_id.market_id())
        .expect("in test")
        .bids;

    assert_eq!(updated_asks.get(&d(10, 1)), Some(d(21, 1)));
    assert_eq!(updated_asks.get(&d(30, 1)), Some(d(42, 1)));
    assert_eq!(updated_bids.get(&d(29, 1)), Some(d(78, 1)));
    assert_eq!(updated_bids.get(&d(34, 1)), Some(d(12, 1)));
}

#[test]
fn update_if_no_such_snapshot() {
    let local_snapshots = KeyedList::new();
    let mut snapshot_service = LocalSnapshotsService::new(local_snapshots);

    let order_book_data = OrderBookData::new(
        vec![(d(10, 1), d(21, 1)), (d(30, 1), d(42, 1))],
        vec![(d(29, 1), d(78, 1)), (d(34, 1), d(12, 1))],
    );
    let order_book_event = create_order_book_event_for_tests(
        "does_not_matter",
        pair(),
        EventType::Update,
        order_book_data,
    );

    let update_result = snapshot_service.update(order_book_event);

    assert!(update_result.is_none());
}

#[test]
fn successful_update() {
    let test_exchange_id = "exchange_id";
    let market_account_id =
        MarketAccountId::new(ExchangeAccountId::new(test_exchange_id, 0), pair());

    let primary_order_book_snapshot = OrderBookData::new(
        vec![(d(10, 1), d(1, 1)), (d(30, 1), d(42, 1))],
        vec![(d(29, 1), d(78, 1)), (d(34, 1), d(12, 1))],
    )
    .to_local_order_book_snapshot();

    let mut local_snapshots = KeyedList::new();
    local_snapshots.insert(market_account_id.market_id(), primary_order_book_snapshot);

    let mut snapshot_controller = LocalSnapshotsService::new(local_snapshots);

    let order_book_data = OrderBookData::new(
        vec![(d(10, 1), d(21, 1))],
        vec![(d(29, 1), d(78, 1)), (d(34, 1), d(0, 0))],
    );
    let order_book_event = create_order_book_event_for_tests(
        test_exchange_id,
        pair(),
        EventType::Update,
        order_book_data,
    );

    let market_id = snapshot_controller
        .update(order_book_event)
        .expect("in test")
        .market_id();

    let updated_asks = &snapshot_controller.get_snapshot(market_id.clone()).expect("in test").asks;
    let updated_bids = &snapshot_controller.get_snapshot(market_id).expect("in test").bids;

    // Updated
    assert_eq!(updated_asks.get(&d(10, 1)), Some(d(21, 1)));
    // Not updated
    assert_eq!(updated_asks.get(&d(30, 1)), Some(d(42, 1)));
    // Updated
    assert_eq!(updated_bids.get(&d(29, 1)), Some(d(78, 1)));
    // Deleted
    assert_eq!(updated_bids.get(&d(34, 1)), None);
}

#[test]
fn snapshot_then_update_keeps_untouched_levels() {
    let mut service = LocalSnapshotsService::default();
    let snapshot = OrderBookData::new(
        vec![(d(10, 1), d(21, 1)), (d(30, 1), d(42, 1))],
        vec![(d(29, 1), d(78, 1)), (d(34, 1), d(12, 1))],
    );
    service
        .update(create_order_book_event_for_tests("ex", pair(), EventType::Snapshot, snapshot))
        .expect("snapshot is applied");
    let update = OrderBookData::new(
        vec![(d(10, 1), d(21, 1))],
        vec![(d(29, 1), d(78, 1)), (d(34, 1), d(0, 0))],
    );
    let id = service
        .update(create_order_book_event_for_tests("ex", pair(), EventType::Update, update))
        .expect("update is applied");
    let snapshot = service.get_snapshot_expected(id.market_id());
    assert_eq!(snapshot.asks.len(), 2);
    assert_eq!(snapshot.bids.len(), 1);
    assert_eq!(snapshot.asks.get(&d(30, 1)), Some(d(42, 1)));
    assert_eq!(snapshot.bids.get(&d(34, 1)), None);
    assert_eq!(snapshot.last_update_time, 1_700_000_000_000);
}

#[test]
fn update_without_snapshot_changes_nothing() {
    let mut service = LocalSnapshotsService::default();
    let update = OrderBookData::new(vec![(d(1, 0), d(1, 0))], vec![]);
    let r = service.update(create_order_book_event_for_tests("ex", pair(), EventType::Update, update));
    assert!(r.is_none());
    let market = MarketAccountId::new(ExchangeAccountId::new("ex", 0), pair()).market_id();
    assert!(service.get_snapshot(market).is_none());
}

#[test]
fn snapshot_leaves_out_zero_levels() {
    let data = OrderBookData::new(vec![(d(1, 0), d(0, 0)), (d(2, 0), d(5, 0))], vec![]);
    let snapshot = data.to_local_order_book_snapshot();
    assert_eq!(snapshot.asks.get(&d(1, 0)), None);
    assert_eq!(snapshot.asks.get(&d(2, 0)), Some(d(5, 0)));
}

#[test]
fn duplicate_levels_take_the_last_amount() {
    let mut ladder = PriceLadder::new(LadderSide::Ask);
    ladder.apply_levels(&vec![(d(5, 0), d(1, 0)), (d(5, 0), d(3, 0))]);
    assert_eq!(ladder.get(&d(5, 0)), Some(d(3, 0)));
    ladder.apply_levels(&vec![(d(5, 0), d(2, 0)), (d(5, 0), d(0, 0))]);
    assert_eq!(ladder.get(&d(5, 0)), None);
    assert_eq!(ladder.len(), 0);
}

#[test]
fn best_levels_and_order_from_best() {
    let mut bids = PriceLadder::new(LadderSide::Bid);
    bids.apply_levels(&vec![(d(29, 1), d(78, 1)), (d(34, 1), d(12, 1)), (d(31, 1), d(1, 0))]);
    assert_eq!(bids.best(), Some((d(34, 1), d(12, 1))));
    assert_eq!(
        bids.levels_from_best(),
        vec![(d(34, 1), d(12, 1)), (d(31, 1), d(1, 0)), (d(29, 1), d(78, 1))]
    );

    let mut asks = PriceLadder::new(LadderSide::Ask);
    assert_eq!(asks.best(), None);
    asks.apply_levels(&vec![(d(30, 1), d(42, 1)), (d(10, 1), d(21, 1))]);
    assert_eq!(asks.best(), Some((d(10, 1), d(21, 1))));
    assert_eq!(asks.levels_from_best(), vec![(d(10, 1), d(21, 1)), (d(30, 1), d(42, 1))]);
}

#[test]
fn top_of_book_of_snapshot() {
    let snapshot = OrderBookData::new(
        vec![(d(30, 1), d(42, 1)), (d(10, 1), d(21, 1))],
        vec![(d(29, 1), d(78, 1)), (d(34, 1), d(12, 1))],
    )
    .to_local_order_book_snapshot();
    assert_eq!(snapshot.top_ask(), Some((d(10, 1), d(21, 1))));
    assert_eq!(snapshot.top_bid(), Some((d(34, 1), d(12, 1))));
}

use mmb_engine::event_router::{EnqueueOutcome, EventRouter};

fn snapshot_event(exchange: &str, ask: (i64, i64)) -> OrderBookEvent {
    create_order_book_event_for_tests(
        exchange,
        pair(),
        EventType::Snapshot,
        OrderBookData::new(vec![(d(ask.0, 0), d(ask.1, 0))], vec![]),
    )
}

fn update_event(exchange: &str, ask: (i64, i64)) -> OrderBookEvent {
    create_order_book_event_for_tests(
        exchange,
        pair(),
        EventType::Update,
        OrderBookData::new(vec![(d(ask.0, 0), d(ask.1, 0))], vec![]),
    )
}

#[test]
fn router_dispatches_in_arrival_order_per_market() {
    let mut router = EventRouter::new(LocalSnapshotsService::default(), 8);
    assert!(matches!(router.enqueue(snapshot_event("a", (10, 1))), EnqueueOutcome::Accepted));
    assert!(matches!(router.enqueue(snapshot_event("b", (20, 1))), EnqueueOutcome::Accepted));
    assert!(matches!(router.enqueue(update_event("a", (10, 0))), EnqueueOutcome::Accepted));
    assert!(matches!(router.enqueue(update_event("b", (21, 2))), EnqueueOutcome::Accepted));
    assert!(matches!(router.enqueue(update_event("a", (11, 3))), EnqueueOutcome::Accepted));
    while router.queued() > 0 {
        assert!(router.dispatch_next().is_some());
    }
    assert!(router.dispatch_next().is_none());

    let market_a = MarketAccountId::new(ExchangeAccountId::new("a", 0), pair()).market_id();
    let market_b = MarketAccountId::new(ExchangeAccountId::new("b", 0), pair()).market_id();
    let a = router.store().get_snapshot_expected(market_a);
    assert_eq!(a.asks.get(&d(10, 0)), None);
    assert_eq!(a.asks.get(&d(11, 0)), Some(d(3, 0)));
    let b = router.store().get_snapshot_expected(market_b);
    assert_eq!(b.asks.get(&d(20, 0)), Some(d(1, 0)));
    assert_eq!(b.asks.get(&d(21, 0)), Some(d(2, 0)));
}

#[test]
fn full_router_drops_oldest_update_and_keeps_snapshots() {
    let mut router = EventRouter::new(LocalSnapshotsService::default(), 2);
    assert!(matches!(router.enqueue(snapshot_event("a", (10, 1))), EnqueueOutcome::Accepted));
    assert!(matches!(router.enqueue(update_event("b", (10, 2))), EnqueueOutcome::Accepted));
    match router.enqueue(update_event("c", (10, 3))) {
        EnqueueOutcome::DroppedUpdate { resync } => {
            assert_eq!(resync.exchange_account_id.exchange_id, "b");
        }
        _ => panic!("the oldest update makes room"),
    }
    assert_eq!(router.queued(), 2);
    let mut full = EventRouter::new(LocalSnapshotsService::default(), 1);
    assert!(matches!(full.enqueue(snapshot_event("a", (1, 1))), EnqueueOutcome::Accepted));
    assert!(matches!(full.enqueue(snapshot_event("b", (1, 1))), EnqueueOutcome::Full(_)));
    match full.enqueue(update_event("c", (1, 1))) {
        EnqueueOutcome::DroppedUpdate { resync } => {
            assert_eq!(resync.exchange_account_id.exchange_id, "c");
        }
        _ => panic!("an update cannot displace a snapshot"),
    }
    assert_eq!(full.queued(), 1);
}
