use mmb_engine::balance::{Balances, OrderFill, OrderSide, ReservationId};
use mmb_engine::balance_manager::{
    BalanceManager, FillFailure, ReservationIdAllocator, ReserveFailure, ReserveRequest,
    UnreserveFailure,
};
use mmb_engine::decimal::Dec;
use mmb_engine::ids::{CurrencyCode, CurrencyPair, ExchangeAccountId, MarketAccountId};
use mmb_engine::keyed::KeyedList;
use mmb_engine::value_tree::ServiceValueTree;

fn d(mantissa: i64, scale: u32) -> Dec {
    Dec::from_parts(mantissa, scale)
}

fn max_dec() -> Dec {
    Dec::try_from_parts(79_228_162_514_264_337_593_543_950_335, 0).expect("largest decimal")
}

fn account() -> ExchangeAccountId {
    ExchangeAccountId::new("binance", 0)
}

fn btc_usdt() -> CurrencyPair {
    CurrencyPair::from_codes(CurrencyCode::new("BTC"), CurrencyCode::new("USDT"))
}

fn usdt() -> CurrencyCode {
    CurrencyCode::new("USDT")
}

fn btc() -> CurrencyCode {
    CurrencyCode::new("BTC")
}

fn empty_manager() -> BalanceManager {
    let balances = Balances::new(
        KeyedList::new(),
        0,
        ServiceValueTree::new(),
        ServiceValueTree::new(),
        KeyedList::new(),
        ServiceValueTree::new(),
        KeyedList::new(),
    );
    BalanceManager::new(balances, 1)
}

fn request(amount: Dec) -> ReserveRequest {
    ReserveRequest {
        exchange_account_id: account(),
        currency_pair: btc_usdt(),
        currency: usdt(),
        side: OrderSide::Buy,
        price: d(20000, 0),
        amount,
        now: 0,
    }
}

fn fill(amount: Dec, price: Dec) -> OrderFill {
    OrderFill {
        price,
        filled_amount: amount,
        commission_currency: usdt(),
        commission_amount: Dec::zero(),
        trade_side: OrderSide::Buy,
    }
}

#[test]
fn reservation_accounting() {
    let mut manager = empty_manager();
    manager.set_exchange_balances(&account(), &vec![(usdt(), d(1000, 0))]);

    let id1 = manager.try_reserve(&request(d(400, 0))).expect("400 fits in 1000");
    assert_eq!(
        manager.try_reserve(&request(d(700, 0))),
        Err(ReserveFailure::InsufficientFunds { available: d(600, 0), requested: d(700, 0) })
    );
    assert_eq!(manager.unreserve(id1, d(100, 0)), Ok(()));
    let id2 = manager.try_reserve(&request(d(700, 0))).expect("700 fits in 700");
    assert!(id2.id > id1.id);
    assert_eq!(manager.effective_free(&account(), &btc_usdt(), &usdt()), Some(Dec::zero()));
    assert_eq!(manager.get_reserved_amount(&account(), &btc_usdt(), &usdt()), d(1000, 0));
}

#[test]
fn partial_fill_then_full_fill() {
    let mut manager = empty_manager();
    manager.set_exchange_balances(&account(), &vec![(usdt(), d(100000, 0))]);
    let id = manager.try_reserve(&request(d(20000, 0))).expect("reservation fits");

    assert_eq!(manager.apply_fill(id, &fill(d(4, 1), d(20000, 0))), Ok(()));
    assert_eq!(manager.get_reserved_amount(&account(), &btc_usdt(), &usdt()), d(12000, 0));
    assert_eq!(manager.get_position(&account(), &btc_usdt()), d(4, 1));
    assert_eq!(manager.get_virtual_diff(&account(), &btc_usdt(), &usdt()), d(-8000, 0));
    assert_eq!(manager.get_virtual_diff(&account(), &btc_usdt(), &btc()), d(4, 1));

    assert_eq!(manager.apply_fill(id, &fill(d(6, 1), d(20000, 0))), Ok(()));
    let reservation = manager.get_reservation(id).expect("filled reservations are kept");
    assert_eq!(reservation.amount_still_reserved(), Dec::zero());
    assert_eq!(reservation.amount_filled, d(20000, 0));
    assert_eq!(manager.get_reserved_amount(&account(), &btc_usdt(), &usdt()), Dec::zero());
    assert_eq!(manager.get_position(&account(), &btc_usdt()), d(1, 0));
    let last = manager
        .get_last_order_fill(&MarketAccountId::new(account(), btc_usdt()))
        .expect("fill recorded");
    assert_eq!(last.filled_amount, d(6, 1));
}

#[test]
fn version_advances_on_changes_only() {
    let mut manager = empty_manager();
    let v0 = manager.get_version();
    assert_eq!(v0, Balances::get_current_version());
    manager.set_exchange_balances(&account(), &vec![(usdt(), d(10, 0))]);
    let v1 = manager.get_version();
    assert_eq!(v1, v0 + 1);
    let _ = manager.effective_free(&account(), &btc_usdt(), &usdt());
    assert_eq!(manager.get_version(), v1);
    assert!(manager.try_reserve(&request(d(11, 0))).is_err());
    assert_eq!(manager.get_version(), v1);
    let id = manager.try_reserve(&request(d(10, 0))).expect("fits");
    assert_eq!(manager.get_version(), v1 + 1);
    manager.cancel_reservation(id).expect("known reservation");
    assert_eq!(manager.get_version(), v1 + 2);
}

#[test]
fn cancel_of_unfilled_reservation_removes_it() {
    let mut manager = empty_manager();
    manager.set_exchange_balances(&account(), &vec![(usdt(), d(10, 0))]);
    let id = manager.try_reserve(&request(d(4, 0))).expect("fits");
    assert_eq!(manager.cancel_reservation(id), Ok(()));
    assert!(manager.get_reservation(id).is_none());
    assert_eq!(manager.get_reserved_amount(&account(), &btc_usdt(), &usdt()), Dec::zero());
    assert_eq!(manager.cancel_reservation(id), Err(UnreserveFailure::UnknownReservation));
}

#[test]
fn over_unreserve_and_over_fill_are_rejected() {
    let mut manager = empty_manager();
    manager.set_exchange_balances(&account(), &vec![(usdt(), d(100000, 0))]);
    let id = manager.try_reserve(&request(d(20000, 0))).expect("fits");
    assert_eq!(
        manager.unreserve(id, d(20001, 0)),
        Err(UnreserveFailure::OverUnreserve { remaining: d(20000, 0), requested: d(20001, 0) })
    );
    assert_eq!(
        manager.apply_fill(id, &fill(d(2, 0), d(20000, 0))),
        Err(FillFailure::OverFill { remaining: d(20000, 0), requested: d(40000, 0) })
    );
    assert_eq!(
        manager.apply_fill(ReservationId { id: 999 }, &fill(d(1, 0), d(1, 0))),
        Err(FillFailure::UnknownReservation)
    );
    assert_eq!(
        manager.unreserve(ReservationId { id: 999 }, d(1, 0)),
        Err(UnreserveFailure::UnknownReservation)
    );
    assert_eq!(manager.get_reserved_amount(&account(), &btc_usdt(), &usdt()), d(20000, 0));
}

#[test]
fn overflowing_fill_is_rejected() {
    let mut manager = empty_manager();
    manager.set_exchange_balances(&account(), &vec![(usdt(), d(100, 0))]);
    let id = manager.try_reserve(&request(d(10, 0))).expect("fits");
    let huge = max_dec();
    assert_eq!(manager.apply_fill(id, &fill(huge, huge)), Err(FillFailure::AmountOverflow));
}

#[test]
fn overflowing_balance_sum_is_reported() {
    let mut manager = empty_manager();
    manager.set_exchange_balances(&account(), &vec![(usdt(), max_dec())]);
    let id = manager.try_reserve(&request(d(1, 0))).expect("fits");
    let _ = id;
    assert_eq!(manager.try_reserve(&request(max_dec())).is_err(), true);
    manager.set_amount_limit(&account(), &btc_usdt(), &usdt(), max_dec().neg());
    assert_eq!(manager.try_reserve(&request(d(1, 0))), Err(ReserveFailure::AmountOverflow));
}

#[test]
fn amount_limit_caps_reservations() {
    let mut manager = empty_manager();
    manager.set_exchange_balances(&account(), &vec![(usdt(), d(1000, 0))]);
    manager.set_amount_limit(&account(), &btc_usdt(), &usdt(), d(300, 0));
    assert_eq!(
        manager.try_reserve(&request(d(400, 0))),
        Err(ReserveFailure::InsufficientFunds { available: d(300, 0), requested: d(400, 0) })
    );
    assert!(manager.try_reserve(&request(d(300, 0))).is_ok());
    assert_eq!(manager.effective_free(&account(), &btc_usdt(), &usdt()), Some(Dec::zero()));
}

#[test]
fn exchange_refresh_replaces_balances_and_clears_diff() {
    let mut manager = empty_manager();
    manager.set_exchange_balances(&account(), &vec![(usdt(), d(100000, 0)), (btc(), d(1, 0))]);
    let id = manager.try_reserve(&request(d(20000, 0))).expect("fits");
    manager.apply_fill(id, &fill(d(4, 1), d(20000, 0))).expect("fill fits");
    manager.set_exchange_balances(&account(), &vec![(usdt(), d(92000, 0))]);
    assert_eq!(manager.get_exchange_balance(&account(), &usdt()), d(92000, 0));
    assert_eq!(manager.get_exchange_balance(&account(), &btc()), Dec::zero());
    assert_eq!(manager.get_virtual_diff(&account(), &btc_usdt(), &usdt()), Dec::zero());
    assert_eq!(manager.get_virtual_diff(&account(), &btc_usdt(), &btc()), d(4, 1));
    assert_eq!(manager.get_reserved_amount(&account(), &btc_usdt(), &usdt()), d(12000, 0));
}

#[test]
fn allocator_hands_out_increasing_ids() {
    let mut ids = ReservationIdAllocator::new(7);
    let a = ids.allocate();
    let b = ids.allocate();
    assert_eq!(a.id, 7);
    assert_eq!(b.id, 8);
}

#[test]
fn commission_is_taken_from_virtual_diff() {
    let mut manager = empty_manager();
    manager.set_exchange_balances(&account(), &vec![(usdt(), d(100000, 0))]);
    let id = manager.try_reserve(&request(d(20000, 0))).expect("fits");
    let mut f = fill(d(5, 1), d(20000, 0));
    f.commission_amount = d(10, 0);
    manager.apply_fill(id, &f).expect("fill fits");
    assert_eq!(manager.get_virtual_diff(&account(), &btc_usdt(), &usdt()), d(-10010, 0));
}

#[test]
fn reserved_amount_equals_what_reservations_hold_back() {
    let mut manager = empty_manager();
    manager.set_exchange_balances(&account(), &vec![(usdt(), d(100000, 0))]);
    let a = manager.try_reserve(&request(d(20000, 0))).expect("fits");
    let b = manager.try_reserve(&request(d(5000, 0))).expect("fits");
    manager.unreserve(b, d(1000, 0)).expect("within reservation");
    manager.apply_fill(a, &fill(d(1, 1), d(20000, 0))).expect("within reservation");
    let held = manager
        .get_reservation(a)
        .expect("kept")
        .amount_still_reserved()
        .checked_add(manager.get_reservation(b).expect("kept").amount_still_reserved())
        .expect("fits");
    assert_eq!(held, d(22000, 0));
    assert_eq!(manager.get_reserved_amount(&account(), &btc_usdt(), &usdt()), held);
}

#[test]
fn value_tree_sums_and_totals() {
    let mut tree = ServiceValueTree::new();
    let leaf = |c: &str| (account(), btc_usdt(), CurrencyCode::new(c));
    assert!(tree.add_assign(leaf("USDT"), d(5, 0)));
    assert!(tree.sub_assign(leaf("USDT"), d(7, 0)));
    assert!(tree.add_assign(leaf("BTC"), d(1, 0)));
    assert_eq!(tree.get(&leaf("USDT")), d(-2, 0));
    assert_eq!(tree.get(&leaf("ETH")), Dec::zero());
    assert_eq!(tree.sum_leaves(), Some(d(-1, 0)));
    assert_eq!(tree.currency_total(&account(), &usdt()), Some(d(-2, 0)));
    assert_eq!(tree.leaves().len(), 2);
    assert!(!tree.add_assign(leaf("BTC"), max_dec()));
    assert_eq!(tree.get(&leaf("BTC")), d(1, 0));
}

#[test]
fn fill_cost_keeps_all_decimal_places() {
    let mut manager = empty_manager();
    manager.set_exchange_balances(&account(), &vec![(usdt(), d(100000, 0))]);
    let id = manager.try_reserve(&request(d(100, 0))).expect("fits");
    // 0.123456789 BTC at 3.14159265 USDT costs 0.38785094091500085 USDT.
    manager
        .apply_fill(id, &fill(Dec::from_parts(123_456_789, 9), Dec::from_parts(314_159_265, 8)))
        .expect("fill fits");
    let cost = Dec::try_from_parts(38_785_094_091_500_085, 17).expect("fits");
    let reserved = manager.get_reserved_amount(&account(), &btc_usdt(), &usdt());
    assert_eq!(reserved, d(100, 0).checked_sub(cost).expect("fits"));
    assert_eq!(manager.get_virtual_diff(&account(), &btc_usdt(), &usdt()), cost.neg());
}
