use mmb_engine::decimal::Dec;
use mmb_engine::liquidity::{
    calc_indicators, get_indicators, try_calc_indicators, LiquidityOrder, LiquidityOrderSide,
};

fn d(mantissa: i64, scale: u32) -> Dec {
    Dec::from_parts(mantissa, scale)
}

#[test]
fn calc_indicators_test_values() {
    let (spread, total_volume, volume_pct, bid_pct, ask_pct) =
        calc_indicators(Some(d(1, 0)), Some(d(2, 0)), Some(d(8, 4)), Some(d(2, 4)), d(1, 3));
    assert_eq!(spread, Some(d(50, 0)));
    assert_eq!(total_volume, Some(d(1, 3)));
    assert_eq!(bid_pct, d(80, 0));
    assert_eq!(ask_pct, d(20, 0));
    assert_eq!(volume_pct, d(100, 0));
}

#[test]
fn calc_indicators_test_none() {
    let (spread, total_volume, volume_pct, bid_pct, ask_pct) =
        calc_indicators(None, None, None, None, d(1, 3));
    assert_eq!(spread, None);
    assert_eq!(total_volume, None);
    assert_eq!(bid_pct, Dec::zero());
    assert_eq!(ask_pct, Dec::zero());
    assert_eq!(volume_pct, Dec::zero());
}

#[test]
fn zero_desired_amount_gives_zero_shares() {
    let (_, total_volume, volume_pct, bid_pct, ask_pct) =
        calc_indicators(None, None, Some(d(1, 0)), Some(d(2, 0)), Dec::zero());
    assert_eq!(total_volume, Some(d(3, 0)));
    assert_eq!(volume_pct, Dec::zero());
    assert_eq!(bid_pct, Dec::zero());
    assert_eq!(ask_pct, Dec::zero());
}

#[test]
fn indicators_from_orders_and_snapshot() {
    let orders = vec![
        LiquidityOrder { side: LiquidityOrderSide::Buy, price: d(1, 0), amount: d(5, 4), remaining_amount: d(5, 4) },
        LiquidityOrder { side: LiquidityOrderSide::Sell, price: d(2, 0), amount: d(2, 4), remaining_amount: d(2, 4) },
        LiquidityOrder { side: LiquidityOrderSide::Buy, price: d(1, 0), amount: d(3, 4), remaining_amount: d(3, 4) },
    ];
    let buy_snapshot = vec![(d(9, 1), d(1, 0)), (d(1, 0), d(2, 0))];
    let sell_snapshot = vec![(d(3, 0), d(1, 0)), (d(2, 0), d(2, 0))];
    let indicators =
        get_indicators(&orders, &buy_snapshot, &sell_snapshot, d(1, 3)).expect("defined");
    assert_eq!(indicators.total_bid, Some(d(8, 4)));
    assert_eq!(indicators.total_ask, Some(d(2, 4)));
    assert_eq!(indicators.spread, Some(d(50, 0)));
    assert_eq!(indicators.total_volume, Some(d(1, 3)));
    assert_eq!(indicators.bid_pct, d(80, 0));
    assert_eq!(indicators.ask_pct, d(20, 0));
    assert_eq!(indicators.volume_pct, d(100, 0));
}

#[test]
fn spread_keeps_all_decimal_places() {
    let (spread, _, _, _, _) = calc_indicators(Some(d(2, 0)), Some(d(3, 0)), None, None, d(1, 0));
    assert_eq!(spread, Dec::try_from_parts(3_333_333_333_333_333_333_333_333_333, 26));
    assert_eq!(try_calc_indicators(Some(d(2, 0)), Some(Dec::zero()), None, None, d(1, 0)), None);
}

#[test]
fn decimal_arithmetic_is_exact() {
    assert_eq!(d(4, 1).checked_mul(d(20000, 0)), Some(d(8000, 0)));
    let third = Dec::try_from_parts(3_333_333_333_333_333_333_333_333_333, 28).unwrap();
    assert_eq!(d(1, 0).checked_div(d(3, 0)), Some(third));
    assert_eq!(d(-1, 0).checked_div(d(3, 0)), Some(third.neg()));
    assert_eq!(d(1, 0).checked_div(Dec::zero()), None);
    let max = Dec::try_from_parts(79_228_162_514_264_337_593_543_950_335, 0).unwrap();
    assert_eq!(max.checked_add(d(1, 0)), None);
    assert_eq!(max.neg().checked_sub(d(1, 0)), None);
    assert_eq!(max.checked_add(d(1, 28)), None);
    assert_eq!(d(1, 0).checked_add(d(1, 28)), Dec::try_from_parts(10_000_000_000_000_000_000_000_000_001, 28));
    assert_eq!(Dec::try_from_parts(2100, 3), Some(d(21, 1)));
    assert_eq!(Dec::try_from_parts(1, 29), None);
    assert!(d(21, 1).less_than(&d(2101, 3)));
    assert!(!d(2101, 3).less_than(&d(21, 1)));
    assert!(max.neg().less_than(&d(1, 28)));
}

use mmb_engine::liquidity::{
    LiquidityData, LiquidityOrderBook, LiquidityResponseBody, LiquidityTrade,
    LiquidityTransaction, PriceLevel, TransactionOrderSide,
};

#[test]
fn liquidity_response_body_from_data() {
    let data = LiquidityData {
        order_book: LiquidityOrderBook {
            exchange_id: "Binance_0".to_string(),
            currency_pair: "BTC/USDT".to_string(),
            asks: vec![PriceLevel { price: d(2, 0), amount: d(1, 0) }],
            bids: vec![PriceLevel { price: d(1, 0), amount: d(3, 0) }],
            orders: vec![
                LiquidityOrder { side: LiquidityOrderSide::Buy, price: d(1, 0), amount: d(8, 4), remaining_amount: d(8, 4) },
                LiquidityOrder { side: LiquidityOrderSide::Sell, price: d(2, 0), amount: d(2, 4), remaining_amount: d(2, 4) },
            ],
        },
        desired_amount: d(1, 3),
        transactions: vec![LiquidityTransaction {
            transaction_id: "t1".to_string(),
            transaction_creation_time: "2021-01-01T00:00:00Z".to_string(),
            price: d(1, 0),
            amount: d(1, 0),
            hedged: None,
            profit_loss_pct: Some("1.5".to_string()),
            status: "Finished".to_string(),
            trades: vec![LiquidityTrade {
                exchange_id: "Binance_0".to_string(),
                price: d(1, 0),
                amount: d(1, 0),
                exchange_order_id: "42".to_string(),
                side: Some(TransactionOrderSide::Buy),
            }],
            side: TransactionOrderSide::Buy,
        }],
    };
    let body = LiquidityResponseBody::from_liquidity_data(data).expect("indicators defined");
    let state = body.orders_state_and_transactions;
    assert_eq!(state.exchange_name, "Binance_0");
    assert_eq!(state.sell.snapshot, vec![(d(2, 0), d(1, 0))]);
    assert_eq!(state.buy.snapshot, vec![(d(1, 0), d(3, 0))]);
    assert_eq!(state.buy.orders.len(), 1);
    assert_eq!(state.buy.orders[0].amount, d(8, 4));
    assert_eq!(state.sell.orders[0].price, d(2, 0));
    assert_eq!(state.transactions[0].trades[0].date_time, "2021-01-01T00:00:00Z");
    assert_eq!(state.indicators.spread, Some(d(50, 0)));
    assert_eq!(state.indicators.bid_pct, d(80, 0));
}
