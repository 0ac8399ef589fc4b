use vstd::prelude::*;

use crate::decimal::{decimal_product, decimal_quotient, decimal_value, fits, lemma_fits_zero, Dec};

verus! {

/// `v / d * 100` as decimals: the decimal quotient, then its decimal product with 100.
pub open spec fn percent_of(v: int, d: int) -> Option<int> {
    match decimal_quotient(v, d) {
        Some(q) => decimal_product(q, decimal_value(100, 0)),
        None => None,
    }
}

/// The value of an optional amount.
pub open spec fn opt_value(o: Option<Dec>) -> Option<int> {
    match o {
        Some(d) => Some(d.value()),
        None => None,
    }
}

/// A total as a share of the desired amount, in percent; zero where there is no
/// total or the desired amount is zero.
pub open spec fn share_of_desired(total: Option<int>, desired: int) -> int {
    match total {
        Some(v) => if desired != 0 {
            percent_of(v, desired).unwrap()
        } else {
            0
        },
        None => 0,
    }
}

/// The sum of two totals, where both exist.
pub open spec fn combined_total(ask: Option<Dec>, bid: Option<Dec>) -> Option<int> {
    match (ask, bid) {
        (Some(a), Some(b)) => Some(a.value() + b.value()),
        _ => None,
    }
}

/// The spread between the best ask and the best bid in percent of the ask, where
/// both exist.
pub open spec fn spread_of(ask: Option<Dec>, bid: Option<Dec>) -> Option<int> {
    match (ask, bid) {
        (Some(a), Some(b)) => percent_of(a.value() - b.value(), a.value()),
        _ => None,
    }
}

/// Whether every step of `calc_indicators` is defined: the differences and sums
/// fit, and no quotient divides by zero or overflows.
pub open spec fn indicators_defined(
    top_bid_price: Option<Dec>,
    top_ask_price: Option<Dec>,
    total_bid: Option<Dec>,
    total_ask: Option<Dec>,
    desired_amount: Dec,
) -> bool {
    &&& (top_ask_price is Some && top_bid_price is Some) ==> fits(
        top_ask_price.unwrap().value() - top_bid_price.unwrap().value(),
    ) && percent_of(
        top_ask_price.unwrap().value() - top_bid_price.unwrap().value(),
        top_ask_price.unwrap().value(),
    ) is Some
    &&& combined_total(total_ask, total_bid) matches Some(t) ==> fits(t)
    &&& desired_amount.value() != 0 ==> {
        &&& total_bid matches Some(b) ==> percent_of(b.value(), desired_amount.value()) is Some
        &&& total_ask matches Some(a) ==> percent_of(a.value(), desired_amount.value()) is Some
        &&& combined_total(total_ask, total_bid) matches Some(t) ==> percent_of(
            t,
            desired_amount.value(),
        ) is Some
    }
}

fn percent(v: Dec, d: Dec) -> (r: Option<Dec>)
    ensures
        opt_value(r) == percent_of(v.value(), d.value()),
{
    let hundred = Dec::from_parts(100, 0);
    match v.checked_div(d) {
        Some(q) => q.checked_mul(hundred),
        None => None,
    }
}

fn share(total: Option<Dec>, desired: Dec) -> (r: Option<Dec>)
    ensures
        r is Some <==> (desired.value() != 0 && total is Some ==> percent_of(
            total.unwrap().value(),
            desired.value(),
        ) is Some),
        r matches Some(p) ==> p.value() == share_of_desired(opt_value(total), desired.value()),
{
    match total {
        Some(value) => if !desired.is_zero() {
            percent(value, desired)
        } else {
            Some(Dec::zero())
        },
        None => Some(Dec::zero()),
    }
}

/// Whether `calc_indicators` is defined on these values, found by carrying out
/// its steps.
pub fn indicators_computable(
    top_bid_price: Option<Dec>,
    top_ask_price: Option<Dec>,
    total_bid: Option<Dec>,
    total_ask: Option<Dec>,
    desired_amount: Dec,
) -> (r: bool)
    ensures
        r == indicators_defined(top_bid_price, top_ask_price, total_bid, total_ask, desired_amount),
{
    let spread_ok = match (top_ask_price, top_bid_price) {
        (Some(ask), Some(bid)) => match ask.checked_sub(bid) {
            Some(diff) => percent(diff, ask).is_some(),
            None => false,
        },
        _ => true,
    };
    let (volume, volume_ok) = match (total_ask, total_bid) {
        (Some(ask), Some(bid)) => match ask.checked_add(bid) {
            Some(t) => (Some(t), true),
            None => (None, false),
        },
        _ => (None, true),
    };
    if !spread_ok || !volume_ok {
        return false;
    }
    share(total_bid, desired_amount).is_some() && share(total_ask, desired_amount).is_some()
        && share(volume, desired_amount).is_some()
}

/// Liquidity indicators from the top of the book and the totals of the open orders:
/// `(spread, total_volume, volume_pct, bid_pct, ask_pct)`.
pub fn calc_indicators(
    top_bid_price: Option<Dec>,
    top_ask_price: Option<Dec>,
    total_bid: Option<Dec>,
    total_ask: Option<Dec>,
    desired_amount: Dec,
) -> (r: (Option<Dec>, Option<Dec>, Dec, Dec, Dec))
    requires
        indicators_defined(top_bid_price, top_ask_price, total_bid, total_ask, desired_amount),
    ensures
        opt_value(r.0) == spread_of(top_ask_price, top_bid_price),
        opt_value(r.1) == combined_total(total_ask, total_bid),
        r.2.value() == share_of_desired(combined_total(total_ask, total_bid), desired_amount.value()),
        r.3.value() == share_of_desired(opt_value(total_bid), desired_amount.value()),
        r.4.value() == share_of_desired(opt_value(total_ask), desired_amount.value()),
{
    let spread = match (top_ask_price, top_bid_price) {
        (Some(ask), Some(bid)) => {
            let diff = ask.checked_sub(bid).unwrap();
            percent(diff, ask)
        },
        _ => None,
    };
    let total_volume = match (total_ask, total_bid) {
        (Some(ask), Some(bid)) => Some(ask.checked_add(bid).unwrap()),
        _ => None,
    };
    let bid_pct = share(total_bid, desired_amount).unwrap();
    let ask_pct = share(total_ask, desired_amount).unwrap();
    let volume_pct = share(total_volume, desired_amount).unwrap();
    (spread, total_volume, volume_pct, bid_pct, ask_pct)
}

/// `calc_indicators` where it is defined; `None` where one of its steps divides
/// by zero or leaves the range of a decimal.
pub fn try_calc_indicators(
    top_bid_price: Option<Dec>,
    top_ask_price: Option<Dec>,
    total_bid: Option<Dec>,
    total_ask: Option<Dec>,
    desired_amount: Dec,
) -> (r: Option<(Option<Dec>, Option<Dec>, Dec, Dec, Dec)>)
    ensures
        r is Some <==> indicators_defined(
            top_bid_price,
            top_ask_price,
            total_bid,
            total_ask,
            desired_amount,
        ),
        r matches Some(t) ==> opt_value(t.0) == spread_of(top_ask_price, top_bid_price) && opt_value(
            t.1,
        ) == combined_total(total_ask, total_bid) && t.2.value() == share_of_desired(
            combined_total(total_ask, total_bid),
            desired_amount.value(),
        ) && t.3.value() == share_of_desired(opt_value(total_bid), desired_amount.value())
            && t.4.value() == share_of_desired(opt_value(total_ask), desired_amount.value()),
{
    if indicators_computable(top_bid_price, top_ask_price, total_bid, total_ask, desired_amount) {
        Some(calc_indicators(top_bid_price, top_ask_price, total_bid, total_ask, desired_amount))
    } else {
        None
    }
}

#[derive(Clone, Copy, Debug, PartialEq, Eq, Structural)]
pub enum LiquidityOrderSide {
    Buy,
    Sell,
}

/// An open order of the market-making strategy, as the liquidity view shows it.
#[derive(Clone, Copy, Debug, PartialEq, Eq, Structural)]
pub struct LiquidityOrder {
    pub side: LiquidityOrderSide,
    pub price: Dec,
    pub amount: Dec,
    pub remaining_amount: Dec,
}

/// Liquidity indicators of one market.
#[derive(Clone, Copy, Debug, PartialEq, Eq, Structural)]
pub struct Indicators {
    pub volume_pct: Dec,
    pub bid_pct: Dec,
    pub ask_pct: Dec,
    pub spread: Option<Dec>,
    pub total_volume: Option<Dec>,
    pub total_bid: Option<Dec>,
    pub total_ask: Option<Dec>,
}

/// The best price of a side of a snapshot: the highest for bids, the lowest for asks.
pub open spec fn extreme_price(levels: Seq<(Dec, Dec)>, highest: bool) -> Option<Dec>
    decreases levels.len(),
{
    if levels.len() == 0 {
        None
    } else {
        let p = levels.last().0;
        match extreme_price(levels.drop_last(), highest) {
            None => Some(p),
            Some(m) => if (highest && p.value() > m.value()) || (!highest && p.value() < m.value()) {
                Some(p)
            } else {
                Some(m)
            },
        }
    }
}

/// The sum of the remaining amounts of the orders on one side; `None` where there is none.
pub open spec fn side_total(orders: Seq<LiquidityOrder>, side: LiquidityOrderSide) -> Option<int>
    decreases orders.len(),
{
    if orders.len() == 0 {
        None
    } else {
        let o = orders.last();
        let prev = side_total(orders.drop_last(), side);
        if o.side == side {
            match prev {
                None => Some(o.remaining_amount.value()),
                Some(t) => Some(t + o.remaining_amount.value()),
            }
        } else {
            prev
        }
    }
}

/// Whether every partial total of a side fits in a `Dec`.
pub open spec fn side_total_fits(orders: Seq<LiquidityOrder>, side: LiquidityOrderSide) -> bool {
    forall|i: int|
        0 <= i <= orders.len() ==> (#[trigger] side_total(orders.take(i), side) matches Some(t)
            ==> fits(t))
}

fn extreme(levels: &Vec<(Dec, Dec)>, highest: bool) -> (r: Option<Dec>)
    ensures
        r == extreme_price(levels@, highest),
{
    let mut best: Option<Dec> = None;
    let mut i: usize = 0;
    while i < levels.len()
        invariant
            i <= levels@.len(),
            best == extreme_price(levels@.take(i as int), highest),
        decreases levels@.len() - i,
    {
        proof {
            assert(levels@.take(i + 1).drop_last() =~= levels@.take(i as int));
        }
        let p = levels[i].0;
        best = match best {
            None => Some(p),
            Some(m) => if (highest && m.less_than(&p)) || (!highest && p.less_than(&m)) {
                Some(p)
            } else {
                Some(m)
            },
        };
        i = i + 1;
    }
    proof {
        assert(levels@.take(levels@.len() as int) =~= levels@);
    }
    best
}

fn total_of_side(orders: &Vec<LiquidityOrder>, side: LiquidityOrderSide) -> (r: Option<
    Option<Dec>,
>)
    ensures
        r is Some <==> side_total_fits(orders@, side),
        r matches Some(t) ==> opt_value(t) == side_total(orders@, side),
{
    let mut total: Option<Dec> = None;
    let mut i: usize = 0;
    proof {
        lemma_fits_zero();
        assert(orders@.take(0) =~= Seq::<LiquidityOrder>::empty());
    }
    while i < orders.len()
        invariant
            i <= orders@.len(),
            opt_value(total) == side_total(orders@.take(i as int), side),
            forall|j: int|
                0 <= j <= i ==> (#[trigger] side_total(orders@.take(j), side) matches Some(t) ==> fits(t)),
        decreases orders@.len() - i,
    {
        proof {
            assert(orders@.take(i + 1).drop_last() =~= orders@.take(i as int));
            assert(orders@.take(i + 1).last() == orders@[i as int]);
        }
        let o = orders[i];
        if o.side == side {
            let start = match total {
                None => Dec::zero(),
                Some(t) => t,
            };
            total = match start.checked_add(o.remaining_amount) {
                    Some(n) => Some(n),
                None => {
                    proof {
                        assert(side_total(orders@.take(i + 1), side) == Some(
                            start.value() + o.remaining_amount.value(),
                        ));
                        assert(!(side_total(orders@.take(i + 1), side) matches Some(t) ==> fits(t)));
                    }
                    return None;
                },
            };
        }
        i = i + 1;
    }
    proof {
        assert(orders@.take(orders@.len() as int) =~= orders@);
    }
    Some(total)
}

/// The indicators of a market from the snapshot's two sides and the open orders:
/// the best bid and ask, the remaining totals of buy and sell orders, and what
/// `calc_indicators` makes of them; `None` where a total or an indicator cannot be
/// computed.
pub fn get_indicators(
    orders: &Vec<LiquidityOrder>,
    buy_snapshot: &Vec<(Dec, Dec)>,
    sell_snapshot: &Vec<(Dec, Dec)>,
    desired_amount: Dec,
) -> (r: Option<Indicators>)
    ensures
        r is Some <==> side_total_fits(orders@, LiquidityOrderSide::Buy) && side_total_fits(
            orders@,
            LiquidityOrderSide::Sell,
        ) && exists|tb: Option<Dec>, ta: Option<Dec>|
            opt_value(tb) == side_total(orders@, LiquidityOrderSide::Buy) && opt_value(ta)
                == side_total(orders@, LiquidityOrderSide::Sell) && #[trigger] indicators_defined(
                extreme_price(buy_snapshot@, true),
                extreme_price(sell_snapshot@, false),
                tb,
                ta,
                desired_amount,
            ),
        r matches Some(ind) ==> {
            &&& opt_value(ind.total_bid) == side_total(orders@, LiquidityOrderSide::Buy)
            &&& opt_value(ind.total_ask) == side_total(orders@, LiquidityOrderSide::Sell)
            &&& opt_value(ind.spread) == spread_of(
                extreme_price(sell_snapshot@, false),
                extreme_price(buy_snapshot@, true),
            )
            &&& opt_value(ind.total_volume) == combined_total(ind.total_ask, ind.total_bid)
            &&& ind.volume_pct.value() == share_of_desired(
                combined_total(ind.total_ask, ind.total_bid),
                desired_amount.value(),
            )
            &&& ind.bid_pct.value() == share_of_desired(opt_value(ind.total_bid), desired_amount.value())
            &&& ind.ask_pct.value() == share_of_desired(opt_value(ind.total_ask), desired_amount.value())
        },
{
    let top_bid_price = extreme(buy_snapshot, true);
    let top_ask_price = extreme(sell_snapshot, false);
    let total_bid = match total_of_side(orders, LiquidityOrderSide::Buy) {
        Some(t) => t,
        None => {
            return None;
        },
    };
    let total_ask = match total_of_side(orders, LiquidityOrderSide::Sell) {
        Some(t) => t,
        None => {
            return None;
        },
    };
    match try_calc_indicators(top_bid_price, top_ask_price, total_bid, total_ask, desired_amount) {
        Some((spread, total_volume, volume_pct, bid_pct, ask_pct)) => Some(
            Indicators { volume_pct, bid_pct, ask_pct, spread, total_volume, total_bid, total_ask },
        ),
        None => {
            proof {
                assert forall|tb: Option<Dec>, ta: Option<Dec>|
                    opt_value(tb) == side_total(orders@, LiquidityOrderSide::Buy) && opt_value(ta)
                        == side_total(orders@, LiquidityOrderSide::Sell) implies !#[trigger] indicators_defined(
                        top_bid_price,
                        top_ask_price,
                        tb,
                        ta,
                        desired_amount,
                    ) by {
                    lemma_defined_by_values(top_bid_price, top_ask_price, tb, ta, total_bid, total_ask, desired_amount);
                }
            }
            None
        },
    }
}

/// Whether the indicators are defined depends on the totals' values alone.
proof fn lemma_defined_by_values(
    bid: Option<Dec>,
    ask: Option<Dec>,
    tb1: Option<Dec>,
    ta1: Option<Dec>,
    tb2: Option<Dec>,
    ta2: Option<Dec>,
    desired: Dec,
)
    requires
        opt_value(tb1) == opt_value(tb2),
        opt_value(ta1) == opt_value(ta2),
    ensures
        indicators_defined(bid, ask, tb1, ta1, desired) == indicators_defined(bid, ask, tb2, ta2, desired),
{
}

/// One level of a snapshot side.
#[derive(Clone, Copy, Debug, PartialEq, Eq, Structural)]
pub struct PriceLevel {
    pub price: Dec,
    pub amount: Dec,
}

/// The local order book of a market with the strategy's open orders.
pub struct LiquidityOrderBook {
    pub exchange_id: String,
    pub currency_pair: String,
    pub asks: Vec<PriceLevel>,
    pub bids: Vec<PriceLevel>,
    pub orders: Vec<LiquidityOrder>,
}

#[derive(Clone, Copy, Debug, PartialEq, Eq, Structural)]
pub enum TransactionOrderSide {
    Buy,
    Sell,
}

/// A trade of a transaction, as the engine records it.
pub struct LiquidityTrade {
    pub exchange_id: String,
    pub price: Dec,
    pub amount: Dec,
    pub exchange_order_id: String,
    pub side: Option<TransactionOrderSide>,
}

/// A transaction of the strategy, as the engine records it.
pub struct LiquidityTransaction {
    pub transaction_id: String,
    pub transaction_creation_time: String,
    pub price: Dec,
    pub amount: Dec,
    pub hedged: Option<String>,
    pub profit_loss_pct: Option<String>,
    pub status: String,
    pub trades: Vec<LiquidityTrade>,
    pub side: TransactionOrderSide,
}

/// What the liquidity view is built from.
pub struct LiquidityData {
    pub order_book: LiquidityOrderBook,
    pub desired_amount: Dec,
    pub transactions: Vec<LiquidityTransaction>,
}

pub struct Order {
    pub amount: Dec,
    pub price: Dec,
}

pub struct Orders {
    pub orders: Vec<Order>,
    pub snapshot: Vec<(Dec, Dec)>,
}

pub struct Trade {
    pub exchange_name: String,
    pub date_time: String,
    pub price: Dec,
    pub amount: Dec,
    pub exchange_order_id: String,
    pub side: Option<TransactionOrderSide>,
}

pub struct Transaction {
    pub id: String,
    pub date_time: String,
    pub price: Dec,
    pub amount: Dec,
    pub hedged: Option<String>,
    pub profit_loss_pct: Option<String>,
    pub status: String,
    pub trades: Vec<Trade>,
    pub side: TransactionOrderSide,
}

pub struct OrderStateAndTransactions {
    pub exchange_name: String,
    pub currency_code_pair: String,
    pub desired_amount: Dec,
    pub sell: Orders,
    pub buy: Orders,
    pub transactions: Vec<Transaction>,
    pub indicators: Indicators,
}

/// The liquidity view of one market.
pub struct LiquidityResponseBody {
    pub orders_state_and_transactions: OrderStateAndTransactions,
}

/// Price levels as `(price, amount)` pairs.
pub open spec fn level_pairs(levels: Seq<PriceLevel>) -> Seq<(Dec, Dec)> {
    levels.map_values(|l: PriceLevel| (l.price, l.amount))
}

/// The `(amount, price)` of the orders on one side, in their order.
pub open spec fn orders_of_side(orders: Seq<LiquidityOrder>, side: LiquidityOrderSide) -> Seq<
    (Dec, Dec),
>
    decreases orders.len(),
{
    if orders.len() == 0 {
        Seq::empty()
    } else {
        let prev = orders_of_side(orders.drop_last(), side);
        let o = orders.last();
        if o.side == side {
            prev.push((o.amount, o.price))
        } else {
            prev
        }
    }
}

fn to_pairs(levels: &Vec<PriceLevel>) -> (r: Vec<(Dec, Dec)>)
    ensures
        r@ == level_pairs(levels@),
{
    let mut out: Vec<(Dec, Dec)> = Vec::new();
    let mut i: usize = 0;
    while i < levels.len()
        invariant
            i <= levels@.len(),
            out@ == level_pairs(levels@.take(i as int)),
        decreases levels@.len() - i,
    {
        out.push((levels[i].price, levels[i].amount));
        proof {
            assert(level_pairs(levels@.take(i + 1)) =~= level_pairs(levels@.take(i as int)).push(
                (levels@[i as int].price, levels@[i as int].amount),
            ));
        }
        i = i + 1;
    }
    proof {
        assert(levels@.take(levels@.len() as int) =~= levels@);
    }
    out
}

fn split_orders(orders: &Vec<LiquidityOrder>, side: LiquidityOrderSide) -> (r: Vec<Order>)
    ensures
        r@.map_values(|o: Order| (o.amount, o.price)) == orders_of_side(orders@, side),
{
    let mut out: Vec<Order> = Vec::new();
    let mut i: usize = 0;
    while i < orders.len()
        invariant
            i <= orders@.len(),
            out@.map_values(|o: Order| (o.amount, o.price)) == orders_of_side(
                orders@.take(i as int),
                side,
            ),
        decreases orders@.len() - i,
    {
        let o = orders[i];
        let ghost before = out@;
        proof {
            assert(orders@.take(i + 1).drop_last() =~= orders@.take(i as int));
            assert(orders@.take(i + 1).last() == o);
        }
        if o.side == side {
            out.push(Order { amount: o.amount, price: o.price });
            proof {
                assert(out@.map_values(|o: Order| (o.amount, o.price)) =~= before.map_values(
                    |o: Order| (o.amount, o.price),
                ).push((o.amount, o.price)));
            }
        }
        i = i + 1;
    }
    proof {
        assert(orders@.take(orders@.len() as int) =~= orders@);
    }
    out
}

/// The trades of a transaction, each stamped with the transaction's creation time.
fn to_trades(trades: Vec<LiquidityTrade>, date_time: &String) -> (r: Vec<Trade>)
    ensures
        r@.len() == trades@.len(),
        forall|i: int|
            0 <= i < r@.len() ==> {
                let t = #[trigger] r@[i];
                let s = trades@[i];
                &&& t.exchange_name@ == s.exchange_id@
                &&& t.date_time@ == date_time@
                &&& t.price == s.price
                &&& t.amount == s.amount
                &&& t.exchange_order_id@ == s.exchange_order_id@
                &&& t.side == s.side
            },
{
    let mut out: Vec<Trade> = Vec::new();
    let mut i: usize = 0;
    while i < trades.len()
        invariant
            i <= trades@.len(),
            out@.len() == i,
            forall|j: int|
                0 <= j < i ==> {
                    let t = #[trigger] out@[j];
                    let s = trades@[j];
                    &&& t.exchange_name@ == s.exchange_id@
                    &&& t.date_time@ == date_time@
                    &&& t.price == s.price
                    &&& t.amount == s.amount
                    &&& t.exchange_order_id@ == s.exchange_order_id@
                    &&& t.side == s.side
                },
        decreases trades@.len() - i,
    {
        let tr = &trades[i];
        out.push(
            Trade {
                exchange_name: tr.exchange_id.clone(),
                date_time: date_time.clone(),
                price: tr.price,
                amount: tr.amount,
                exchange_order_id: tr.exchange_order_id.clone(),
                side: tr.side,
            },
        );
        i = i + 1;
    }
    out
}

fn to_transactions(transactions: Vec<LiquidityTransaction>) -> (r: Vec<Transaction>)
    ensures
        r@.len() == transactions@.len(),
        forall|i: int|
            0 <= i < r@.len() ==> {
                let t = #[trigger] r@[i];
                let s = transactions@[i];
                &&& t.id@ == s.transaction_id@
                &&& t.date_time@ == s.transaction_creation_time@
                &&& t.price == s.price
                &&& t.amount == s.amount
                &&& t.hedged == s.hedged
                &&& t.profit_loss_pct == s.profit_loss_pct
                &&& t.status@ == s.status@
                &&& t.side == s.side
                &&& t.trades@.len() == s.trades@.len()
            },
{
    let mut out: Vec<Transaction> = Vec::new();
    let mut rest = transactions;
    let ghost all = rest@;
    let mut i: usize = 0;
    let n = rest.len();
    assert(all.subrange(0, n as int) =~= all);
    while i < n
        invariant
            n == all.len(),
            i <= n,
            rest@ == all.subrange(i as int, n as int),
            out@.len() == i,
            forall|j: int|
                0 <= j < i ==> {
                    let t = #[trigger] out@[j];
                    let s = all[j];
                    &&& t.id@ == s.transaction_id@
                    &&& t.date_time@ == s.transaction_creation_time@
                    &&& t.price == s.price
                    &&& t.amount == s.amount
                    &&& t.hedged == s.hedged
                    &&& t.profit_loss_pct == s.profit_loss_pct
                    &&& t.status@ == s.status@
                    &&& t.side == s.side
                    &&& t.trades@.len() == s.trades@.len()
                },
        decreases n - i,
    {
        let t = rest.remove(0);
        proof {
            assert(t == all[i as int]);
            assert(rest@ =~= all.subrange(i + 1, n as int));
        }
        let trades = to_trades(t.trades, &t.transaction_creation_time);
        out.push(
            Transaction {
                id: t.transaction_id,
                date_time: t.transaction_creation_time,
                price: t.price,
                amount: t.amount,
                hedged: t.hedged,
                profit_loss_pct: t.profit_loss_pct,
                status: t.status,
                trades,
                side: t.side,
            },
        );
        i = i + 1;
    }
    out
}

impl LiquidityResponseBody {
    /// The liquidity view of the data: snapshot sides as `(price, amount)` pairs,
    /// open orders split by side in their order, transactions with their trades,
    /// and the indicators; `None` where the indicators cannot be computed.
    pub fn from_liquidity_data(liquidity_data: LiquidityData) -> (r: Option<LiquidityResponseBody>)
        ensures
            r is Some <==> get_indicators_defined(&liquidity_data),
            r matches Some(body) ==> {
                let state = body.orders_state_and_transactions;
                let book = liquidity_data.order_book;
                &&& state.exchange_name == book.exchange_id
                &&& state.currency_code_pair == book.currency_pair
                &&& state.desired_amount == liquidity_data.desired_amount
                &&& state.sell.snapshot@ == level_pairs(book.asks@)
                &&& state.buy.snapshot@ == level_pairs(book.bids@)
                &&& state.sell.orders@.map_values(|o: Order| (o.amount, o.price)) == orders_of_side(
                    book.orders@,
                    LiquidityOrderSide::Sell,
                )
                &&& state.buy.orders@.map_values(|o: Order| (o.amount, o.price)) == orders_of_side(
                    book.orders@,
                    LiquidityOrderSide::Buy,
                )
                &&& state.transactions@.len() == liquidity_data.transactions@.len()
                &&& forall|i: int|
                    0 <= i < state.transactions@.len() ==> {
                        let t = #[trigger] state.transactions@[i];
                        let s = liquidity_data.transactions@[i];
                        &&& t.id@ == s.transaction_id@
                        &&& t.date_time@ == s.transaction_creation_time@
                        &&& t.price == s.price
                        &&& t.amount == s.amount
                        &&& t.status@ == s.status@
                        &&& t.side == s.side
                        &&& t.trades@.len() == s.trades@.len()
                    }
                &&& opt_value(state.indicators.total_bid) == side_total(
                    book.orders@,
                    LiquidityOrderSide::Buy,
                )
                &&& opt_value(state.indicators.total_ask) == side_total(
                    book.orders@,
                    LiquidityOrderSide::Sell,
                )
                &&& opt_value(state.indicators.spread) == spread_of(
                    extreme_price(level_pairs(book.asks@), false),
                    extreme_price(level_pairs(book.bids@), true),
                )
            },
    {
        let sell_snapshot = to_pairs(&liquidity_data.order_book.asks);
        let buy_snapshot = to_pairs(&liquidity_data.order_book.bids);
        let sell_orders = split_orders(&liquidity_data.order_book.orders, LiquidityOrderSide::Sell);
        let buy_orders = split_orders(&liquidity_data.order_book.orders, LiquidityOrderSide::Buy);
        let indicators = match get_indicators(
            &liquidity_data.order_book.orders,
            &buy_snapshot,
            &sell_snapshot,
            liquidity_data.desired_amount,
        ) {
            Some(i) => i,
            None => {
                return None;
            },
        };
        let transactions = to_transactions(liquidity_data.transactions);
        let state = OrderStateAndTransactions {
            exchange_name: liquidity_data.order_book.exchange_id,
            currency_code_pair: liquidity_data.order_book.currency_pair,
            desired_amount: liquidity_data.desired_amount,
            sell: Orders { orders: sell_orders, snapshot: sell_snapshot },
            buy: Orders { orders: buy_orders, snapshot: buy_snapshot },
            transactions,
            indicators,
        };
        Some(LiquidityResponseBody { orders_state_and_transactions: state })
    }
}

/// Whether the indicators of the data can be computed.
pub open spec fn get_indicators_defined(data: &LiquidityData) -> bool {
    let orders = data.order_book.orders@;
    &&& side_total_fits(orders, LiquidityOrderSide::Buy)
    &&& side_total_fits(orders, LiquidityOrderSide::Sell)
    &&& exists|tb: Option<Dec>, ta: Option<Dec>|
        opt_value(tb) == side_total(orders, LiquidityOrderSide::Buy) && opt_value(ta) == side_total(
            orders,
            LiquidityOrderSide::Sell,
        ) && #[trigger] indicators_defined(
            extreme_price(level_pairs(data.order_book.bids@), true),
            extreme_price(level_pairs(data.order_book.asks@), false),
            tb,
            ta,
            data.desired_amount,
        )
}

} // verus!
