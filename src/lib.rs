//! Live order-book state and balance reservations for a multi-exchange trading
//! engine: price ladders and per-market snapshots fed by order book events, and a
//! balance manager whose reserved amounts always equal what the outstanding
//! reservations hold back.

use vstd::prelude::*;

pub mod decimal;
pub mod keyed;
pub mod ids;
pub mod order_book;
pub mod snapshots;
pub mod event_router;
pub mod value_tree;
pub mod balance;
pub mod balance_manager;
pub mod liquidity;
pub mod settings;
pub mod rest_client;
pub mod solana;

verus! {

} // verus!
