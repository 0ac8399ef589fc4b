use mmb_engine::ids::{CurrencyCode, CurrencyPair};
use mmb_engine::order_book::LadderSide;
use mmb_engine::solana::{
    NetworkType, RequestId, SolanaClient, SolanaMessage, SubscriptionAccountType, ToOrderSide,
    ToSerumSide, WebsocketMessage,
};
use mmb_engine::balance::OrderSide;

fn pair() -> CurrencyPair {
    CurrencyPair::from_codes(CurrencyCode::new("SOL"), CurrencyCode::new("USDC"))
}

#[test]
fn subscription_result_then_notification() {
    let mut registry = SolanaClient::new(&NetworkType::Mainnet);
    assert_eq!(registry.rpc_url(), "https://api.mainnet-beta.solana.com");
    let (ask, bid, events) = registry.subscribe_to_market(&pair());
    assert_eq!((ask.id, bid.id, events.id), (1, 2, 3));
    let open_orders = registry.subscribe_to_open_order_account(&pair());
    assert_eq!(open_orders.id, 4);

    // A notification before the subscription is granted is not ours.
    let early = registry.handle_on_message(Some(WebsocketMessage::AccountNotification {
        subscription: RequestId { id: 100 },
        account: "{}".to_string(),
    }));
    assert!(matches!(early, SolanaMessage::Unknown));

    let granted = registry.handle_on_message(Some(WebsocketMessage::SubscribeResult {
        id: bid,
        result: RequestId { id: 100 },
    }));
    assert!(matches!(granted, SolanaMessage::Service));

    match registry.handle_on_message(Some(WebsocketMessage::AccountNotification {
        subscription: RequestId { id: 100 },
        account: "{\"lamports\":5}".to_string(),
    })) {
        SolanaMessage::AccountUpdated(data, account) => {
            assert_eq!(account, "{\"lamports\":5}");
            assert_eq!(data.side, LadderSide::Bid);
            assert_eq!(data.account_type, SubscriptionAccountType::OrderBook);
            assert_eq!(data.currency_pair, pair());
        }
        _ => panic!("granted subscription is known"),
    }

    // A second result for the same request finds nothing pending.
    let again = registry.handle_on_message(Some(WebsocketMessage::SubscribeResult {
        id: bid,
        result: RequestId { id: 101 },
    }));
    assert!(matches!(again, SolanaMessage::Service));
    let unknown = registry.handle_on_message(Some(WebsocketMessage::AccountNotification {
        subscription: RequestId { id: 101 },
        account: String::new(),
    }));
    assert!(matches!(unknown, SolanaMessage::Unknown));
    assert!(matches!(registry.handle_on_message(None), SolanaMessage::Unknown));
}

#[test]
fn sides_convert_both_ways() {
    assert_eq!(LadderSide::Bid.to_order_side(), OrderSide::Buy);
    assert_eq!(LadderSide::Ask.to_order_side(), OrderSide::Sell);
    assert_eq!(OrderSide::Buy.to_serum_side(), LadderSide::Bid);
    assert_eq!(OrderSide::Sell.to_serum_side(), LadderSide::Ask);
}
