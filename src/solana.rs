use vstd::prelude::*;

use crate::balance::OrderSide;
use crate::ids::CurrencyPair;
use crate::keyed::{ExactKey, KeyedList};
use crate::order_book::LadderSide;

verus! {

pub const MAINNET_URL: &'static str = "https://api.mainnet-beta.solana.com";

pub const MAINNET_WS: &'static str = "ws://api.mainnet-beta.solana.com/";

pub const MAINNET_MARKET_LIST_URL: &'static str = "https://raw.githubusercontent.com/project-serum/serum-ts/master/packages/serum/src/markets.json";

/// The endpoints of a Solana network other than mainnet.
pub struct SolanaHosts {
    url: String,
    ws: String,
    market_url: String,
    market_list_json: Option<String>,
}

impl SolanaHosts {
    pub closed spec fn url_spec(&self) -> Seq<char> {
        self.url@
    }

    pub closed spec fn ws_spec(&self) -> Seq<char> {
        self.ws@
    }

    pub closed spec fn market_url_spec(&self) -> Seq<char> {
        self.market_url@
    }

    pub closed spec fn market_list_json_spec(&self) -> Option<String> {
        self.market_list_json
    }

    pub fn new(url: String, ws: String, market_url: String, market_list_json: Option<String>) -> (r:
        SolanaHosts)
        ensures
            r.url_spec() == url@,
            r.ws_spec() == ws@,
            r.market_url_spec() == market_url@,
            r.market_list_json_spec() == market_list_json,
    {
        SolanaHosts { url, ws, market_url, market_list_json }
    }
}

/// The Solana network to connect to.
pub enum NetworkType {
    Mainnet,
    Custom(SolanaHosts),
}

impl NetworkType {
    /// The RPC endpoint.
    pub fn url(&self) -> (r: &str)
        ensures
            self is Mainnet ==> r@ == MAINNET_URL@,
            self matches NetworkType::Custom(h) ==> r@ == h.url_spec(),
    {
        match self {
            NetworkType::Mainnet => MAINNET_URL,
            NetworkType::Custom(network_opts) => network_opts.url.as_str(),
        }
    }

    /// The websocket endpoint.
    pub fn ws(&self) -> (r: &str)
        ensures
            self is Mainnet ==> r@ == MAINNET_WS@,
            self matches NetworkType::Custom(h) ==> r@ == h.ws_spec(),
    {
        match self {
            NetworkType::Mainnet => MAINNET_WS,
            NetworkType::Custom(network_opts) => network_opts.ws.as_str(),
        }
    }

    /// Where the list of markets is published.
    pub fn market_list_url(&self) -> (r: &str)
        ensures
            self is Mainnet ==> r@ == MAINNET_MARKET_LIST_URL@,
            self matches NetworkType::Custom(h) ==> r@ == h.market_url_spec(),
    {
        match self {
            NetworkType::Custom(network_opts) => network_opts.market_url.as_str(),
            _ => MAINNET_MARKET_LIST_URL,
        }
    }

    /// A market list given inline, which only a custom network can have.
    pub fn market_list_json(&self) -> (r: Option<&String>)
        ensures
            self is Mainnet ==> r is None,
            self matches NetworkType::Custom(h) ==> (r is Some <==> h.market_list_json_spec() is Some),
            self matches NetworkType::Custom(h) ==> (r matches Some(s) ==> h.market_list_json_spec()
                == Some(*s)),
    {
        match self {
            NetworkType::Custom(network_opts) => network_opts.market_list_json.as_ref(),
            _ => None,
        }
    }
}

/// The kind of account that a subscription watches.
#[derive(Clone, Copy, Debug, PartialEq, Eq, Structural)]
pub enum SubscriptionAccountType {
    OrderBook,
    EventQueue,
    OpenOrders,
}

/// Converts a book side to the side of an order that rests on it.
pub trait ToOrderSide {
    fn to_order_side(&self) -> (r: OrderSide)
        ensures
            r == self.to_order_side_spec(),
    ;

    spec fn to_order_side_spec(&self) -> OrderSide;
}

/// Converts an order side to the book side on which the order rests.
pub trait ToSerumSide {
    fn to_serum_side(&self) -> (r: LadderSide)
        ensures
            r == self.to_serum_side_spec(),
    ;

    spec fn to_serum_side_spec(&self) -> LadderSide;
}

impl ToOrderSide for LadderSide {
    /// Bids are buys and asks are sells.
    open spec fn to_order_side_spec(&self) -> OrderSide {
        match self {
            LadderSide::Bid => OrderSide::Buy,
            LadderSide::Ask => OrderSide::Sell,
        }
    }

    fn to_order_side(&self) -> (r: OrderSide) {
        match self {
            LadderSide::Bid => OrderSide::Buy,
            LadderSide::Ask => OrderSide::Sell,
        }
    }
}

impl ToSerumSide for OrderSide {
    /// Buys rest on the bid side and sells on the ask side.
    open spec fn to_serum_side_spec(&self) -> LadderSide {
        match self {
            OrderSide::Buy => LadderSide::Bid,
            OrderSide::Sell => LadderSide::Ask,
        }
    }

    fn to_serum_side(&self) -> (r: LadderSide) {
        match self {
            OrderSide::Buy => LadderSide::Bid,
            OrderSide::Sell => LadderSide::Ask,
        }
    }
}

/// A 32-byte account address.
#[derive(Clone, Copy, Debug, PartialEq, Eq, Hash)]
pub struct PublicKey {
    pub bytes: [u8; 32],
}

/// Byte `j` (least significant first) of `x`.
pub open spec fn le_byte(x: u64, j: int) -> u8 {
    ((x >> (8 * j) as u64) & 0xff) as u8
}

/// Builds a value from four 64-bit words.
pub trait FromU64Array: Sized {
    spec fn from_words_spec(arr: [u64; 4], r: Self) -> bool;

    fn from_u64_array(arr: [u64; 4]) -> (r: Self)
        ensures
            Self::from_words_spec(arr, r),
    ;
}

impl FromU64Array for PublicKey {
    /// The words in order, each as its eight bytes, least significant first.
    open spec fn from_words_spec(arr: [u64; 4], r: PublicKey) -> bool {
        forall|i: int, j: int|
            0 <= i < 4 && 0 <= j < 8 ==> #[trigger] r.bytes@[8 * i + j] == le_byte(arr@[i], j)
    }

    fn from_u64_array(arr: [u64; 4]) -> (r: PublicKey) {
        let mut key: [u8; 32] = [0; 32];
        let mut i: usize = 0;
        while i < 4
            invariant
                i <= 4,
                key@.len() == 32,
                forall|a: int, b: int|
                    0 <= a < i && 0 <= b < 8 ==> #[trigger] key@[8 * a + b] == le_byte(arr@[a], b),
            decreases 4 - i,
        {
            let word = arr[i];
            let mut j: usize = 0;
            while j < 8
                invariant
                    i < 4,
                    j <= 8,
                    word == arr@[i as int],
                    key@.len() == 32,
                    forall|a: int, b: int|
                        0 <= a < i && 0 <= b < 8 ==> #[trigger] key@[8 * a + b] == le_byte(arr@[a], b),
                    forall|b: int| 0 <= b < j ==> #[trigger] key@[8 * i + b] == le_byte(word, b),
                decreases 8 - j,
            {
                let byte = ((word >> (8 * j) as u64) & 0xff) as u8;
                key.set(8 * i + j, byte);
                proof {
                    assert forall|a: int, b: int|
                        0 <= a < i && 0 <= b < 8 implies #[trigger] key@[8 * a + b] == le_byte(arr@[a], b) by {
                        assert(8 * a + b != 8 * i + j);
                    }
                }
                j = j + 1;
            }
            i = i + 1;
        }
        PublicKey { bytes: key }
    }
}

/// Identifies a subscription request, and the subscription that the node grants.
#[derive(Clone, Copy, Debug, PartialEq, Eq, Hash, Structural)]
pub struct RequestId {
    pub id: u64,
}

impl View for RequestId {
    type V = u64;

    open spec fn view(&self) -> u64 {
        self.id
    }
}

impl ExactKey for RequestId {
    fn same_key(&self, o: &Self) -> (r: bool) {
        self.id == o.id
    }

    fn copy_key(&self) -> (r: Self) {
        *self
    }
}

/// What a subscription watches: one side's order book, the event queue, or the
/// open orders of a market.
pub struct SubscriptionMarketData {
    pub currency_pair: CurrencyPair,
    pub side: LadderSide,
    pub account_type: SubscriptionAccountType,
}

impl View for SubscriptionMarketData {
    type V = ((Seq<char>, Seq<char>), LadderSide, SubscriptionAccountType);

    open spec fn view(&self) -> Self::V {
        (self.currency_pair@, self.side, self.account_type)
    }
}

impl SubscriptionMarketData {
    pub fn copy_data(&self) -> (r: SubscriptionMarketData)
        ensures
            r@ == self@,
    {
        SubscriptionMarketData {
            currency_pair: self.currency_pair.copy_key(),
            side: self.side,
            account_type: self.account_type,
        }
    }
}

/// A websocket message of the node, as read from its JSON.
pub enum WebsocketMessage {
    /// The node granted subscription `result` for request `id`.
    SubscribeResult { id: RequestId, result: RequestId },
    /// An account watched by `subscription` changed; `account` is the account's
    /// new state as the node sent it.
    AccountNotification { subscription: RequestId, account: String },
}

/// What a websocket message means to the exchange.
pub enum SolanaMessage {
    Unknown,
    Service,
    /// What the subscription watches, and the account's new state.
    AccountUpdated(SubscriptionMarketData, String),
}

/// The client side of a Solana node connection: the RPC endpoint, the
/// subscription requests that await an answer and the subscriptions that the node
/// granted, against which notifications are matched.
pub struct SolanaClient {
    rpc_url: String,
    subscription_requests: KeyedList<RequestId, SubscriptionMarketData>,
    subscriptions: KeyedList<RequestId, SubscriptionMarketData>,
    next_request_id: u64,
}

pub type SubscriptionView = ((Seq<char>, Seq<char>), LadderSide, SubscriptionAccountType);

impl SolanaClient {
    pub closed spec fn requests(&self) -> Map<u64, SubscriptionView> {
        self.subscription_requests.map()
    }

    pub closed spec fn granted(&self) -> Map<u64, SubscriptionView> {
        self.subscriptions.map()
    }

    pub closed spec fn next_id(&self) -> u64 {
        self.next_request_id
    }

    /// Requests carry identifiers below the next one to be handed out.
    pub closed spec fn wf(&self) -> bool {
        &&& self.subscription_requests.wf()
        &&& self.subscriptions.wf()
        &&& forall|k: u64| #[trigger] self.subscription_requests.map().contains_key(k) ==> k
            < self.next_request_id
    }

    pub closed spec fn rpc_url_spec(&self) -> Seq<char> {
        self.rpc_url@
    }

    /// A client of the network's RPC endpoint, with no subscriptions yet.
    pub fn new(network_type: &NetworkType) -> (r: SolanaClient)
        ensures
            r.wf(),
            network_type is Mainnet ==> r.rpc_url_spec() == MAINNET_URL@,
            network_type matches NetworkType::Custom(h) ==> r.rpc_url_spec() == h.url_spec(),
            r.requests() == Map::<u64, SubscriptionView>::empty(),
            r.granted() == Map::<u64, SubscriptionView>::empty(),
            r.next_id() == 1,
    {
        SolanaClient {
            rpc_url: network_type.url().to_owned(),
            subscription_requests: KeyedList::new(),
            subscriptions: KeyedList::new(),
            next_request_id: 1,
        }
    }

    pub fn rpc_url(&self) -> (r: &str)
        ensures
            r@ == self.rpc_url_spec(),
    {
        self.rpc_url.as_str()
    }

    /// Records a request for what `data` describes under a fresh identifier.
    pub fn register_request(&mut self, data: SubscriptionMarketData) -> (r: RequestId)
        requires
            old(self).wf(),
            old(self).next_id() < u64::MAX,
        ensures
            final(self).wf(),
            r.id == old(self).next_id(),
            !old(self).requests().contains_key(r.id),
            final(self).next_id() == old(self).next_id() + 1,
            final(self).requests() == old(self).requests().insert(r.id, data@),
            final(self).granted() == old(self).granted(),
    {
        let id = RequestId { id: self.next_request_id };
        self.subscription_requests.insert(id, data);
        self.next_request_id = self.next_request_id + 1;
        id
    }

    /// Requests the ask side, the bid side and the event queue of a market; the
    /// identifiers come back in that order, for the subscription messages.
    pub fn subscribe_to_market(&mut self, currency_pair: &CurrencyPair) -> (r: (
        RequestId,
        RequestId,
        RequestId,
    ))
        requires
            old(self).wf(),
            old(self).next_id() < u64::MAX - 3,
        ensures
            final(self).wf(),
            r.0.id == old(self).next_id(),
            r.1.id == old(self).next_id() + 1,
            r.2.id == old(self).next_id() + 2,
            !old(self).requests().contains_key(r.0.id),
            !old(self).requests().contains_key(r.1.id),
            !old(self).requests().contains_key(r.2.id),
            final(self).next_id() == old(self).next_id() + 3,
            final(self).requests() == old(self).requests().insert(
                r.0.id,
                (currency_pair@, LadderSide::Ask, SubscriptionAccountType::OrderBook),
            ).insert(r.1.id, (currency_pair@, LadderSide::Bid, SubscriptionAccountType::OrderBook)).insert(
                r.2.id,
                (currency_pair@, LadderSide::Bid, SubscriptionAccountType::EventQueue),
            ),
            final(self).granted() == old(self).granted(),
    {
        let ask_request_id = self.register_request(
            SubscriptionMarketData {
                currency_pair: currency_pair.copy_key(),
                side: LadderSide::Ask,
                account_type: SubscriptionAccountType::OrderBook,
            },
        );
        let bid_request_id = self.register_request(
            SubscriptionMarketData {
                currency_pair: currency_pair.copy_key(),
                side: LadderSide::Bid,
                account_type: SubscriptionAccountType::OrderBook,
            },
        );
        let event_queue_request_id = self.register_request(
            SubscriptionMarketData {
                currency_pair: currency_pair.copy_key(),
                side: LadderSide::Bid,
                account_type: SubscriptionAccountType::EventQueue,
            },
        );
        (ask_request_id, bid_request_id, event_queue_request_id)
    }

    /// Requests the open orders account of a market.
    pub fn subscribe_to_open_order_account(&mut self, currency_pair: &CurrencyPair) -> (r:
        RequestId)
        requires
            old(self).wf(),
            old(self).next_id() < u64::MAX,
        ensures
            final(self).wf(),
            r.id == old(self).next_id(),
            !old(self).requests().contains_key(r.id),
            final(self).next_id() == old(self).next_id() + 1,
            final(self).requests() == old(self).requests().insert(
                r.id,
                (currency_pair@, LadderSide::Bid, SubscriptionAccountType::OpenOrders),
            ),
            final(self).granted() == old(self).granted(),
    {
        self.register_request(
            SubscriptionMarketData {
                currency_pair: currency_pair.copy_key(),
                side: LadderSide::Bid,
                account_type: SubscriptionAccountType::OpenOrders,
            },
        )
    }

    /// Handles a websocket message; `None` stands for one that could not be read.
    /// A subscription result moves its request, if still pending, to the granted
    /// subscriptions under the granted identifier. A notification is matched to
    /// what its subscription watches; one for an unknown subscription is not ours.
    pub fn handle_on_message(&mut self, message: Option<WebsocketMessage>) -> (r: SolanaMessage)
        requires
            old(self).wf(),
        ensures
            final(self).wf(),
            final(self).next_id() == old(self).next_id(),
            message is None ==> r is Unknown && final(self).requests() == old(self).requests()
                && final(self).granted() == old(self).granted(),
            message matches Some(WebsocketMessage::SubscribeResult { id, result }) ==> r is Service,
            message matches Some(WebsocketMessage::SubscribeResult { id, result })
                ==> old(self).requests().contains_key(id.id) ==> final(self).requests() == old(self).requests().remove(id.id)
                && final(self).granted() == old(self).granted().insert(result.id, old(self).requests()[id.id]),
            message matches Some(WebsocketMessage::SubscribeResult { id, result })
                ==> !old(self).requests().contains_key(id.id) ==> final(self).requests() == old(self).requests()
                && final(self).granted() == old(self).granted(),
            message matches Some(WebsocketMessage::AccountNotification { subscription, account })
                ==> final(self).requests() == old(self).requests() && final(self).granted() == old(self).granted(),
            message matches Some(WebsocketMessage::AccountNotification { subscription, account })
                ==> old(self).granted().contains_key(subscription.id) ==> r is AccountUpdated
                && r->AccountUpdated_0@ == old(self).granted()[subscription.id]
                && r->AccountUpdated_1@ == account@,
            message matches Some(WebsocketMessage::AccountNotification { subscription, account })
                ==> !old(self).granted().contains_key(subscription.id) ==> r is Unknown,
    {
        match message {
            None => SolanaMessage::Unknown,
            Some(WebsocketMessage::SubscribeResult { id, result }) => {
                match self.subscription_requests.remove(&id) {
                    Some(data) => {
                        self.subscriptions.insert(result, data);
                    },
                    None => {},
                }
                SolanaMessage::Service
            },
            Some(WebsocketMessage::AccountNotification { subscription, account }) => {
                match self.subscriptions.get(&subscription) {
                    Some(data) => SolanaMessage::AccountUpdated(data.copy_data(), account),
                    None => SolanaMessage::Unknown,
                }
            },
        }
    }
}

} // verus!
