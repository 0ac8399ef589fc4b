use vstd::prelude::*;

use crate::keyed::ExactKey;

verus! {

/// A currency ticker, such as `BTC` or `USDT`.
#[derive(Clone, Debug, PartialEq, Eq, Hash)]
pub struct CurrencyCode {
    pub code: String,
}

/// Identifies one sub-account of an exchange.
#[derive(Clone, Debug, PartialEq, Eq, Hash)]
pub struct ExchangeAccountId {
    pub exchange_id: String,
    pub account_number: u8,
}

/// A logical trading pair: the base currency is bought or sold for the quote currency.
#[derive(Clone, Debug, PartialEq, Eq, Hash)]
pub struct CurrencyPair {
    pub base: CurrencyCode,
    pub quote: CurrencyCode,
}

/// A market of an exchange, whatever the sub-account trading on it.
#[derive(Clone, Debug, PartialEq, Eq, Hash)]
pub struct MarketId {
    pub exchange_id: String,
    pub currency_pair: CurrencyPair,
}

/// The trading surface of one sub-account on one market.
#[derive(Clone, Debug, PartialEq, Eq, Hash)]
pub struct MarketAccountId {
    pub exchange_account_id: ExchangeAccountId,
    pub currency_pair: CurrencyPair,
}

impl View for CurrencyCode {
    type V = Seq<char>;

    open spec fn view(&self) -> Seq<char> {
        self.code@
    }
}

impl View for ExchangeAccountId {
    type V = (Seq<char>, u8);

    open spec fn view(&self) -> (Seq<char>, u8) {
        (self.exchange_id@, self.account_number)
    }
}

impl View for CurrencyPair {
    type V = (Seq<char>, Seq<char>);

    open spec fn view(&self) -> (Seq<char>, Seq<char>) {
        (self.base@, self.quote@)
    }
}

impl View for MarketId {
    type V = (Seq<char>, (Seq<char>, Seq<char>));

    open spec fn view(&self) -> (Seq<char>, (Seq<char>, Seq<char>)) {
        (self.exchange_id@, self.currency_pair@)
    }
}

impl View for MarketAccountId {
    type V = ((Seq<char>, u8), (Seq<char>, Seq<char>));

    open spec fn view(&self) -> ((Seq<char>, u8), (Seq<char>, Seq<char>)) {
        (self.exchange_account_id@, self.currency_pair@)
    }
}

impl CurrencyCode {
    pub fn new(code: &str) -> (r: CurrencyCode)
        ensures
            r@ == code@,
    {
        CurrencyCode { code: code.to_owned() }
    }
}

impl ExchangeAccountId {
    pub fn new(exchange_id: &str, account_number: u8) -> (r: ExchangeAccountId)
        ensures
            r@ == (exchange_id@, account_number),
    {
        ExchangeAccountId { exchange_id: exchange_id.to_owned(), account_number }
    }
}

impl CurrencyPair {
    pub fn from_codes(base: CurrencyCode, quote: CurrencyCode) -> (r: CurrencyPair)
        ensures
            r@ == (base@, quote@),
    {
        CurrencyPair { base, quote }
    }
}

impl MarketId {
    pub fn new(exchange_id: &str, currency_pair: CurrencyPair) -> (r: MarketId)
        ensures
            r@ == (exchange_id@, currency_pair@),
    {
        MarketId { exchange_id: exchange_id.to_owned(), currency_pair }
    }
}

impl MarketAccountId {
    pub fn new(exchange_account_id: ExchangeAccountId, currency_pair: CurrencyPair) -> (r:
        MarketAccountId)
        ensures
            r@ == (exchange_account_id@, currency_pair@),
    {
        MarketAccountId { exchange_account_id, currency_pair }
    }

    /// The market that this sub-account trades on.
    pub fn market_id(&self) -> (r: MarketId)
        ensures
            r@ == (self@.0.0, self@.1),
    {
        MarketId {
            exchange_id: self.exchange_account_id.exchange_id.clone(),
            currency_pair: self.currency_pair.copy_key(),
        }
    }
}

impl ExactKey for CurrencyCode {
    fn same_key(&self, o: &Self) -> (r: bool) {
        self.code == o.code
    }

    fn copy_key(&self) -> (r: Self) {
        CurrencyCode { code: self.code.clone() }
    }
}

impl ExactKey for ExchangeAccountId {
    fn same_key(&self, o: &Self) -> (r: bool) {
        self.exchange_id == o.exchange_id && self.account_number == o.account_number
    }

    fn copy_key(&self) -> (r: Self) {
        ExchangeAccountId {
            exchange_id: self.exchange_id.clone(),
            account_number: self.account_number,
        }
    }
}

impl ExactKey for CurrencyPair {
    fn same_key(&self, o: &Self) -> (r: bool) {
        self.base.same_key(&o.base) && self.quote.same_key(&o.quote)
    }

    fn copy_key(&self) -> (r: Self) {
        CurrencyPair { base: self.base.copy_key(), quote: self.quote.copy_key() }
    }
}

impl ExactKey for MarketId {
    fn same_key(&self, o: &Self) -> (r: bool) {
        self.exchange_id == o.exchange_id && self.currency_pair.same_key(&o.currency_pair)
    }

    fn copy_key(&self) -> (r: Self) {
        MarketId {
            exchange_id: self.exchange_id.clone(),
            currency_pair: self.currency_pair.copy_key(),
        }
    }
}

impl ExactKey for MarketAccountId {
    fn same_key(&self, o: &Self) -> (r: bool) {
        self.exchange_account_id.same_key(&o.exchange_account_id)
            && self.currency_pair.same_key(&o.currency_pair)
    }

    fn copy_key(&self) -> (r: Self) {
        MarketAccountId {
            exchange_account_id: self.exchange_account_id.copy_key(),
            currency_pair: self.currency_pair.copy_key(),
        }
    }
}

} // verus!
