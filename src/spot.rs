//! Spot market reference data: currencies, trading pairs and tickers.
use vstd::prelude::*;
use crate::decimal::{amount_view, decimal_value, parse_amount, MAX_AMOUNT};
use crate::snapshot::{Keyed, Snapshot, WithRecent};

verus! {

/// A spot currency and the precision its amounts are quoted in.
#[derive(Debug, Clone)]
pub struct Currency {
    pub currency: String,
    pub name: String,
    pub full_name: String,
    pub precision: u8,
    pub confirms: Option<u8>,
    pub contract_address: Option<String>,
    pub is_margin_enabled: bool,
    pub is_debit_enabled: bool,
    pub chains: Option<Vec<Chain>>,
}

/// A chain on which a currency can be deposited or withdrawn.
#[derive(Debug, Clone)]
pub struct Chain {
    pub chain_id: String,
    pub chain_name: String,
    pub confirms: u16,
    pub contract_address: String,
    pub deposit_fee_rate: Option<String>,
    pub deposit_min_size: Option<String>,
    pub deposit_tier_fee: Option<String>,
    pub is_deposit_enabled: bool,
    pub is_withdraw_enabled: bool,
    pub max_deposit: Option<String>,
    pub max_withdraw: Option<String>,
    pub need_tag: bool,
    pub pre_confirms: u16,
    pub withdrawal_min_fee: Option<String>,
    pub withdrawal_min_size: Option<String>,
    pub withdraw_fee_rate: Option<String>,
    pub withdraw_max_fee: Option<String>,
    pub withdraw_precision: u8,
}

impl Keyed for Currency {
    open spec fn key_view(&self) -> Seq<char> {
        self.currency@
    }

    fn key(&self) -> (r: &str) {
        self.currency.as_str()
    }
}

impl Currency {
    pub fn currency(&self) -> (r: &str)
        ensures
            r@ == self.currency@,
    {
        self.currency.as_str()
    }

    /// Decimal digits in which amounts of this currency are quoted.
    pub fn precision(&self) -> (r: u8)
        ensures
            r == self.precision,
    {
        self.precision
    }
}

/// A trading pair with its size limits and steps.
#[derive(Debug, Clone)]
pub struct Symbol {
    pub symbol: String,
    pub name: String,
    pub base_currency: String,
    pub quote_currency: String,
    pub fee_currency: String,
    pub market: String,
    pub base_min_size: String,
    pub quote_min_size: String,
    pub base_max_size: String,
    pub quote_max_size: String,
    pub base_increment: String,
    pub quote_increment: String,
    pub price_increment: String,
    pub price_limit_rate: String,
    pub min_funds: Option<String>,
    pub is_margin_enabled: bool,
    pub enable_trading: bool,
    pub fee_category: u8,
    pub maker_fee_coefficient: String,
    pub taker_fee_coefficient: String,
    pub st: bool,
    pub callauction_is_enabled: bool,
    pub callauction_price_floor: Option<String>,
    pub callauction_price_ceiling: Option<String>,
    pub callauction_first_stage_start_time: Option<u64>,
    pub callauction_second_stage_start_time: Option<u64>,
    pub callauction_third_stage_start_time: Option<u64>,
    pub trading_start_time: Option<u64>,
}

impl Keyed for Symbol {
    open spec fn key_view(&self) -> Seq<char> {
        self.symbol@
    }

    fn key(&self) -> (r: &str) {
        self.symbol.as_str()
    }
}

impl Symbol {
    pub fn symbol(&self) -> (r: &str)
        ensures
            r@ == self.symbol@,
    {
        self.symbol.as_str()
    }

    pub fn base_currency(&self) -> (r: &str)
        ensures
            r@ == self.base_currency@,
    {
        self.base_currency.as_str()
    }

    pub fn quote_currency(&self) -> (r: &str)
        ensures
            r@ == self.quote_currency@,
    {
        self.quote_currency.as_str()
    }

    pub fn base_min_size(&self) -> (r: Option<u128>)
        ensures
            amount_view(r) == decimal_value(self.base_min_size@),
    {
        parse_amount(self.base_min_size.as_str())
    }

    pub fn quote_min_size(&self) -> (r: Option<u128>)
        ensures
            amount_view(r) == decimal_value(self.quote_min_size@),
    {
        parse_amount(self.quote_min_size.as_str())
    }

    pub fn base_max_size(&self) -> (r: Option<u128>)
        ensures
            amount_view(r) == decimal_value(self.base_max_size@),
            r matches Some(a) ==> a <= MAX_AMOUNT,
    {
        parse_amount(self.base_max_size.as_str())
    }

    pub fn quote_max_size(&self) -> (r: Option<u128>)
        ensures
            amount_view(r) == decimal_value(self.quote_max_size@),
            r matches Some(a) ==> a <= MAX_AMOUNT,
    {
        parse_amount(self.quote_max_size.as_str())
    }

    pub fn base_increment(&self) -> (r: Option<u128>)
        ensures
            amount_view(r) == decimal_value(self.base_increment@),
            r matches Some(a) ==> a <= MAX_AMOUNT,
    {
        parse_amount(self.base_increment.as_str())
    }

    pub fn quote_increment(&self) -> (r: Option<u128>)
        ensures
            amount_view(r) == decimal_value(self.quote_increment@),
            r matches Some(a) ==> a <= MAX_AMOUNT,
    {
        parse_amount(self.quote_increment.as_str())
    }

    pub fn price_increment(&self) -> (r: Option<u128>)
        ensures
            amount_view(r) == decimal_value(self.price_increment@),
    {
        parse_amount(self.price_increment.as_str())
    }
}

/// The latest market statistics of a trading pair.
#[derive(Debug, Clone)]
pub struct Ticker {
    pub symbol: String,
    pub symbol_name: String,
    pub buy: Option<String>,
    pub best_bid_size: Option<String>,
    pub sell: Option<String>,
    pub best_ask_size: Option<String>,
    pub change_rate: Option<String>,
    pub change_price: Option<String>,
    pub high: String,
    pub low: String,
    pub vol: Option<String>,
    pub vol_value: String,
    pub last: Option<String>,
    pub average_price: Option<String>,
    pub taker_fee_rate: String,
    pub maker_fee_rate: String,
    pub taker_coefficient: String,
    pub maker_coefficient: String,
}

/// The last traded price a ticker reports, if it reports a readable one.
pub open spec fn last_price(t: Ticker) -> Option<nat> {
    match t.last {
        Some(s) => decimal_value(s@),
        None => None,
    }
}

impl Keyed for Ticker {
    open spec fn key_view(&self) -> Seq<char> {
        self.symbol@
    }

    fn key(&self) -> (r: &str) {
        self.symbol.as_str()
    }
}

impl Ticker {
    pub fn symbol(&self) -> (r: &str)
        ensures
            r@ == self.symbol@,
    {
        self.symbol.as_str()
    }

    /// The last traded price.
    pub fn last(&self) -> (r: Option<u128>)
        ensures
            amount_view(r) == last_price(*self),
    {
        match &self.last {
            Some(s) => parse_amount(s.as_str()),
            None => None,
        }
    }
}

/// Spot currencies, filed by currency.
pub struct Currencies(pub Snapshot<Currency>);

impl View for Currencies {
    type V = Map<Seq<char>, Currency>;

    open spec fn view(&self) -> Map<Seq<char>, Currency> {
        self.0@
    }
}

impl Currencies {
    /// The records in the order the last refresh delivered them.
    pub open spec fn records_view(&self) -> Seq<Currency> {
        self.0.records_view()
    }

    pub fn new() -> (r: Self)
        ensures
            r@ == Map::<Seq<char>, Currency>::empty(),
            r.records_view() == Seq::<Currency>::empty(),
    {
        Currencies(Snapshot::new())
    }

    /// The record filed under `k`, if any.
    pub fn get(&self, k: &str) -> (r: Option<&Currency>)
        ensures
            match r {
                Some(v) => self@.contains_key(k@) && self@[k@] == *v,
                None => !self@.contains_key(k@),
            },
    {
        self.0.get(k)
    }

    /// Installs what a fetch returned; on failure the previous records stay.
    pub fn refresh<E>(&mut self, fetched: Result<Vec<Currency>, E>)
        ensures
            match fetched {
                Ok(records) => final(self).records_view() == records@,
                Err(_) => final(self).records_view() == old(self).records_view(),
            },
    {
        self.0.refresh(fetched);
    }

    pub fn records(&self) -> (r: &Vec<Currency>)
        ensures
            r@ == self.records_view(),
    {
        self.0.records()
    }
}

/// Trading pairs, filed by symbol.
pub struct Symbols(pub Snapshot<Symbol>);

impl View for Symbols {
    type V = Map<Seq<char>, Symbol>;

    open spec fn view(&self) -> Map<Seq<char>, Symbol> {
        self.0@
    }
}

impl Symbols {
    /// The records in the order the last refresh delivered them.
    pub open spec fn records_view(&self) -> Seq<Symbol> {
        self.0.records_view()
    }

    pub fn new() -> (r: Self)
        ensures
            r@ == Map::<Seq<char>, Symbol>::empty(),
            r.records_view() == Seq::<Symbol>::empty(),
    {
        Symbols(Snapshot::new())
    }

    /// The record filed under `k`, if any.
    pub fn get(&self, k: &str) -> (r: Option<&Symbol>)
        ensures
            match r {
                Some(v) => self@.contains_key(k@) && self@[k@] == *v,
                None => !self@.contains_key(k@),
            },
    {
        self.0.get(k)
    }

    /// Installs what a fetch returned; on failure the previous records stay.
    pub fn refresh<E>(&mut self, fetched: Result<Vec<Symbol>, E>)
        ensures
            match fetched {
                Ok(records) => final(self).records_view() == records@,
                Err(_) => final(self).records_view() == old(self).records_view(),
            },
    {
        self.0.refresh(fetched);
    }

    pub fn records(&self) -> (r: &Vec<Symbol>)
        ensures
            r@ == self.records_view(),
    {
        self.0.records()
    }
}

/// Tickers, filed by symbol, with a recency list.
pub type Tickers = WithRecent<Ticker>;

/// The three spot snapshots.
pub struct SpotTrading {
    pub currencies: Currencies,
    pub symbols: Symbols,
    pub tickers: Tickers,
}

impl SpotTrading {
    pub fn new() -> (r: Self)
        ensures
            r.tickers.wf(),
            r.tickers.recent_view() == Seq::<Seq<char>>::empty(),
            r.currencies@ == Map::<Seq<char>, Currency>::empty(),
            r.symbols@ == Map::<Seq<char>, Symbol>::empty(),
            r.tickers@ == Map::<Seq<char>, Ticker>::empty(),
    {
        SpotTrading { currencies: Currencies::new(), symbols: Symbols::new(), tickers: WithRecent::new() }
    }

    pub fn currencies_ref(&self) -> (r: &Currencies)
        ensures
            *r == self.currencies,
    {
        &self.currencies
    }

    pub fn currencies(&mut self) -> (r: &mut Currencies)
        ensures
            *r == old(self).currencies,
            *final(self) == (SpotTrading { currencies: *final(r), ..*old(self) }),
    {
        &mut self.currencies
    }

    pub fn symbols_ref(&self) -> (r: &Symbols)
        ensures
            *r == self.symbols,
    {
        &self.symbols
    }

    pub fn symbols(&mut self) -> (r: &mut Symbols)
        ensures
            *r == old(self).symbols,
            *final(self) == (SpotTrading { symbols: *final(r), ..*old(self) }),
    {
        &mut self.symbols
    }

    pub fn tickers_ref(&self) -> (r: &Tickers)
        ensures
            *r == self.tickers,
    {
        &self.tickers
    }

    pub fn tickers(&mut self) -> (r: &mut Tickers)
        ensures
            *r == old(self).tickers,
            *final(self) == (SpotTrading { tickers: *final(r), ..*old(self) }),
    {
        &mut self.tickers
    }
}

} // verus!
