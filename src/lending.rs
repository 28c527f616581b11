//! Lending markets and the user's open lending orders.
use vstd::prelude::*;
use crate::decimal::{amount_view, decimal_value, parse_amount, MAX_AMOUNT};
use crate::snapshot::{Keyed, Snapshot, WithRecent};

verus! {

/// A rate written as a fraction, read as a percentage (the fraction times 100).
pub open spec fn percent_value(s: Seq<char>) -> Option<nat> {
    match decimal_value(s) {
        Some(v) => Some(v * 100),
        None => None,
    }
}

/// Reads a fraction and scales it to a percentage.
pub fn parse_percent(s: &str) -> (r: Option<u128>)
    ensures
        amount_view(r) == percent_value(s@),
{
    match parse_amount(s) {
        Some(v) => Some(v * 100),
        None => None,
    }
}

/// A currency that can be lent, with its size and rate limits.
#[derive(Debug, Clone)]
pub struct Currency {
    pub currency: String,
    pub purchase_enable: bool,
    pub redeem_enable: bool,
    pub increment: String,
    pub min_purchase_size: String,
    pub min_interest_rate: String,
    pub max_interest_rate: String,
    pub interest_increment: String,
    pub max_purchase_size: String,
    pub market_interest_rate: String,
    pub auto_purchase_enable: bool,
}

impl Keyed for Currency {
    open spec fn key_view(&self) -> Seq<char> {
        self.currency@
    }

    fn key(&self) -> (r: &str) {
        self.currency.as_str()
    }
}

impl Currency {
    pub fn currency(&self) -> (r: &str)
        ensures
            r@ == self.currency@,
    {
        self.currency.as_str()
    }

    /// The market lending rate, as a percentage.
    pub fn market_interest_rate(&self) -> (r: Option<u128>)
        ensures
            amount_view(r) == percent_value(self.market_interest_rate@),
    {
        parse_percent(self.market_interest_rate.as_str())
    }

    /// The lowest lending rate accepted, as a percentage.
    pub fn min_interest_rate(&self) -> (r: Option<u128>)
        ensures
            amount_view(r) == percent_value(self.min_interest_rate@),
    {
        parse_percent(self.min_interest_rate.as_str())
    }

    /// The highest lending rate accepted, as a percentage.
    pub fn max_interest_rate(&self) -> (r: Option<u128>)
        ensures
            amount_view(r) == percent_value(self.max_interest_rate@),
    {
        parse_percent(self.max_interest_rate.as_str())
    }

    pub fn min_purchase_size(&self) -> (r: Option<u128>)
        ensures
            amount_view(r) == decimal_value(self.min_purchase_size@),
    {
        parse_amount(self.min_purchase_size.as_str())
    }

    pub fn max_purchase_size(&self) -> (r: Option<u128>)
        ensures
            amount_view(r) == decimal_value(self.max_purchase_size@),
            r matches Some(a) ==> a <= MAX_AMOUNT,
    {
        parse_amount(self.max_purchase_size.as_str())
    }

    /// The step in which lending sizes go.
    pub fn increment(&self) -> (r: Option<u128>)
        ensures
            amount_view(r) == decimal_value(self.increment@),
            r matches Some(a) ==> a <= MAX_AMOUNT,
    {
        parse_amount(self.increment.as_str())
    }

    pub fn interest_increment(&self) -> (r: Option<u128>)
        ensures
            amount_view(r) == decimal_value(self.interest_increment@),
    {
        parse_amount(self.interest_increment.as_str())
    }
}

/// An open lending order of the user.
#[derive(Debug, Clone)]
pub struct Order {
    pub currency: String,
    pub purchase_order_no: String,
    pub purchase_size: String,
    pub match_size: String,
    pub interest_rate: String,
    pub income_size: String,
    pub apply_time: u64,
    pub status: String,
}

impl Keyed for Order {
    open spec fn key_view(&self) -> Seq<char> {
        self.currency@
    }

    fn key(&self) -> (r: &str) {
        self.currency.as_str()
    }
}

impl Order {
    pub fn currency(&self) -> (r: &str)
        ensures
            r@ == self.currency@,
    {
        self.currency.as_str()
    }

    pub fn purchase_order_no(&self) -> (r: &str)
        ensures
            r@ == self.purchase_order_no@,
    {
        self.purchase_order_no.as_str()
    }

    /// The amount lent out by this order.
    pub fn purchase_size(&self) -> (r: Option<u128>)
        ensures
            amount_view(r) == decimal_value(self.purchase_size@),
            r matches Some(a) ==> a <= MAX_AMOUNT,
    {
        parse_amount(self.purchase_size.as_str())
    }

    /// The order's minimum lending rate, as a percentage.
    pub fn interest_rate(&self) -> (r: Option<u128>)
        ensures
            amount_view(r) == percent_value(self.interest_rate@),
    {
        parse_percent(self.interest_rate.as_str())
    }
}

/// Lending currencies, filed by currency, with a recency list.
pub type Currencies = WithRecent<Currency>;

/// Open lending orders, filed by currency.
pub struct Orders(pub Snapshot<Order>);

impl View for Orders {
    type V = Map<Seq<char>, Order>;

    open spec fn view(&self) -> Map<Seq<char>, Order> {
        self.0@
    }
}

impl Orders {
    /// The records in the order the last refresh delivered them.
    pub open spec fn records_view(&self) -> Seq<Order> {
        self.0.records_view()
    }

    pub fn new() -> (r: Self)
        ensures
            r@ == Map::<Seq<char>, Order>::empty(),
            r.records_view() == Seq::<Order>::empty(),
    {
        Orders(Snapshot::new())
    }

    /// The record filed under `k`, if any.
    pub fn get(&self, k: &str) -> (r: Option<&Order>)
        ensures
            match r {
                Some(v) => self@.contains_key(k@) && self@[k@] == *v,
                None => !self@.contains_key(k@),
            },
    {
        self.0.get(k)
    }

    /// Installs what a fetch returned; on failure the previous records stay.
    pub fn refresh<E>(&mut self, fetched: Result<Vec<Order>, E>)
        ensures
            match fetched {
                Ok(records) => final(self).records_view() == records@,
                Err(_) => final(self).records_view() == old(self).records_view(),
            },
    {
        self.0.refresh(fetched);
    }

    pub fn records(&self) -> (r: &Vec<Order>)
        ensures
            r@ == self.records_view(),
    {
        self.0.records()
    }
}

/// The two lending snapshots.
pub struct Lending {
    pub currencies: Currencies,
    pub orders: Orders,
}

impl Lending {
    pub fn new() -> (r: Self)
        ensures
            r.currencies.wf(),
            r.currencies.recent_view() == Seq::<Seq<char>>::empty(),
            r.currencies@ == Map::<Seq<char>, Currency>::empty(),
            r.orders@ == Map::<Seq<char>, Order>::empty(),
    {
        Lending { currencies: WithRecent::new(), orders: Orders::new() }
    }

    pub fn currencies_ref(&self) -> (r: &Currencies)
        ensures
            *r == self.currencies,
    {
        &self.currencies
    }

    pub fn currencies(&mut self) -> (r: &mut Currencies)
        ensures
            *r == old(self).currencies,
            final(self).currencies == *final(r),
            final(self).orders == old(self).orders,
    {
        &mut self.currencies
    }

    pub fn orders_ref(&self) -> (r: &Orders)
        ensures
            *r == self.orders,
    {
        &self.orders
    }

    pub fn orders(&mut self) -> (r: &mut Orders)
        ensures
            *r == old(self).orders,
            final(self).orders == *final(r),
            final(self).currencies == old(self).currencies,
    {
        &mut self.orders
    }
}

} // verus!
