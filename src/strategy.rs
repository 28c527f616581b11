//! Rules: a product to watch, a condition on its value, and the actions to
//! run once the condition holds.
use vstd::prelude::*;
use crate::account::{available_in, AccountType};
use vstd::arithmetic::div_mod::{lemma_fundamental_div_mod, lemma_mod_decreases, lemma_mod_multiples_basic};
use crate::decimal::{
    decimals_from, lemma_pow10_add, lemma_pow10_monotone, lemma_pow10_positive,
    amount_view, decimal_value, percent_of, percent_of_spec, pow10, pow10_exec, truncate, truncated,
    with_increment, with_increment_spec, MAX_AMOUNT,
};
use crate::kucoin::KuCoin;
use crate::lending::percent_value;
use crate::request::{spells, Add, Lend, Payload, Redeem, Side, Transfer, TransferType, Type};
use crate::spot::last_price;

verus! {

/// The live figure a rule watches.
#[derive(Debug)]
pub enum Product {
    /// The last price of a trading pair.
    SpotTradingPair(String),
    /// The market lending rate of a currency, in percent.
    LendingCurrency(String),
    /// The available balance of a currency in one account.
    BalanceCurrency { account_type: AccountType, currency: String },
}

/// A strict comparison of the watched figure with a threshold.
#[derive(Debug, Clone, Copy, PartialEq, Eq, Structural)]
pub enum Condition {
    GreaterThan(u128),
    LessThan(u128),
}

/// What an action does.
#[derive(Debug)]
pub enum ActionKind {
    SpotOrder { order_type: Type, side: Side, price: Option<u128> },
    Lend { interest_rate: u128 },
    Redeem,
    Transfer {
        from: AccountType,
        to: AccountType,
        from_account_tag: Option<String>,
        to_account_tag: Option<String>,
    },
}

/// One exchange operation of a rule, sized as a percentage of what is
/// available. A skipped action is not run.
#[derive(Debug)]
pub struct Action {
    pub kind: ActionKind,
    pub symbol: String,
    pub percentage: u8,
    pub skip: bool,
}

/// The ordered actions of a rule.
#[derive(Debug)]
pub struct Actions(pub Vec<Action>);

impl View for Actions {
    type V = Seq<Action>;

    open spec fn view(&self) -> Seq<Action> {
        self.0@
    }
}

/// A named rule.
#[derive(Debug)]
pub struct Strategy {
    pub name: String,
    pub product: Option<Product>,
    pub condition: Option<Condition>,
    pub actions: Actions,
}

fn clone_string_option(o: &Option<String>) -> (r: Option<String>)
    ensures
        r == *o,
{
    match o {
        Some(s) => Some(s.clone()),
        None => None,
    }
}

impl Clone for Product {
    fn clone(&self) -> (r: Self)
        ensures
            r == *self,
    {
        match self {
            Product::SpotTradingPair(s) => Product::SpotTradingPair(s.clone()),
            Product::LendingCurrency(s) => Product::LendingCurrency(s.clone()),
            Product::BalanceCurrency { account_type, currency } => Product::BalanceCurrency {
                account_type: *account_type,
                currency: currency.clone(),
            },
        }
    }
}

impl Clone for ActionKind {
    fn clone(&self) -> (r: Self)
        ensures
            r == *self,
    {
        match self {
            ActionKind::SpotOrder { order_type, side, price } => ActionKind::SpotOrder {
                order_type: *order_type,
                side: *side,
                price: *price,
            },
            ActionKind::Lend { interest_rate } => ActionKind::Lend { interest_rate: *interest_rate },
            ActionKind::Redeem => ActionKind::Redeem,
            ActionKind::Transfer { from, to, from_account_tag, to_account_tag } => ActionKind::Transfer {
                from: *from,
                to: *to,
                from_account_tag: clone_string_option(from_account_tag),
                to_account_tag: clone_string_option(to_account_tag),
            },
        }
    }
}

impl Clone for Action {
    fn clone(&self) -> (r: Self)
        ensures
            r == *self,
    {
        Action {
            kind: self.kind.clone(),
            symbol: self.symbol.clone(),
            percentage: self.percentage,
            skip: self.skip,
        }
    }
}

impl Clone for Actions {
    fn clone(&self) -> (r: Self)
        ensures
            r@ == self@,
    {
        let mut v: Vec<Action> = Vec::new();
        let n = self.0.len();
        let mut i: usize = 0;
        while i < n
            invariant
                n == self@.len(),
                i <= n,
                v@ == self@.take(i as int),
            decreases n - i,
        {
            v.push(self.0[i].clone());
            assert(self@.take(i + 1) =~= self@.take(i as int).push(self@[i as int]));
            i += 1;
        }
        assert(self@.take(n as int) =~= self@);
        Actions(v)
    }
}

impl Clone for Strategy {
    fn clone(&self) -> (r: Self)
        ensures
            r@ == self@,
    {
        Strategy {
            name: self.name.clone(),
            product: match &self.product {
                Some(p) => Some(p.clone()),
                None => None,
            },
            condition: self.condition,
            actions: self.actions.clone(),
        }
    }
}

// ---------------------------------------------------------------- conditions

/// The current value of a product, when the snapshots hold a readable one.
pub open spec fn product_value(p: Product, k: KuCoin) -> Option<nat> {
    match p {
        Product::SpotTradingPair(s) => if k.spot.tickers@.contains_key(s@) {
            last_price(k.spot.tickers@[s@])
        } else {
            None
        },
        Product::LendingCurrency(c) => if k.lending.currencies@.contains_key(c@) {
            percent_value(k.lending.currencies@[c@].market_interest_rate@)
        } else {
            None
        },
        Product::BalanceCurrency { account_type, currency } => available_in(
            k.accounts.view(),
            account_type,
            currency@,
        ),
    }
}

/// `v` meets the condition (strictly: equality never does).
pub open spec fn meets(c: Condition, v: nat) -> bool {
    match c {
        Condition::GreaterThan(x) => v > x,
        Condition::LessThan(x) => v < x,
    }
}

/// A rule is triggered when it has a product and a condition and the
/// product's current value meets the condition.
pub open spec fn triggered(s: Strategy, k: KuCoin) -> bool {
    condition_met(s.product, s.condition, k)
}

/// A product and a condition are both set and the product's current value
/// meets the condition.
pub open spec fn condition_met(product: Option<Product>, condition: Option<Condition>, k: KuCoin) -> bool {
    match product {
        Some(p) => match condition {
            Some(c) => match product_value(p, k) {
                Some(v) => meets(c, v),
                None => false,
            },
            None => false,
        },
        None => false,
    }
}

/// The current value of `product` in the snapshots of `kucoin`.
pub fn resolve(product: &Product, kucoin: &KuCoin) -> (r: Option<u128>)
    ensures
        amount_view(r) == product_value(*product, *kucoin),
{
    match product {
        Product::SpotTradingPair(symbol) => match kucoin.spot.tickers.lookup(symbol.as_str()) {
            Some(ticker) => ticker.last(),
            None => None,
        },
        Product::LendingCurrency(currency) => match kucoin.lending.currencies.lookup(currency.as_str()) {
            Some(c) => c.market_interest_rate(),
            None => None,
        },
        Product::BalanceCurrency { account_type, currency } => kucoin.accounts.available(
            account_type,
            currency.as_str(),
        ),
    }
}

/// Whether `v` meets `condition`.
pub fn evaluate(condition: &Condition, v: u128) -> (r: bool)
    ensures
        r == meets(*condition, v as nat),
{
    match condition {
        Condition::GreaterThan(x) => v > *x,
        Condition::LessThan(x) => v < *x,
    }
}

/// A rule without a product or without a condition never triggers, whatever
/// the market data.
pub proof fn lemma_unconfigured_never_triggers(s: Strategy, k: KuCoin)
    requires
        s.product is None || s.condition is None,
    ensures
        !triggered(s, k),
{
}

// ---------------------------------------------------------------- sizing

/// The size for `percentage` percent of `available`, cut down to the digits
/// of `increment`, when it is positive and within `[min, max]`.
pub open spec fn sized(available: nat, percentage: nat, increment: nat, min: nat, max: nat) -> Option<nat> {
    let a = with_increment_spec(percent_of_spec(available, percentage), increment);
    if 0 < a && min <= a && a <= max {
        Some(a)
    } else {
        None
    }
}

/// `sized` over figures that may be missing or unreadable.
pub open spec fn sized_from(
    available: Option<nat>,
    percentage: nat,
    increment: Option<nat>,
    min: Option<nat>,
    max: Option<nat>,
) -> Option<nat> {
    match (available, increment, min, max) {
        (Some(a), Some(i), Some(lo), Some(hi)) => sized(a, percentage, i, lo, hi),
        _ => None,
    }
}

/// Size of a spot order: a market buy spends the quote currency of the
/// Trade account within the quote limits; every other order sizes the base
/// currency of the Trade account within the base limits.
pub open spec fn spot_amount(order_type: Type, side: Side, symbol: Seq<char>, percentage: nat, k: KuCoin) -> Option<nat> {
    if k.spot.symbols@.contains_key(symbol) {
        let s = k.spot.symbols@[symbol];
        if order_type == Type::Market && side == Side::Buy {
            sized_from(
                available_in(k.accounts.view(), AccountType::Trade, s.quote_currency@),
                percentage,
                decimal_value(s.quote_increment@),
                decimal_value(s.quote_min_size@),
                decimal_value(s.quote_max_size@),
            )
        } else {
            sized_from(
                available_in(k.accounts.view(), AccountType::Trade, s.base_currency@),
                percentage,
                decimal_value(s.base_increment@),
                decimal_value(s.base_min_size@),
                decimal_value(s.base_max_size@),
            )
        }
    } else {
        None
    }
}

/// Size of a lending offer: the Main account's balance of the currency,
/// within the currency's lending limits.
pub open spec fn lend_amount(symbol: Seq<char>, percentage: nat, k: KuCoin) -> Option<nat> {
    if k.lending.currencies@.contains_key(symbol) {
        let c = k.lending.currencies@[symbol];
        sized_from(
            available_in(k.accounts.view(), AccountType::Main, symbol),
            percentage,
            decimal_value(c.increment@),
            decimal_value(c.min_purchase_size@),
            decimal_value(c.max_purchase_size@),
        )
    } else {
        None
    }
}

/// Size of a redemption: part of the open lending order, cut down to the
/// lending increment, positive and at least one increment.
pub open spec fn redeem_amount(symbol: Seq<char>, percentage: nat, k: KuCoin) -> Option<nat> {
    if k.lending.currencies@.contains_key(symbol) && k.lending.orders@.contains_key(symbol) {
        match (
            decimal_value(k.lending.currencies@[symbol].increment@),
            decimal_value(k.lending.orders@[symbol].purchase_size@),
        ) {
            (Some(inc), Some(size)) => {
                let a = with_increment_spec(percent_of_spec(size, percentage), inc);
                if a >= inc && a > 0 {
                    Some(a)
                } else {
                    None
                }
            },
            _ => None,
        }
    } else {
        None
    }
}

/// Decimal digits a transfer keeps: the currency's precision, at most 18.
pub open spec fn transfer_decimals(precision: u8) -> nat {
    if precision <= 18 {
        precision as nat
    } else {
        18
    }
}

/// Size of a transfer: part of the source account's balance, cut down to the
/// currency's precision, and at least one unit at that precision.
pub open spec fn transfer_amount(from: AccountType, symbol: Seq<char>, percentage: nat, k: KuCoin) -> Option<nat> {
    if k.spot.currencies@.contains_key(symbol) {
        let d = transfer_decimals(k.spot.currencies@[symbol].precision);
        match available_in(k.accounts.view(), from, symbol) {
            Some(av) => {
                let a = truncated(percent_of_spec(av, percentage), d);
                if a >= pow10((18 - d) as nat) {
                    Some(a)
                } else {
                    None
                }
            },
            None => None,
        }
    } else {
        None
    }
}

/// The size an action would run with now, if it can run.
pub open spec fn action_amount(a: Action, k: KuCoin) -> Option<nat> {
    let p = a.percentage as nat;
    match a.kind {
        ActionKind::SpotOrder { order_type, side, .. } => spot_amount(order_type, side, a.symbol@, p, k),
        ActionKind::Lend { .. } => lend_amount(a.symbol@, p, k),
        ActionKind::Redeem => redeem_amount(a.symbol@, p, k),
        ActionKind::Transfer { from, .. } => transfer_amount(from, a.symbol@, p, k),
    }
}

/// An action runs when it is not skipped and has a size.
pub open spec fn runnable(a: Action, k: KuCoin) -> bool {
    !a.skip && action_amount(a, k) is Some
}

/// A skipped action never runs, whatever the market data: an action switched
/// off after firing stays out until it is enabled again.
pub proof fn lemma_skipped_never_runs(a: Action, k: KuCoin)
    requires
        a.skip,
    ensures
        !runnable(a, k),
{
}

/// `p` is the request `a` sends with size `x`.
pub open spec fn request_for(p: Payload, a: Action, k: KuCoin, x: nat) -> bool {
    match a.kind {
        ActionKind::SpotOrder { side, price, .. } => match p {
            Payload::SpotOrder(o) => {
                &&& o.symbol@ == a.symbol@
                &&& o.side == side
                &&& o.client_oid is None
                &&& match price {
                    Some(pr) => {
                        &&& o.order_type == Type::Limit
                        &&& o.price matches Some(t) && spells(t@, pr as nat)
                        &&& o.size matches Some(t) && spells(t@, x)
                        &&& o.funds is None
                    },
                    None => {
                        &&& o.order_type == Type::Market
                        &&& o.price is None
                        &&& side == Side::Buy ==> o.size is None && (o.funds matches Some(t) && spells(t@, x))
                        &&& side == Side::Sell ==> o.funds is None && (o.size matches Some(t) && spells(t@, x))
                    },
                }
            },
            _ => false,
        },
        ActionKind::Lend { interest_rate } => match p {
            Payload::Lend(l) => {
                &&& l.currency@ == a.symbol@
                &&& spells(l.interest_rate@, (interest_rate / 100) as nat)
                &&& spells(l.size@, x)
            },
            _ => false,
        },
        ActionKind::Redeem => match p {
            Payload::Redeem(r) => {
                &&& r.currency@ == a.symbol@
                &&& r.purchase_order_no@ == k.lending.orders@[a.symbol@].purchase_order_no@
                &&& spells(r.size@, x)
            },
            _ => false,
        },
        ActionKind::Transfer { from, to, from_account_tag, to_account_tag } => match p {
            Payload::Transfer(t) => {
                &&& spells(t.amount@, x)
                &&& t.currency@ == a.symbol@
                &&& t.from_account_type == from
                &&& t.to_account_type == to
                &&& t.from_account_tag == from_account_tag
                &&& t.to_account_tag == to_account_tag
                &&& t.from_user_id is None
                &&& t.to_user_id is None
                &&& t.transfer_type == TransferType::Internal
            },
            _ => false,
        },
    }
}

/// The size for `percentage` percent of `available`, cut down to the digits
/// of `increment`, when it is positive and within `[min, max]`.
pub fn bounded_size(available: u128, percentage: u8, increment: u128, min: u128, max: u128) -> (r: Option<u128>)
    requires
        available <= MAX_AMOUNT,
    ensures
        amount_view(r) == sized(available as nat, percentage as nat, increment as nat, min as nat, max as nat),
        r matches Some(a) ==> a <= max,
{
    let a = with_increment(percent_of(available, percentage), increment);
    if 0 < a && min <= a && a <= max {
        Some(a)
    } else {
        None
    }
}

fn bounded_size_from(
    available: Option<u128>,
    percentage: u8,
    increment: Option<u128>,
    min: Option<u128>,
    max: Option<u128>,
) -> (r: Option<u128>)
    requires
        available matches Some(a) ==> a <= MAX_AMOUNT,
        max matches Some(m) ==> m <= MAX_AMOUNT,
    ensures
        amount_view(r) == sized_from(
            amount_view(available),
            percentage as nat,
            amount_view(increment),
            amount_view(min),
            amount_view(max),
        ),
        r matches Some(a) ==> a <= MAX_AMOUNT,
{
    match (available, increment, min, max) {
        (Some(a), Some(i), Some(lo), Some(hi)) => bounded_size(a, percentage, i, lo, hi),
        _ => None,
    }
}

impl Action {
    /// Percentages stay within 100 and the figures an action sends can be written.
    pub open spec fn wf(&self) -> bool {
        &&& self.percentage <= 100
        &&& match self.kind {
            ActionKind::SpotOrder { price, .. } => price matches Some(p) ==> p <= MAX_AMOUNT,
            ActionKind::Lend { interest_rate } => interest_rate <= MAX_AMOUNT,
            _ => true,
        }
    }

    fn new(kind: ActionKind) -> (r: Self)
        ensures
            r.kind == kind,
            r.symbol@ == Seq::<char>::empty(),
            r.percentage == 0,
            r.skip,
    {
        Action { kind, symbol: String::new(), percentage: 0, skip: true }
    }

    fn spot_order(side: Side) -> (r: Self)
        ensures
            r.kind == (ActionKind::SpotOrder { order_type: Type::Limit, side, price: None }),
            r.symbol@ == Seq::<char>::empty(),
            r.percentage == 0,
            r.skip,
            r.wf(),
    {
        Action::new(ActionKind::SpotOrder { side, order_type: Type::Limit, price: None })
    }

    /// A new, not yet configured buy order.
    pub fn buy() -> (r: Self)
        ensures
            r.kind == (ActionKind::SpotOrder { order_type: Type::Limit, side: Side::Buy, price: None }),
            r.symbol@ == Seq::<char>::empty(),
            r.percentage == 0,
            r.skip,
            r.wf(),
    {
        Action::spot_order(Side::Buy)
    }

    /// A new, not yet configured sell order.
    pub fn sell() -> (r: Self)
        ensures
            r.kind == (ActionKind::SpotOrder { order_type: Type::Limit, side: Side::Sell, price: None }),
            r.symbol@ == Seq::<char>::empty(),
            r.percentage == 0,
            r.skip,
            r.wf(),
    {
        Action::spot_order(Side::Sell)
    }

    /// A new, not yet configured lending offer.
    pub fn lend() -> (r: Self)
        ensures
            r.kind == (ActionKind::Lend { interest_rate: 0 }),
            r.symbol@ == Seq::<char>::empty(),
            r.percentage == 0,
            r.skip,
            r.wf(),
    {
        Action::new(ActionKind::Lend { interest_rate: 0 })
    }

    /// A new, not yet configured redemption.
    pub fn redeem() -> (r: Self)
        ensures
            r.kind == ActionKind::Redeem,
            r.symbol@ == Seq::<char>::empty(),
            r.percentage == 0,
            r.skip,
            r.wf(),
    {
        Action::new(ActionKind::Redeem)
    }

    /// A new, not yet configured transfer from and to the Main account.
    pub fn transfer() -> (r: Self)
        ensures
            r.kind == (ActionKind::Transfer {
                from: AccountType::Main,
                to: AccountType::Main,
                from_account_tag: None,
                to_account_tag: None,
            }),
            r.symbol@ == Seq::<char>::empty(),
            r.percentage == 0,
            r.skip,
            r.wf(),
    {
        Action::new(
            ActionKind::Transfer {
                from: AccountType::Main,
                to: AccountType::Main,
                from_account_tag: None,
                to_account_tag: None,
            },
        )
    }

    pub fn kind(&self) -> (r: &ActionKind)
        ensures
            *r == self.kind,
    {
        &self.kind
    }

    pub fn kind_mut(&mut self) -> (r: &mut ActionKind)
        ensures
            *r == old(self).kind,
            *final(self) == (Action { kind: *final(r), ..*old(self) }),
    {
        &mut self.kind
    }

    pub fn symbol(&self) -> (r: &str)
        ensures
            r@ == self.symbol@,
    {
        self.symbol.as_str()
    }

    pub fn symbol_mut(&mut self) -> (r: &mut String)
        ensures
            *r == old(self).symbol,
            *final(self) == (Action { symbol: *final(r), ..*old(self) }),
    {
        &mut self.symbol
    }

    pub fn percentage(&self) -> (r: u8)
        ensures
            r == self.percentage,
    {
        self.percentage
    }

    pub fn percentage_mut(&mut self) -> (r: &mut u8)
        ensures
            *r == old(self).percentage,
            *final(self) == (Action { percentage: *final(r), ..*old(self) }),
    {
        &mut self.percentage
    }

    pub fn skip(&self) -> (r: bool)
        ensures
            r == self.skip,
    {
        self.skip
    }

    pub fn skip_mut(&mut self) -> (r: &mut bool)
        ensures
            *r == old(self).skip,
            *final(self) == (Action { skip: *final(r), ..*old(self) }),
    {
        &mut self.skip
    }

    /// The size this action would run with now, or `None` when it cannot run.
    pub fn amount(&self, kucoin: &KuCoin) -> (r: Option<u128>)
        requires
            self.wf(),
        ensures
            amount_view(r) == action_amount(*self, *kucoin),
            r matches Some(a) ==> a <= MAX_AMOUNT,
    {
        let percentage = self.percentage;
        let symbol = self.symbol.as_str();
        match &self.kind {
            ActionKind::SpotOrder { order_type, side, .. } => match kucoin.spot.symbols.get(symbol) {
                Some(s) => {
                    if *order_type == Type::Market && *side == Side::Buy {
                        bounded_size_from(
                            kucoin.accounts.available(&AccountType::Trade, s.quote_currency()),
                            percentage,
                            s.quote_increment(),
                            s.quote_min_size(),
                            s.quote_max_size(),
                        )
                    } else {
                        bounded_size_from(
                            kucoin.accounts.available(&AccountType::Trade, s.base_currency()),
                            percentage,
                            s.base_increment(),
                            s.base_min_size(),
                            s.base_max_size(),
                        )
                    }
                },
                None => None,
            },
            ActionKind::Lend { .. } => match kucoin.lending.currencies.lookup(symbol) {
                Some(c) => bounded_size_from(
                    kucoin.accounts.available(&AccountType::Main, symbol),
                    percentage,
                    c.increment(),
                    c.min_purchase_size(),
                    c.max_purchase_size(),
                ),
                None => None,
            },
            ActionKind::Redeem => match kucoin.lending.currencies.lookup(symbol) {
                Some(c) => match c.increment() {
                    Some(increment) => match kucoin.lending.orders.get(symbol) {
                        Some(order) => match order.purchase_size() {
                            Some(size) => {
                                let a = with_increment(percent_of(size, percentage), increment);
                                if a >= increment && a > 0 {
                                    Some(a)
                                } else {
                                    None
                                }
                            },
                            None => None,
                        },
                        None => None,
                    },
                    None => None,
                },
                None => None,
            },
            ActionKind::Transfer { from, .. } => match kucoin.spot.currencies.get(symbol) {
                Some(c) => {
                    let d: usize = if c.precision() <= 18 {
                        c.precision() as usize
                    } else {
                        18
                    };
                    match kucoin.accounts.available(from, symbol) {
                        Some(av) => {
                            let a = truncate(percent_of(av, percentage), d);
                            if a >= pow10_exec(18 - d) {
                                Some(a)
                            } else {
                                None
                            }
                        },
                        None => None,
                    }
                },
                None => None,
            },
        }
    }

    /// The request this action would send now, or `None` when it is skipped
    /// or has no size.
    pub fn request(&self, kucoin: &KuCoin) -> (r: Option<Payload>)
        requires
            self.wf(),
        ensures
            r is Some <==> runnable(*self, *kucoin),
            r matches Some(p) ==> request_for(p, *self, *kucoin, action_amount(*self, *kucoin)->0),
    {
        if self.skip {
            return None;
        }
        let amount = match self.amount(kucoin) {
            Some(a) => a,
            None => {
                return None;
            },
        };
        let symbol = self.symbol.clone();
        match &self.kind {
            ActionKind::SpotOrder { side, price, .. } => match price {
                Some(p) => Some(Payload::SpotOrder(Add::limit(symbol, *side, *p, amount))),
                None => Some(Payload::SpotOrder(Add::market(symbol, *side, amount))),
            },
            ActionKind::Lend { interest_rate } => Some(Payload::Lend(Lend::new(symbol, *interest_rate, amount))),
            ActionKind::Redeem => match kucoin.lending.orders.get(self.symbol.as_str()) {
                Some(order) => Some(
                    Payload::Redeem(Redeem::new(symbol, order.purchase_order_no.clone(), amount)),
                ),
                None => None,
            },
            ActionKind::Transfer { from, to, from_account_tag, to_account_tag } => Some(
                Payload::Transfer(
                    Transfer::internal(
                        symbol,
                        amount,
                        *from,
                        *to,
                        clone_string_option(from_account_tag),
                        clone_string_option(to_account_tag),
                    ),
                ),
            ),
        }
    }
}


/// A rule seen as its name, product, condition and ordered actions.
pub type StrategyView = (Seq<char>, Option<Product>, Option<Condition>, Seq<Action>);

impl View for Strategy {
    type V = StrategyView;

    open spec fn view(&self) -> StrategyView {
        (self.name@, self.product, self.condition, self.actions@)
    }
}

/// Every action of the sequence is well formed.
pub open spec fn actions_wf(q: Seq<Action>) -> bool {
    forall|i: int| 0 <= i < q.len() ==> (#[trigger] q[i]).wf()
}

/// The sequence after moving the action at `index` one place up or down;
/// unchanged when either place is outside the list.
pub open spec fn moved(q: Seq<Action>, index: int, up: bool) -> Seq<Action> {
    let b = if up {
        if index == 0 {
            0
        } else {
            index - 1
        }
    } else {
        index + 1
    };
    if 0 <= index < q.len() && 0 <= b < q.len() {
        q.update(index, q[b]).update(b, q[index])
    } else {
        q
    }
}

impl Actions {
    pub open spec fn wf(&self) -> bool {
        actions_wf(self@)
    }

    pub fn new() -> (r: Self)
        ensures
            r@ == Seq::<Action>::empty(),
    {
        Actions(Vec::new())
    }

    pub fn len(&self) -> (r: usize)
        ensures
            r == self@.len(),
    {
        self.0.len()
    }

    pub fn is_empty(&self) -> (r: bool)
        ensures
            r == (self@.len() == 0),
    {
        self.0.len() == 0
    }

    pub fn get(&self, index: usize) -> (r: Option<&Action>)
        ensures
            match r {
                Some(a) => index < self@.len() && *a == self@[index as int],
                None => index >= self@.len(),
            },
    {
        if index < self.0.len() {
            Some(&self.0[index])
        } else {
            None
        }
    }

    /// Appends an action at the end.
    pub fn add(&mut self, action: Action)
        ensures
            final(self)@ == old(self)@.push(action),
    {
        self.0.push(action);
    }

    /// Removes the action at `index`.
    pub fn remove(&mut self, index: usize)
        requires
            index < old(self)@.len(),
        ensures
            final(self)@ == old(self)@.remove(index as int),
    {
        self.0.remove(index);
    }

    /// Swaps the action at `index` with its neighbour above (`up`) or below,
    /// when both exist.
    pub fn move_by_one(&mut self, index: usize, up: bool)
        ensures
            final(self)@ == moved(old(self)@, index as int, up),
    {
        let b: usize = if up {
            if index == 0 {
                0
            } else {
                index - 1
            }
        } else if index < usize::MAX {
            index + 1
        } else {
            index
        };
        let n = self.0.len();
        if index < n && b < n && b != index {
            let ghost q = self@;
            let (lo, hi) = if index < b {
                (index, b)
            } else {
                (b, index)
            };
            let e = self.0.remove(hi);
            self.0.insert(lo, e);
            assert(self@ =~= q.update(index as int, q[b as int]).update(b as int, q[index as int]));
        } else {
            proof {
                let q = self@;
                if index < n && b < n {
                    assert(q.update(index as int, q[b as int]).update(b as int, q[index as int]) =~= q);
                }
            }
        }
    }

    /// The first action that can run now, with the request it sends.
    pub fn executable(&self, kucoin: &KuCoin) -> (r: Option<(usize, Payload)>)
        requires
            self.wf(),
        ensures
            match r {
                Some((i, p)) => {
                    &&& i < self@.len()
                    &&& runnable(self@[i as int], *kucoin)
                    &&& forall|j: int| 0 <= j < i ==> !runnable(#[trigger] self@[j], *kucoin)
                    &&& request_for(p, self@[i as int], *kucoin, action_amount(self@[i as int], *kucoin)->0)
                },
                None => forall|j: int| 0 <= j < self@.len() ==> !runnable(#[trigger] self@[j], *kucoin),
            },
    {
        let n = self.0.len();
        let mut i: usize = 0;
        while i < n
            invariant
                n == self@.len(),
                i <= n,
                self.wf(),
                forall|j: int| 0 <= j < i ==> !runnable(#[trigger] self@[j], *kucoin),
            decreases n - i,
        {
            assert(self@[i as int].wf());
            match self.0[i].request(kucoin) {
                Some(p) => {
                    return Some((i, p));
                },
                None => {},
            }
            i += 1;
        }
        None
    }
}

impl Strategy {
    pub open spec fn wf(&self) -> bool {
        self.actions.wf()
    }

    /// A new rule with only a name.
    pub fn new(name: String) -> (r: Self)
        ensures
            r.name == name,
            r.product is None,
            r.condition is None,
            r.actions@ == Seq::<Action>::empty(),
            r.wf(),
    {
        Strategy { name, product: None, condition: None, actions: Actions::new() }
    }

    pub fn name(&self) -> (r: &str)
        ensures
            r@ == self.name@,
    {
        self.name.as_str()
    }

    pub fn set_name(&mut self, name: String)
        ensures
            *final(self) == (Strategy { name, ..*old(self) }),
    {
        self.name = name;
    }

    pub fn set_product(&mut self, product: Product)
        ensures
            *final(self) == (Strategy { product: Some(product), ..*old(self) }),
    {
        self.product = Some(product);
    }

    pub fn set_condition(&mut self, condition: Condition)
        ensures
            *final(self) == (Strategy { condition: Some(condition), ..*old(self) }),
    {
        self.condition = Some(condition);
    }

    pub fn actions(&self) -> (r: &Actions)
        ensures
            *r == self.actions,
    {
        &self.actions
    }

    pub fn actions_mut(&mut self) -> (r: &mut Actions)
        ensures
            *r == old(self).actions,
            *final(self) == (Strategy { actions: *final(r), ..*old(self) }),
    {
        &mut self.actions
    }

    /// Whether the rule's condition holds on the current snapshots.
    pub fn can_execute(&self, kucoin: &KuCoin) -> (r: bool)
        ensures
            r == triggered(*self, *kucoin),
    {
        match &self.product {
            Some(product) => match &self.condition {
                Some(condition) => match resolve(product, kucoin) {
                    Some(v) => evaluate(condition, v),
                    None => false,
                },
                None => false,
            },
            None => false,
        }
    }
}

proof fn lemma_decimals_of_power(d: nat, k: nat)
    requires
        d <= k <= 18,
    ensures
        decimals_from(pow10((18 - d) as nat), k) == d,
    decreases k,
{
    let inc = pow10((18 - d) as nat);
    lemma_pow10_add((18 - d) as nat, k);
    if k > d {
        lemma_pow10_monotone(19, (18 - d + k) as nat);
        assert(pow10(19) == 10 * pow10(18));
        lemma_pow10_positive(18);
        lemma_decimals_of_power(d, (k - 1) as nat);
    } else {
        assert((18 - d) as nat + k == 18);
    }
}

/// A computed size is positive and within `[min, max]`.
pub proof fn lemma_size_within_bounds(available: nat, percentage: nat, increment: nat, min: nat, max: nat)
    ensures
        sized(available, percentage, increment, min, max) matches Some(a) ==> 0 < a && min <= a
            && a <= max,
{
}

/// When the increment is a power of ten no larger than one whole unit
/// (`10^-d`), a computed size is a whole number of increments and no more
/// than the requested share: it is cut down, never rounded up.
pub proof fn lemma_size_whole_increments(available: nat, percentage: nat, d: nat, min: nat, max: nat)
    requires
        d <= 18,
    ensures
        sized(available, percentage, pow10((18 - d) as nat), min, max) matches Some(a) ==> a % pow10(
            (18 - d) as nat,
        ) == 0 && a <= percent_of_spec(available, percentage),
{
    let increment = pow10((18 - d) as nat);
    lemma_decimals_of_power(d, 18);
    lemma_pow10_positive((18 - d) as nat);
    let v = percent_of_spec(available, percentage);
    lemma_fundamental_div_mod(v as int, increment as int);
    lemma_mod_multiples_basic(v as int / increment as int, increment as int);
    lemma_mod_decreases(v, increment);
}

} // verus!
