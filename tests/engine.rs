use kucoin_strategies::account::{Account, AccountType};
use kucoin_strategies::decimal::{parse_amount, ONE};
use kucoin_strategies::kucoin::KuCoin;
use kucoin_strategies::lending;
use kucoin_strategies::request::{Payload, Side, Type};
use kucoin_strategies::spot::{self, Symbol, Ticker};
use kucoin_strategies::strategies::{Strategies, Tick};
use kucoin_strategies::strategy::{bounded_size, resolve, Action, ActionKind, Condition, Product, Strategy};

fn account(t: AccountType, currency: &str, available: &str) -> Account {
    Account {
        id: "1".to_string(),
        currency: currency.to_string(),
        account_type: t,
        balance: available.to_string(),
        available: available.to_string(),
        holds: "0".to_string(),
    }
}

fn symbol(name: &str, base: &str, quote: &str, increment: &str, min: &str, max: &str) -> Symbol {
    Symbol {
        symbol: name.to_string(),
        name: name.to_string(),
        base_currency: base.to_string(),
        quote_currency: quote.to_string(),
        fee_currency: quote.to_string(),
        market: "USDS".to_string(),
        base_min_size: min.to_string(),
        quote_min_size: min.to_string(),
        base_max_size: max.to_string(),
        quote_max_size: max.to_string(),
        base_increment: increment.to_string(),
        quote_increment: increment.to_string(),
        price_increment: "0.1".to_string(),
        price_limit_rate: "0.1".to_string(),
        min_funds: None,
        is_margin_enabled: false,
        enable_trading: true,
        fee_category: 1,
        maker_fee_coefficient: "1".to_string(),
        taker_fee_coefficient: "1".to_string(),
        st: false,
        callauction_is_enabled: false,
        callauction_price_floor: None,
        callauction_price_ceiling: None,
        callauction_first_stage_start_time: None,
        callauction_second_stage_start_time: None,
        callauction_third_stage_start_time: None,
        trading_start_time: None,
    }
}

fn ticker(name: &str, last: &str) -> Ticker {
    Ticker {
        symbol: name.to_string(),
        symbol_name: name.to_string(),
        buy: None,
        best_bid_size: None,
        sell: None,
        best_ask_size: None,
        change_rate: None,
        change_price: None,
        high: "0".to_string(),
        low: "0".to_string(),
        vol: None,
        vol_value: "0".to_string(),
        last: Some(last.to_string()),
        average_price: None,
        taker_fee_rate: "0.001".to_string(),
        maker_fee_rate: "0.001".to_string(),
        taker_coefficient: "1".to_string(),
        maker_coefficient: "1".to_string(),
    }
}

fn lending_currency(currency: &str, increment: &str) -> lending::Currency {
    lending::Currency {
        currency: currency.to_string(),
        purchase_enable: true,
        redeem_enable: true,
        increment: increment.to_string(),
        min_purchase_size: "10".to_string(),
        min_interest_rate: "0.01".to_string(),
        max_interest_rate: "0.5".to_string(),
        interest_increment: "0.0001".to_string(),
        max_purchase_size: "20000".to_string(),
        market_interest_rate: "0.05".to_string(),
        auto_purchase_enable: false,
    }
}

fn market(usdt: &str, max: &str) -> KuCoin {
    let mut k = KuCoin::new();
    k.accounts.set(vec![account(AccountType::Trade, "USDT", usdt), account(AccountType::Main, "USDT", "100")]);
    k.spot.symbols.refresh::<String>(Ok(vec![symbol("BTC-USDT", "BTC", "USDT", "0.0001", "0.1", max)]));
    k.spot.tickers.refresh::<String>(Ok(vec![ticker("BTC-USDT", "43000")]));
    k.lending.currencies.refresh::<String>(Ok(vec![lending_currency("USDT", "1")]));
    k
}

fn market_buy(percentage: u8) -> Action {
    let mut a = Action::buy();
    *a.kind_mut() = ActionKind::SpotOrder { order_type: Type::Market, side: Side::Buy, price: None };
    *a.symbol_mut() = "BTC-USDT".to_string();
    *a.percentage_mut() = percentage;
    *a.skip_mut() = false;
    a
}

fn rule(name: &str, actions: Vec<Action>) -> Strategy {
    let mut s = Strategy::new(name.to_string());
    s.set_product(Product::SpotTradingPair("BTC-USDT".to_string()));
    s.set_condition(Condition::GreaterThan(40_000 * ONE));
    for a in actions {
        s.actions_mut().add(a);
    }
    s
}

#[test]
fn half_of_trade_balance_is_sized_to_the_increment() {
    let k = market("1000.00", "1000000");
    assert_eq!(market_buy(50).amount(&k), Some(500 * ONE));
}

#[test]
fn size_above_the_maximum_is_not_executable() {
    let k = market("1000.00", "400");
    assert_eq!(market_buy(50).amount(&k), None);
    assert!(market_buy(50).request(&k).is_none());
}

#[test]
fn limit_buy_sizes_the_base_currency() {
    let mut k = market("1000.00", "1000000");
    k.accounts.set(vec![account(AccountType::Trade, "BTC", "0.123456")]);
    k.spot.symbols.refresh::<String>(Ok(vec![symbol("BTC-USDT", "BTC", "USDT", "0.0001", "0.001", "100")]));
    let mut a = market_buy(50);
    *a.kind_mut() = ActionKind::SpotOrder { order_type: Type::Limit, side: Side::Buy, price: Some(42_000 * ONE) };
    assert_eq!(a.amount(&k), Some(parse_amount("0.0617").unwrap()));
    match a.request(&k) {
        Some(Payload::SpotOrder(o)) => {
            assert_eq!(o.price.as_deref(), Some("42000"));
            assert_eq!(o.size.as_deref(), Some("0.0617"));
            assert_eq!(o.funds, None);
            assert_eq!(o.order_type, Type::Limit);
        }
        _ => panic!("expected a spot order"),
    }
}

#[test]
fn bounded_size_stays_within_limits() {
    let inc = ONE / 10_000;
    assert_eq!(bounded_size(1000 * ONE, 50, inc, ONE / 10, 1_000_000 * ONE), Some(500 * ONE));
    assert_eq!(bounded_size(1000 * ONE, 50, inc, ONE / 10, 400 * ONE), None);
    assert_eq!(bounded_size(ONE / 100, 1, inc, 0, 400 * ONE), Some(inc));
    assert_eq!(bounded_size(ONE / 1000, 1, inc, 0, 400 * ONE), None);
    assert_eq!(bounded_size(1000 * ONE, 50, inc, 600 * ONE, 700 * ONE), None);
    let odd = parse_amount("3.33339").unwrap();
    let got = bounded_size(odd, 100, inc, 0, 10 * ONE).unwrap();
    assert_eq!(got, parse_amount("3.3333").unwrap());
    assert_eq!(got % inc, 0);
}

#[test]
fn unconfigured_rule_never_executes() {
    let k = market("1000.00", "1000000");
    let mut no_condition = Strategy::new("a".to_string());
    no_condition.set_product(Product::SpotTradingPair("BTC-USDT".to_string()));
    assert!(!no_condition.can_execute(&k));
    let mut no_product = Strategy::new("b".to_string());
    no_product.set_condition(Condition::GreaterThan(0));
    assert!(!no_product.can_execute(&k));
    assert!(rule("c", vec![]).can_execute(&k));
}

#[test]
fn conditions_compare_strictly() {
    let k = market("1000.00", "1000000");
    let mut s = rule("x", vec![]);
    s.set_condition(Condition::GreaterThan(43_000 * ONE));
    assert!(!s.can_execute(&k));
    s.set_condition(Condition::LessThan(43_000 * ONE));
    assert!(!s.can_execute(&k));
    s.set_condition(Condition::LessThan(43_001 * ONE));
    assert!(s.can_execute(&k));
    assert_eq!(resolve(&Product::LendingCurrency("USDT".to_string()), &k), Some(5 * ONE));
    assert_eq!(
        resolve(&Product::BalanceCurrency { account_type: AccountType::Main, currency: "USDT".to_string() }, &k),
        Some(100 * ONE)
    );
    assert_eq!(resolve(&Product::SpotTradingPair("ETH-USDT".to_string()), &k), None);
}

fn run_tick(store: &mut Strategies, k: &KuCoin, succeed: bool) -> usize {
    let mut sent = 0;
    if let Some(mut tick) = Tick::start(store, k) {
        while let Some((i, _payload)) = tick.next(k) {
            sent += 1;
            if !tick.record(store, i, succeed) {
                break;
            }
        }
    }
    sent
}

#[test]
fn full_percentage_action_stays_enabled_across_ticks() {
    let k = market("1000.00", "1000000");
    let mut store = Strategies::new();
    store.add(rule("all-in", vec![market_buy(100)]));
    assert_eq!(run_tick(&mut store, &k, true), 1);
    assert_eq!(run_tick(&mut store, &k, true), 1);
    assert!(!store.get("all-in").unwrap().actions().get(0).unwrap().skip());
}

#[test]
fn partial_action_fires_once_then_is_skipped() {
    let k = market("1000.00", "1000000");
    let mut store = Strategies::new();
    store.add(rule("partial", vec![market_buy(30)]));
    assert_eq!(run_tick(&mut store, &k, true), 1);
    assert!(store.get("partial").unwrap().actions().get(0).unwrap().skip());
    assert_eq!(run_tick(&mut store, &k, true), 0);
    let mut s = store.get("partial").unwrap();
    *s.actions_mut().0[0].skip_mut() = false;
    store.add(s);
    assert_eq!(run_tick(&mut store, &k, true), 1);
}

#[test]
fn failed_send_leaves_action_enabled() {
    let k = market("1000.00", "1000000");
    let mut store = Strategies::new();
    store.add(rule("retry", vec![market_buy(30), market_buy(20)]));
    assert_eq!(run_tick(&mut store, &k, false), 2);
    let s = store.get("retry").unwrap();
    assert!(!s.actions().get(0).unwrap().skip());
    assert!(!s.actions().get(1).unwrap().skip());
}

#[test]
fn tick_runs_each_action_of_a_rule_in_order() {
    let k = market("1000.00", "1000000");
    let mut store = Strategies::new();
    store.add(rule("two", vec![market_buy(30), market_buy(20)]));
    assert_eq!(run_tick(&mut store, &k, true), 2);
    let s = store.get("two").unwrap();
    assert!(s.actions().get(0).unwrap().skip());
    assert!(s.actions().get(1).unwrap().skip());
}

#[test]
fn redeem_without_lending_order_is_not_executable() {
    let k = market("1000.00", "1000000");
    let mut a = Action::redeem();
    *a.symbol_mut() = "USDT".to_string();
    *a.percentage_mut() = 50;
    *a.skip_mut() = false;
    assert_eq!(a.amount(&k), None);
    assert!(a.request(&k).is_none());
}

#[test]
fn redeem_sizes_part_of_the_lending_order() {
    let mut k = market("1000.00", "1000000");
    k.lending.orders.refresh::<String>(Ok(vec![lending::Order {
        currency: "USDT".to_string(),
        purchase_order_no: "P-1".to_string(),
        purchase_size: "125".to_string(),
        match_size: "0".to_string(),
        interest_rate: "0.05".to_string(),
        income_size: "0".to_string(),
        apply_time: 0,
        status: "PENDING".to_string(),
    }]));
    let mut a = Action::redeem();
    *a.symbol_mut() = "USDT".to_string();
    *a.percentage_mut() = 50;
    *a.skip_mut() = false;
    assert_eq!(a.amount(&k), Some(62 * ONE));
    match a.request(&k) {
        Some(Payload::Redeem(r)) => {
            assert_eq!(r.purchase_order_no, "P-1");
            assert_eq!(r.size, "62");
        }
        _ => panic!("expected a redemption"),
    }
}

#[test]
fn lend_and_transfer_are_sized() {
    let mut k = market("1000.00", "1000000");
    k.spot.currencies.refresh::<String>(Ok(vec![spot::Currency {
        currency: "USDT".to_string(),
        name: "USDT".to_string(),
        full_name: "Tether".to_string(),
        precision: 2,
        confirms: None,
        contract_address: None,
        is_margin_enabled: false,
        is_debit_enabled: false,
        chains: None,
    }]));
    let mut lend = Action::lend();
    *lend.kind_mut() = ActionKind::Lend { interest_rate: 5 * ONE };
    *lend.symbol_mut() = "USDT".to_string();
    *lend.percentage_mut() = 25;
    *lend.skip_mut() = false;
    assert_eq!(lend.amount(&k), Some(25 * ONE));
    match lend.request(&k) {
        Some(Payload::Lend(l)) => {
            assert_eq!(l.interest_rate, "0.05");
            assert_eq!(l.size, "25");
        }
        _ => panic!("expected a lending offer"),
    }
    let mut transfer = Action::transfer();
    *transfer.kind_mut() = ActionKind::Transfer {
        from: AccountType::Trade,
        to: AccountType::Main,
        from_account_tag: None,
        to_account_tag: None,
    };
    *transfer.symbol_mut() = "USDT".to_string();
    *transfer.percentage_mut() = 33;
    *transfer.skip_mut() = false;
    assert_eq!(transfer.amount(&k), Some(330 * ONE));
    match transfer.request(&k) {
        Some(Payload::Transfer(t)) => {
            assert_eq!(t.amount, "330");
            assert_eq!(t.from_account_type, AccountType::Trade);
            assert_eq!(t.to_account_type, AccountType::Main);
            assert_eq!(t.client_oid.len(), 32);
        }
        _ => panic!("expected a transfer"),
    }
}

#[test]
fn skipped_action_sends_nothing() {
    let k = market("1000.00", "1000000");
    let mut a = market_buy(50);
    *a.skip_mut() = true;
    assert!(a.request(&k).is_none());
}

#[test]
fn store_round_trip_keeps_the_whole_rule() {
    let mut store = Strategies::new();
    let mut second = market_buy(40);
    *second.skip_mut() = true;
    store.add(rule("r1", vec![market_buy(100), second]));
    store.add(rule("r2", vec![]));
    let got = store.get("r1").unwrap();
    assert_eq!(got.name(), "r1");
    assert!(matches!(got.product, Some(Product::SpotTradingPair(ref s)) if s == "BTC-USDT"));
    assert_eq!(got.condition, Some(Condition::GreaterThan(40_000 * ONE)));
    assert_eq!(got.actions().len(), 2);
    assert_eq!(got.actions().get(0).unwrap().percentage(), 100);
    assert!(!got.actions().get(0).unwrap().skip());
    assert_eq!(got.actions().get(1).unwrap().percentage(), 40);
    assert!(got.actions().get(1).unwrap().skip());
    assert_eq!(store.names(), vec!["r1", "r2"]);
    store.add(rule("r1", vec![]));
    assert_eq!(store.len(), 2);
    assert_eq!(store.get("r1").unwrap().actions().len(), 0);
    assert!(store.remove("r1").is_some());
    assert!(store.get("r1").is_none());
    assert!(store.remove("r1").is_none());
}

#[test]
fn actions_move_and_remove() {
    let mut s = Strategy::new("m".to_string());
    for p in [10u8, 20, 30] {
        s.actions_mut().add(market_buy(p));
    }
    s.actions_mut().move_by_one(0, false);
    let order: Vec<u8> = s.actions().0.iter().map(|a| a.percentage()).collect();
    assert_eq!(order, vec![20, 10, 30]);
    s.actions_mut().move_by_one(0, true);
    s.actions_mut().move_by_one(2, false);
    let order: Vec<u8> = s.actions().0.iter().map(|a| a.percentage()).collect();
    assert_eq!(order, vec![20, 10, 30]);
    s.actions_mut().move_by_one(2, true);
    s.actions_mut().remove(0);
    let order: Vec<u8> = s.actions().0.iter().map(|a| a.percentage()).collect();
    assert_eq!(order, vec![30, 10]);
}

#[test]
fn redeem_with_zero_increment_is_not_executable() {
    let mut k = market("1000.00", "1000000");
    k.lending.currencies.refresh::<String>(Ok(vec![lending_currency("USDT", "0")]));
    k.lending.orders.refresh::<String>(Ok(vec![lending::Order {
        currency: "USDT".to_string(),
        purchase_order_no: "P-2".to_string(),
        purchase_size: "0".to_string(),
        match_size: "0".to_string(),
        interest_rate: "0.05".to_string(),
        income_size: "0".to_string(),
        apply_time: 0,
        status: "PENDING".to_string(),
    }]));
    let mut a = Action::redeem();
    *a.symbol_mut() = "USDT".to_string();
    *a.percentage_mut() = 50;
    *a.skip_mut() = false;
    assert_eq!(a.amount(&k), None);
}

#[test]
fn fresh_snapshots_are_empty() {
    let mut k = KuCoin::new();
    assert!(k.spot.tickers.get("BTC-USDT", true).is_none());
    assert!(k.spot.tickers.recent().is_empty());
    assert!(k.lending.currencies.recent().is_empty());
    assert!(k.accounts.lock().is_empty());
}

#[test]
fn round_trip_survives_removal_of_another_rule() {
    let mut store = Strategies::new();
    store.add(rule("keep", vec![market_buy(30)]));
    store.add(rule("drop", vec![]));
    assert!(store.remove("drop").is_some());
    let got = store.get("keep").unwrap();
    assert_eq!(got.actions().len(), 1);
    assert_eq!(got.actions().get(0).unwrap().percentage(), 30);
    assert_eq!(store.names(), vec!["keep"]);
}
