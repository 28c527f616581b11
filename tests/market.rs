use kucoin_strategies::account::{Account, AccountType, Accounts};
use kucoin_strategies::decimal::{
    decimals_of, format_amount, parse_amount, percent_of, truncate, with_increment, MAX_AMOUNT, ONE,
};
use kucoin_strategies::lending;
use kucoin_strategies::snapshot::WithRecent;
use kucoin_strategies::spot::{Ticker, Tickers};

fn account(t: AccountType, currency: &str, balance: &str, available: &str) -> Account {
    Account {
        id: format!("{currency}-id"),
        currency: currency.to_string(),
        account_type: t,
        balance: balance.to_string(),
        available: available.to_string(),
        holds: "0".to_string(),
    }
}

fn ticker(symbol: &str, last: Option<&str>) -> Ticker {
    Ticker {
        symbol: symbol.to_string(),
        symbol_name: symbol.to_string(),
        buy: None,
        best_bid_size: None,
        sell: None,
        best_ask_size: None,
        change_rate: None,
        change_price: None,
        high: "0".to_string(),
        low: "0".to_string(),
        vol: None,
        vol_value: "0".to_string(),
        last: last.map(|s| s.to_string()),
        average_price: None,
        taker_fee_rate: "0.001".to_string(),
        maker_fee_rate: "0.001".to_string(),
        taker_coefficient: "1".to_string(),
        maker_coefficient: "1".to_string(),
    }
}

#[test]
fn parse_amount_reads_plain_decimals() {
    assert_eq!(parse_amount("1000.00"), Some(1000 * ONE));
    assert_eq!(parse_amount("0.0001"), Some(ONE / 10_000));
    assert_eq!(parse_amount("42"), Some(42 * ONE));
    assert_eq!(parse_amount("7."), Some(7 * ONE));
    assert_eq!(parse_amount("0.000000000000000001"), Some(1));
    assert_eq!(parse_amount("999999999999999999.999999999999999999"), Some(MAX_AMOUNT));
}

#[test]
fn parse_amount_rejects_other_text() {
    assert_eq!(parse_amount(""), None);
    assert_eq!(parse_amount(".5"), None);
    assert_eq!(parse_amount("1e5"), None);
    assert_eq!(parse_amount("-1"), None);
    assert_eq!(parse_amount("1.2.3"), None);
    assert_eq!(parse_amount("1234567890123456789"), None);
    assert_eq!(parse_amount("0.0000000000000000001"), None);
}

#[test]
fn format_amount_writes_shortest_decimal() {
    assert_eq!(format_amount(500 * ONE), "500");
    assert_eq!(format_amount(ONE + ONE / 2), "1.5");
    assert_eq!(format_amount(0), "0");
    assert_eq!(format_amount(ONE / 10_000), "0.0001");
    assert_eq!(format_amount(1), "0.000000000000000001");
    assert_eq!(format_amount(MAX_AMOUNT), "999999999999999999.999999999999999999");
}

#[test]
fn format_then_parse_gives_back_the_amount() {
    for a in [0u128, 1, 12_345, ONE, 3 * ONE / 8, 123_456_789 * ONE + 987, MAX_AMOUNT] {
        assert_eq!(parse_amount(&format_amount(a)), Some(a));
    }
}

#[test]
fn increments_truncate_never_round_up() {
    assert_eq!(decimals_of(ONE / 100), 2);
    assert_eq!(decimals_of(ONE / 10_000), 4);
    assert_eq!(decimals_of(5 * ONE / 1000), 2);
    assert_eq!(decimals_of(ONE), 0);
    assert_eq!(decimals_of(10 * ONE), 0);
    assert_eq!(decimals_of(0), 18);
    let v = parse_amount("12.3456789").unwrap();
    assert_eq!(with_increment(v, ONE / 100), parse_amount("12.34").unwrap());
    assert_eq!(with_increment(v, ONE), 12 * ONE);
    assert_eq!(truncate(v, 3), parse_amount("12.345").unwrap());
    assert_eq!(percent_of(1000 * ONE, 50), 500 * ONE);
    assert_eq!(percent_of(3, 50), 1);
}

#[test]
fn accounts_keep_positive_balances_only() {
    let mut accounts = Accounts::new();
    accounts.set(vec![
        account(AccountType::Trade, "USDT", "1000.00", "999.5"),
        account(AccountType::Trade, "BTC", "0", "0"),
        account(AccountType::Main, "USDT", "20", "20"),
    ]);
    assert_eq!(accounts.lock().len(), 2);
    assert_eq!(accounts.available(&AccountType::Trade, "USDT"), Some(parse_amount("999.5").unwrap()));
    assert_eq!(accounts.available(&AccountType::Main, "USDT"), Some(20 * ONE));
    assert_eq!(accounts.available(&AccountType::Trade, "BTC"), None);
    assert_eq!(accounts.available(&AccountType::Margin, "USDT"), None);
}

#[test]
fn failed_refresh_keeps_previous_accounts() {
    let mut accounts = Accounts::new();
    accounts.refresh::<String>(Ok(vec![account(AccountType::Trade, "USDT", "5", "5")]));
    accounts.refresh::<String>(Err("network down".to_string()));
    assert_eq!(accounts.available(&AccountType::Trade, "USDT"), Some(5 * ONE));
    accounts.refresh::<String>(Ok(vec![account(AccountType::Trade, "ETH", "1", "1")]));
    assert_eq!(accounts.available(&AccountType::Trade, "USDT"), None);
    assert_eq!(accounts.available(&AccountType::Trade, "ETH"), Some(ONE));
}

#[test]
fn failed_refresh_keeps_previous_tickers() {
    let mut tickers: Tickers = WithRecent::new();
    tickers.refresh::<String>(Ok(vec![ticker("BTC-USDT", Some("43000.5"))]));
    tickers.refresh::<String>(Err("timeout".to_string()));
    assert_eq!(tickers.lookup("BTC-USDT").and_then(|t| t.last()), Some(parse_amount("43000.5").unwrap()));
    let mut orders = lending::Orders::new();
    orders.refresh::<String>(Err("bad payload".to_string()));
    assert_eq!(orders.records().len(), 0);
}

#[test]
fn later_record_of_a_key_wins() {
    let mut tickers: Tickers = WithRecent::new();
    tickers.refresh::<String>(Ok(vec![ticker("A-B", Some("1")), ticker("A-B", Some("2"))]));
    assert_eq!(tickers.lookup("A-B").and_then(|t| t.last()), Some(2 * ONE));
}

#[test]
fn recency_list_is_bounded_and_most_recent_first() {
    let mut tickers: Tickers = WithRecent::new();
    let names = ["A-X", "B-X", "C-X", "D-X", "E-X"];
    tickers.refresh::<String>(Ok(names.iter().map(|n| ticker(n, Some("1"))).collect()));
    for n in names {
        assert!(tickers.get(n, true).is_some());
    }
    assert_eq!(tickers.recent(), vec!["E-X", "D-X", "C-X", "B-X"]);
    assert!(tickers.get("C-X", true).is_some());
    assert_eq!(tickers.recent(), vec!["C-X", "E-X", "D-X", "B-X"]);
    assert!(tickers.get("B-X", false).is_some());
    assert_eq!(tickers.recent(), vec!["C-X", "E-X", "D-X", "B-X"]);
    assert!(tickers.get("Z-X", true).is_none());
    assert_eq!(tickers.recent(), vec!["C-X", "E-X", "D-X", "B-X"]);
}

#[test]
fn recency_survives_refresh() {
    let mut tickers: Tickers = WithRecent::new();
    tickers.refresh::<String>(Ok(vec![ticker("A-X", Some("1"))]));
    tickers.get("A-X", true);
    tickers.refresh::<String>(Ok(vec![]));
    assert_eq!(tickers.recent(), vec!["A-X"]);
    assert!(tickers.lookup("A-X").is_none());
}

#[test]
fn lending_rates_read_as_percentages() {
    let c = lending::Currency {
        currency: "USDT".to_string(),
        purchase_enable: true,
        redeem_enable: true,
        increment: "1".to_string(),
        min_purchase_size: "10".to_string(),
        min_interest_rate: "0.01".to_string(),
        max_interest_rate: "0.5".to_string(),
        interest_increment: "0.0001".to_string(),
        max_purchase_size: "20000".to_string(),
        market_interest_rate: "0.0523".to_string(),
        auto_purchase_enable: false,
    };
    assert_eq!(c.market_interest_rate(), Some(parse_amount("5.23").unwrap()));
    assert_eq!(c.min_interest_rate(), Some(ONE));
    assert_eq!(c.max_interest_rate(), Some(50 * ONE));
}
