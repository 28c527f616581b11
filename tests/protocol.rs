use kucoin_strategies::account::AccountType;
use kucoin_strategies::announcements::{AnnouncementType, Announcements};
use kucoin_strategies::decimal::ONE;
use kucoin_strategies::request::{Add, Credentials, Lend, Method, Redeem, Request, Side, Transfer, Type, LEND};
use kucoin_strategies::response::{Paginated, Response};
use kucoin_strategies::text::str_eq;

fn credentials() -> Credentials {
    Credentials {
        key: "key-1".to_string(),
        key_version: "2".to_string(),
        secret: "secret-key".to_string(),
        passphrase: "my-passphrase".to_string(),
    }
}

fn header<'a>(headers: &'a [(String, String)], name: &str) -> Option<&'a str> {
    headers.iter().find(|(n, _)| n == name).map(|(_, v)| v.as_str())
}

#[test]
fn signed_post_carries_hmac_headers() {
    let req = Request::post(LEND).json("{\"currency\":\"USDT\"}".to_string());
    assert_eq!(req.text_to_sign("1700000000000"), "1700000000000POST/api/v3/purchase{\"currency\":\"USDT\"}");
    let headers = req.headers(&credentials(), 1_700_000_000_000);
    assert_eq!(headers.len(), 6);
    let names: Vec<&str> = headers.iter().map(|(n, _)| n.as_str()).collect();
    assert_eq!(names, vec!["KC-API-KEY", "KC-API-KEY-VERSION", "KC-API-SIGN", "KC-API-PASSPHRASE", "KC-API-TIMESTAMP", "Content-Type"]);
    assert_eq!(header(&headers, "KC-API-KEY"), Some("key-1"));
    assert_eq!(header(&headers, "KC-API-KEY-VERSION"), Some("2"));
    assert_eq!(header(&headers, "KC-API-TIMESTAMP"), Some("1700000000000"));
    assert_eq!(header(&headers, "KC-API-SIGN"), Some("1oZ5Jl4zH2kxGwDs7XCwVAIMdehefbXHGcvmCHbknDg="));
    assert_eq!(header(&headers, "KC-API-PASSPHRASE"), Some("PR7388+zDYj5SmjVupDFRAEs4W4C2/acpIlGKGjDtIw="));
    assert_eq!(header(&headers, "Content-Type"), Some("application/json"));
}

#[test]
fn signed_get_has_no_content_type() {
    let req = Request::get("/api/v1/accounts");
    assert_eq!(req.method, Method::Get);
    let headers = req.headers(&credentials(), 1_700_000_000_000);
    assert_eq!(headers.len(), 5);
    assert_eq!(header(&headers, "KC-API-SIGN"), Some("dBOY1ILga+iCF3Y/wxQelEENNzHC669IMgoRx3PISw0="));
    assert_eq!(header(&headers, "Content-Type"), None);
    let early = Request::get("/x").headers(&credentials(), 7);
    assert_eq!(header(&early, "KC-API-TIMESTAMP"), Some("7"));
}

#[test]
fn order_payloads_write_amounts_as_decimals() {
    let limit = Add::limit("BTC-USDT".to_string(), Side::Sell, 42_000 * ONE + ONE / 2, ONE / 1000);
    assert_eq!(limit.price.as_deref(), Some("42000.5"));
    assert_eq!(limit.size.as_deref(), Some("0.001"));
    let buy = Add::market("BTC-USDT".to_string(), Side::Buy, 25 * ONE);
    assert_eq!(buy.order_type, Type::Market);
    assert_eq!(buy.funds.as_deref(), Some("25"));
    assert_eq!(buy.size, None);
    let sell = Add::market("BTC-USDT".to_string(), Side::Sell, 25 * ONE);
    assert_eq!(sell.size.as_deref(), Some("25"));
    assert_eq!(sell.funds, None);
    let lend = Lend::new("USDT".to_string(), 12 * ONE + ONE / 2, 100 * ONE);
    assert_eq!(lend.interest_rate, "0.125");
    let redeem = Redeem::new("USDT".to_string(), "P-9".to_string(), ONE / 4);
    assert_eq!(redeem.size, "0.25");
}

#[test]
fn transfers_get_fresh_client_ids() {
    let a = Transfer::internal("USDT".to_string(), ONE, AccountType::Main, AccountType::Trade, None, Some("tag".to_string()));
    let b = Transfer::internal("USDT".to_string(), ONE, AccountType::Main, AccountType::Trade, None, None);
    assert_eq!(a.client_oid.len(), 32);
    assert!(a.client_oid.chars().all(|c| c.is_ascii_hexdigit() && !c.is_ascii_uppercase()));
    assert_ne!(a.client_oid, b.client_oid);
    assert_eq!(a.amount, "1");
    assert_eq!(a.to_account_tag.as_deref(), Some("tag"));
}

#[test]
fn response_envelope_splits_success_and_failure() {
    let ok: Response<u32> = Response::Success { code: "200000".to_string(), data: 7 };
    assert_eq!(ok.into_result().ok(), Some(7));
    let failed: Response<u32> = Response::Error { code: "400100".to_string(), msg: "Balance insufficient".to_string() };
    let err = failed.into_result().err().unwrap();
    assert_eq!(err.message(), "code: 400100, msg: Balance insufficient");
    let page = Paginated { current_page: 1, page_size: 10, total_num: 2, total_page: 1, items: vec![1, 2] };
    assert_eq!(page.into_items(), vec![1, 2]);
}

#[test]
fn announcement_kinds_toggle() {
    let mut a = Announcements::new();
    assert_eq!(a.period(), 100);
    a.toggle(AnnouncementType::NewListings);
    a.toggle(AnnouncementType::Delistings);
    assert!(a.is_notifiable(&vec![AnnouncementType::Others, AnnouncementType::NewListings]));
    a.toggle(AnnouncementType::NewListings);
    assert!(!a.is_notifiable(&vec![AnnouncementType::NewListings]));
    assert_eq!(a.notifiable(), &vec![AnnouncementType::Delistings]);
    assert_eq!(a.window_start(1_000_000), 900_000);
}

#[test]
fn string_slices_compare_by_characters() {
    assert!(str_eq("BTC-USDT", "BTC-USDT"));
    assert!(!str_eq("BTC-USDT", "BTC-USDC"));
    assert!(!str_eq("BTC", "BTC-USDT"));
}
