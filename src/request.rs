//! What the library asks the exchange to do, and how a request is signed.
use vstd::prelude::*;
use base64::engine::general_purpose::STANDARD;
use base64::Engine;
use hmac::{Hmac, Mac};
use sha2::Sha256;
use uuid::Uuid;
use crate::account::AccountType;
use crate::decimal::{amount_text, decimal_value, format_amount, format_integer, integer_text, MAX_AMOUNT, ONE};
use crate::text::owned;
use vstd::utf8::encode_utf8;

verus! {

pub const SPOT_ORDER: &'static str = "/api/v1/hf/orders";
pub const LEND: &'static str = "/api/v3/purchase";
pub const REDEEM: &'static str = "/api/v3/redeem";
pub const TRANSFER: &'static str = "/api/v3/accounts/universal-transfer";
pub const ACCOUNTS: &'static str = "/api/v1/accounts";
pub const LENDING_CURRENCIES: &'static str = "/api/v3/project/list";
pub const LENDING_ORDERS: &'static str = "/api/v3/purchase/orders?status=PENDING";
pub const SPOT_CURRENCIES: &'static str = "/api/v3/currencies";
pub const SPOT_SYMBOLS: &'static str = "/api/v2/symbols";
pub const SPOT_TICKERS: &'static str = "/api/v1/market/allTickers";
pub const ANNOUNCEMENTS: &'static str = "/api/v3/announcements";

/// How a spot order is priced.
#[derive(Debug, Clone, Copy, PartialEq, Eq, Default, Structural)]
pub enum Type {
    #[default]
    Limit,
    Market,
}

/// Which way a spot order trades.
#[derive(Debug, Clone, Copy, PartialEq, Eq, Default, Structural)]
pub enum Side {
    #[default]
    Buy,
    Sell,
}

impl Type {
    pub open spec fn text(self) -> Seq<char> {
        match self {
            Type::Limit => seq!['L', 'I', 'M', 'I', 'T'],
            Type::Market => seq!['M', 'A', 'R', 'K', 'E', 'T'],
        }
    }

    pub fn as_str(&self) -> (r: &'static str)
        ensures
            r@ == self.text(),
    {
        match self {
            Type::Limit => {
                proof {
                    reveal_strlit("LIMIT");
                }
                "LIMIT"
            },
            Type::Market => {
                proof {
                    reveal_strlit("MARKET");
                }
                "MARKET"
            },
        }
    }
}

impl Side {
    pub open spec fn text(self) -> Seq<char> {
        match self {
            Side::Buy => seq!['B', 'U', 'Y'],
            Side::Sell => seq!['S', 'E', 'L', 'L'],
        }
    }

    pub fn as_str(&self) -> (r: &'static str)
        ensures
            r@ == self.text(),
    {
        match self {
            Side::Buy => {
                proof {
                    reveal_strlit("BUY");
                }
                "BUY"
            },
            Side::Sell => {
                proof {
                    reveal_strlit("SELL");
                }
                "SELL"
            },
        }
    }
}

/// `s` is the text `format_amount` writes for `a`, which reads back as `a`.
pub open spec fn spells(s: Seq<char>, a: nat) -> bool {
    s == amount_text(a) && decimal_value(s) == Some(a)
}

/// A new spot order.
#[derive(Debug)]
pub struct Add {
    pub order_type: Type,
    pub symbol: String,
    pub side: Side,
    pub client_oid: Option<String>,
    pub price: Option<String>,
    pub size: Option<String>,
    pub funds: Option<String>,
}

impl Add {
    /// A limit order for `size` at `price`.
    pub fn limit(symbol: String, side: Side, price: u128, size: u128) -> (r: Self)
        requires
            price <= MAX_AMOUNT,
            size <= MAX_AMOUNT,
        ensures
            r.order_type == Type::Limit,
            r.symbol == symbol,
            r.side == side,
            r.client_oid is None,
            r.price matches Some(p) && spells(p@, price as nat),
            r.size matches Some(s) && spells(s@, size as nat),
            r.funds is None,
    {
        Add {
            order_type: Type::Limit,
            symbol,
            side,
            client_oid: None,
            price: Some(format_amount(price)),
            size: Some(format_amount(size)),
            funds: None,
        }
    }

    /// A market order: a buy spends `amount` of the quote currency, a sell
    /// sells `amount` of the base currency.
    pub fn market(symbol: String, side: Side, amount: u128) -> (r: Self)
        requires
            amount <= MAX_AMOUNT,
        ensures
            r.order_type == Type::Market,
            r.symbol == symbol,
            r.side == side,
            r.client_oid is None,
            r.price is None,
            side == Side::Buy ==> r.size is None && (r.funds matches Some(f) && spells(f@, amount as nat)),
            side == Side::Sell ==> r.funds is None && (r.size matches Some(s) && spells(s@, amount as nat)),
    {
        let text = format_amount(amount);
        let (size, funds) = match side {
            Side::Buy => (None, Some(text)),
            Side::Sell => (Some(text), None),
        };
        Add { order_type: Type::Market, symbol, side, client_oid: None, price: None, size, funds }
    }
}

/// A new lending offer.
#[derive(Debug)]
pub struct Lend {
    pub currency: String,
    pub interest_rate: String,
    pub size: String,
}

impl Lend {
    /// Offers `size` of `currency` at no less than `interest_rate` percent;
    /// the exchange takes the rate as a fraction.
    pub fn new(currency: String, interest_rate: u128, size: u128) -> (r: Self)
        requires
            interest_rate <= MAX_AMOUNT,
            size <= MAX_AMOUNT,
        ensures
            r.currency == currency,
            spells(r.interest_rate@, (interest_rate / 100) as nat),
            spells(r.size@, size as nat),
    {
        Lend { currency, interest_rate: format_amount(interest_rate / 100), size: format_amount(size) }
    }
}

/// A redemption of part of a lending order.
#[derive(Debug)]
pub struct Redeem {
    pub currency: String,
    pub purchase_order_no: String,
    pub size: String,
}

impl Redeem {
    pub fn new(currency: String, purchase_order_no: String, size: u128) -> (r: Self)
        requires
            size <= MAX_AMOUNT,
        ensures
            r.currency == currency,
            r.purchase_order_no == purchase_order_no,
            spells(r.size@, size as nat),
    {
        Redeem { currency, purchase_order_no, size: format_amount(size) }
    }
}

/// Who a transfer moves funds between.
#[derive(Debug, Clone, Copy, PartialEq, Eq, Structural)]
pub enum TransferType {
    Internal,
    ParentToSub,
    SubToParent,
}

/// A transfer of funds between accounts.
#[derive(Debug)]
pub struct Transfer {
    pub amount: String,
    pub client_oid: String,
    pub currency: String,
    pub from_account_tag: Option<String>,
    pub from_account_type: AccountType,
    pub from_user_id: Option<String>,
    pub to_account_tag: Option<String>,
    pub to_account_type: AccountType,
    pub to_user_id: Option<String>,
    pub transfer_type: TransferType,
}

/// A lower-case hexadecimal digit.
pub open spec fn is_lower_hex(c: char) -> bool {
    ('0' <= c && c <= '9') || ('a' <= c && c <= 'f')
}

/// Relies on `uuid::Uuid::new_v4` and its `simple` form: a fresh random
/// identifier written as 32 lower-case hexadecimal digits.
#[verifier::external_body]
fn new_client_oid() -> (r: String)
    ensures
        r@.len() == 32,
        forall|i: int| 0 <= i < 32 ==> is_lower_hex(#[trigger] r@[i]),
{
    Uuid::new_v4().simple().to_string()
}

impl Transfer {
    /// Moves `amount` of `currency` between two accounts of the same user.
    pub fn internal(
        currency: String,
        amount: u128,
        from: AccountType,
        to: AccountType,
        from_account_tag: Option<String>,
        to_account_tag: Option<String>,
    ) -> (r: Self)
        requires
            amount <= MAX_AMOUNT,
        ensures
            spells(r.amount@, amount as nat),
            r.client_oid@.len() == 32,
            forall|i: int| 0 <= i < 32 ==> is_lower_hex(#[trigger] r.client_oid@[i]),
            r.currency == currency,
            r.from_account_tag == from_account_tag,
            r.from_account_type == from,
            r.from_user_id is None,
            r.to_account_tag == to_account_tag,
            r.to_account_type == to,
            r.to_user_id is None,
            r.transfer_type == TransferType::Internal,
    {
        Transfer {
            amount: format_amount(amount),
            client_oid: new_client_oid(),
            currency,
            from_account_tag,
            from_account_type: from,
            from_user_id: None,
            to_account_tag,
            to_account_type: to,
            to_user_id: None,
            transfer_type: TransferType::Internal,
        }
    }
}

/// One request that an action sends.
#[derive(Debug)]
pub enum Payload {
    SpotOrder(Add),
    Lend(Lend),
    Redeem(Redeem),
    Transfer(Transfer),
}

impl Payload {
    /// The endpoint the payload is posted to.
    pub fn path(&self) -> (r: &'static str)
        ensures
            r == match self {
                Payload::SpotOrder(_) => SPOT_ORDER,
                Payload::Lend(_) => LEND,
                Payload::Redeem(_) => REDEEM,
                Payload::Transfer(_) => TRANSFER,
            },
    {
        match self {
            Payload::SpotOrder(_) => SPOT_ORDER,
            Payload::Lend(_) => LEND,
            Payload::Redeem(_) => REDEEM,
            Payload::Transfer(_) => TRANSFER,
        }
    }
}

/// HTTP methods the exchange is called with.
#[derive(Debug, Clone, Copy, PartialEq, Eq, Structural)]
pub enum Method {
    Get,
    Post,
    Delete,
}

impl Method {
    pub open spec fn text(self) -> Seq<char> {
        match self {
            Method::Get => seq!['G', 'E', 'T'],
            Method::Post => seq!['P', 'O', 'S', 'T'],
            Method::Delete => seq!['D', 'E', 'L', 'E', 'T', 'E'],
        }
    }

    pub fn as_str(&self) -> (r: &'static str)
        ensures
            r@ == self.text(),
    {
        match self {
            Method::Get => {
                proof {
                    reveal_strlit("GET");
                }
                "GET"
            },
            Method::Post => {
                proof {
                    reveal_strlit("POST");
                }
                "POST"
            },
            Method::Delete => {
                proof {
                    reveal_strlit("DELETE");
                }
                "DELETE"
            },
        }
    }
}

/// The API credentials requests are signed with.
pub struct Credentials {
    pub key: String,
    pub key_version: String,
    pub secret: String,
    pub passphrase: String,
}

/// A request to the exchange: method, path and JSON body (empty for none).
pub struct Request {
    pub method: Method,
    pub path: String,
    pub json: String,
}

/// HMAC-SHA256 of `msg` under `key`.
pub uninterp spec fn hmac_sha256_of(key: Seq<u8>, msg: Seq<u8>) -> Seq<u8>;

/// The character standard base64 writes for a six-bit value.
pub open spec fn base64_char(v: nat) -> char {
    if v < 26 {
        ((v + 65) as u8) as char
    } else if v < 52 {
        ((v + 71) as u8) as char
    } else if v < 62 {
        ((v - 4) as u8) as char
    } else if v == 62 {
        '+'
    } else {
        '/'
    }
}

/// Standard base64 of `b`: each group of three bytes becomes four
/// characters; a last group of one or two bytes is padded with `=`.
pub open spec fn base64_of(b: Seq<u8>) -> Seq<char>
    decreases b.len(),
{
    if b.len() == 0 {
        Seq::empty()
    } else if b.len() == 1 {
        seq![base64_char(b[0] as nat / 4), base64_char((b[0] as nat % 4) * 16), '=', '=']
    } else if b.len() == 2 {
        seq![
            base64_char(b[0] as nat / 4),
            base64_char((b[0] as nat % 4) * 16 + b[1] as nat / 16),
            base64_char((b[1] as nat % 16) * 4),
            '=',
        ]
    } else {
        seq![
            base64_char(b[0] as nat / 4),
            base64_char((b[0] as nat % 4) * 16 + b[1] as nat / 16),
            base64_char((b[1] as nat % 16) * 4 + b[2] as nat / 64),
            base64_char(b[2] as nat % 64),
        ] + base64_of(b.skip(3))
    }
}

/// Relies on `hmac::Hmac<sha2::Sha256>`: the keyed digest of `msg`, 32 bytes.
/// HMAC takes a key of any length, so `new_from_slice` does not fail.
#[verifier::external_body]
fn hmac_sha256(key: &[u8], msg: &[u8]) -> (r: Vec<u8>)
    ensures
        r@ == hmac_sha256_of(key@, msg@),
        r@.len() == 32,
{
    let mut mac = <Hmac<Sha256> as Mac>::new_from_slice(key).expect("any key length");
    mac.update(msg);
    mac.finalize().into_bytes().to_vec()
}

/// Relies on `base64::engine::general_purpose::STANDARD.encode`: standard
/// alphabet, padded, four characters for each started group of three bytes.
#[verifier::external_body]
fn base64_encode(bytes: &[u8]) -> (r: String)
    ensures
        r@ == base64_of(bytes@),
        r@.len() == 4 * ((bytes@.len() + 2) / 3),
{
    STANDARD.encode(bytes)
}

/// The text signed for a request: timestamp, method, path and body, run together.
pub open spec fn signed_text(timestamp: Seq<char>, method: Method, path: Seq<char>, json: Seq<char>) -> Seq<char> {
    timestamp + method.text() + path + json
}

/// The UTF-8 bytes of a text.
pub open spec fn bytes_of(s: Seq<char>) -> Seq<u8> {
    encode_utf8(s)
}

impl Request {
    pub fn new(method: Method, path: &str) -> (r: Self)
        ensures
            r.method == method,
            r.path@ == path@,
            r.json@ == Seq::<char>::empty(),
    {
        Request { method, path: owned(path), json: String::new() }
    }

    pub fn get(path: &str) -> (r: Self)
        ensures
            r.method == Method::Get,
            r.path@ == path@,
            r.json@ == Seq::<char>::empty(),
    {
        Request::new(Method::Get, path)
    }

    pub fn post(path: &str) -> (r: Self)
        ensures
            r.method == Method::Post,
            r.path@ == path@,
            r.json@ == Seq::<char>::empty(),
    {
        Request::new(Method::Post, path)
    }

    pub fn delete(path: &str) -> (r: Self)
        ensures
            r.method == Method::Delete,
            r.path@ == path@,
            r.json@ == Seq::<char>::empty(),
    {
        Request::new(Method::Delete, path)
    }

    /// The same request with `json` as its body.
    pub fn json(self, json: String) -> (r: Self)
        ensures
            r.method == self.method,
            r.path == self.path,
            r.json == json,
    {
        Request { json, ..self }
    }

    /// The text that is signed for this request at `timestamp`.
    pub fn text_to_sign(&self, timestamp: &str) -> (r: String)
        ensures
            r@ == signed_text(timestamp@, self.method, self.path@, self.json@),
    {
        let mut r = owned(timestamp);
        r.append(self.method.as_str());
        r.append(self.path.as_str());
        r.append(self.json.as_str());
        r
    }

    /// The authentication headers of this request at `timestamp_ms`
    /// (milliseconds since the Unix epoch), as name/value pairs: key, key
    /// version, signature, signed passphrase, timestamp, and the content type
    /// when there is a body.
    pub fn headers(&self, credentials: &Credentials, timestamp_ms: u64) -> (r: Vec<(String, String)>)
        requires
            timestamp_ms < ONE,
        ensures
            r@.len() == if self.json@.len() == 0 { 5int } else { 6int },
            r@[0].0@ == "KC-API-KEY"@,
            r@[1].0@ == "KC-API-KEY-VERSION"@,
            r@[2].0@ == "KC-API-SIGN"@,
            r@[3].0@ == "KC-API-PASSPHRASE"@,
            r@[4].0@ == "KC-API-TIMESTAMP"@,
            r@[4].1@ == integer_text(timestamp_ms as nat),
            r@[2].1@ == base64_of(
                hmac_sha256_of(
                    bytes_of(credentials.secret@),
                    bytes_of(signed_text(integer_text(timestamp_ms as nat), self.method, self.path@, self.json@)),
                ),
            ),
            self.json@.len() != 0 ==> r@[5].0@ == "Content-Type"@ && r@[5].1@ == "application/json"@,
            r@[3].1@ == base64_of(
                hmac_sha256_of(
                    bytes_of(credentials.secret@),
                    bytes_of(credentials.passphrase@),
                ),
            ),
            r@[0].1 == credentials.key,
            r@[1].1 == credentials.key_version,
    {
        let timestamp = format_integer(timestamp_ms as u128);
        let text = self.text_to_sign(timestamp.as_str());
        let secret = credentials.secret.as_str().as_bytes();
        let signature = base64_encode(hmac_sha256(secret, text.as_str().as_bytes()).as_slice());
        let passphrase = base64_encode(
            hmac_sha256(secret, credentials.passphrase.as_str().as_bytes()).as_slice(),
        );
        let mut r: Vec<(String, String)> = Vec::new();
        r.push((owned("KC-API-KEY"), credentials.key.clone()));
        r.push((owned("KC-API-KEY-VERSION"), credentials.key_version.clone()));
        r.push((owned("KC-API-SIGN"), signature));
        r.push((owned("KC-API-PASSPHRASE"), passphrase));
        r.push((owned("KC-API-TIMESTAMP"), timestamp));
        if self.json.as_str().unicode_len() != 0 {
            r.push((owned("Content-Type"), owned("application/json")));
        }
        r
    }
}

} // verus!
