//! The exchange's reply envelope.
use vstd::prelude::*;
use crate::text::owned;

verus! {

/// What the exchange answers: a payload, or a status code with a message.
#[derive(Debug)]
pub enum Response<T> {
    Success { code: String, data: T },
    Error { code: String, msg: String },
}

/// A failure the exchange reported.
#[derive(Debug)]
pub struct ExchangeError {
    pub code: String,
    pub msg: String,
}

impl<T> Response<T> {
    /// The payload of a success, or the reported failure.
    pub fn into_result(self) -> (r: Result<T, ExchangeError>)
        ensures
            match self {
                Response::Success { data, .. } => r == Ok::<T, ExchangeError>(data),
                Response::Error { code, msg } => r == Err::<T, ExchangeError>(ExchangeError { code, msg }),
            },
    {
        match self {
            Response::Success { data, .. } => Ok(data),
            Response::Error { code, msg } => Err(ExchangeError { code, msg }),
        }
    }
}

impl ExchangeError {
    /// `code: <code>, msg: <msg>`.
    pub fn message(&self) -> (r: String)
        ensures
            r@ == seq!['c', 'o', 'd', 'e', ':', ' '] + self.code@ + seq![',', ' ', 'm', 's', 'g', ':', ' ']
                + self.msg@,
    {
        proof {
            reveal_strlit("code: ");
            reveal_strlit(", msg: ");
        }
        let mut r = owned("code: ");
        r.append(self.code.as_str());
        r.append(", msg: ");
        r.append(self.msg.as_str());
        r
    }
}

/// One page of a listing.
#[derive(Debug)]
pub struct Paginated<T> {
    pub current_page: u16,
    pub page_size: u16,
    pub total_num: u32,
    pub total_page: u16,
    pub items: Vec<T>,
}

impl<T> Paginated<T> {
    /// The items of the page, in order.
    pub fn into_items(self) -> (r: Vec<T>)
        ensures
            r@ == self.items@,
    {
        self.items
    }
}

/// The identifiers the exchange gives a placed order.
#[derive(Debug)]
pub struct Order {
    pub order_id: String,
    pub client_oid: Option<String>,
}

} // verus!
