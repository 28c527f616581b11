//! Rule-driven automation for an exchange account: market-data snapshots,
//! rule evaluation, trade sizing, request signing and the scheduler that runs
//! rules, with their behaviour stated in contracts and proved.

pub mod account;
pub mod announcements;
pub mod decimal;
pub mod kucoin;
pub mod lending;
pub mod request;
pub mod response;
pub mod snapshot;
pub mod spot;
pub mod strategies;
pub mod strategy;
pub mod text;
