//! All market-data snapshots of one exchange account, side by side.
use vstd::prelude::*;
use crate::account::Accounts;
use crate::lending::Lending;
use crate::spot::SpotTrading;

verus! {

/// The account, lending and spot snapshots that rules are evaluated against.
pub struct KuCoin {
    pub accounts: Accounts,
    pub lending: Lending,
    pub spot: SpotTrading,
}

impl KuCoin {
    pub open spec fn wf(&self) -> bool {
        self.lending.currencies.wf() && self.spot.tickers.wf()
    }

    /// Empty snapshots, before any refresh.
    pub fn new() -> (r: Self)
        ensures
            r.wf(),
            r.accounts.view() == Seq::<crate::account::Account>::empty(),
            r.lending.currencies@ == Map::<Seq<char>, crate::lending::Currency>::empty(),
            r.lending.currencies.recent_view() == Seq::<Seq<char>>::empty(),
            r.lending.orders@ == Map::<Seq<char>, crate::lending::Order>::empty(),
            r.spot.currencies@ == Map::<Seq<char>, crate::spot::Currency>::empty(),
            r.spot.symbols@ == Map::<Seq<char>, crate::spot::Symbol>::empty(),
            r.spot.tickers@ == Map::<Seq<char>, crate::spot::Ticker>::empty(),
            r.spot.tickers.recent_view() == Seq::<Seq<char>>::empty(),
    {
        KuCoin { accounts: Accounts::new(), lending: Lending::new(), spot: SpotTrading::new() }
    }

    pub fn accounts(&self) -> (r: &Accounts)
        ensures
            *r == self.accounts,
    {
        &self.accounts
    }

    pub fn lending(&self) -> (r: &Lending)
        ensures
            *r == self.lending,
    {
        &self.lending
    }

    pub fn spot(&self) -> (r: &SpotTrading)
        ensures
            *r == self.spot,
    {
        &self.spot
    }

    pub fn accounts_mut(&mut self) -> (r: &mut Accounts)
        ensures
            *r == old(self).accounts,
            *final(self) == (KuCoin { accounts: *final(r), ..*old(self) }),
    {
        &mut self.accounts
    }

    pub fn lending_mut(&mut self) -> (r: &mut Lending)
        ensures
            *r == old(self).lending,
            *final(self) == (KuCoin { lending: *final(r), ..*old(self) }),
    {
        &mut self.lending
    }

    pub fn spot_mut(&mut self) -> (r: &mut SpotTrading)
        ensures
            *r == old(self).spot,
            *final(self) == (KuCoin { spot: *final(r), ..*old(self) }),
    {
        &mut self.spot
    }
}

} // verus!
