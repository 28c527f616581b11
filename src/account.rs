//! Account balances, as the exchange lists them.
use vstd::prelude::*;
use crate::decimal::{amount_view, decimal_value, parse_amount, MAX_AMOUNT};
use crate::text::str_eq;

verus! {

/// The kinds of account an exchange user holds.
#[derive(Debug, Clone, Copy, PartialEq, Eq, Hash, Default, Structural)]
pub enum AccountType {
    #[default]
    Main,
    Trade,
    Contract,
    Margin,
    Isolated,
    MarginV2,
    IsolatedV2,
    Options,
}

/// One currency held in one account.
#[derive(Debug, Clone)]
pub struct Account {
    pub id: String,
    pub currency: String,
    pub account_type: AccountType,
    pub balance: String,
    pub available: String,
    pub holds: String,
}

/// An account with a positive total balance.
pub open spec fn has_balance(a: Account) -> bool {
    decimal_value(a.balance@) matches Some(b) && b > 0
}

/// The accounts of `s` that have a positive balance, in order.
pub open spec fn retained(s: Seq<Account>) -> Seq<Account>
    decreases s.len(),
{
    if s.len() == 0 {
        s
    } else if has_balance(s.last()) {
        retained(s.drop_last()).push(s.last())
    } else {
        retained(s.drop_last())
    }
}

/// Available amount of the first account of type `t` in currency `c`.
pub open spec fn available_in(s: Seq<Account>, t: AccountType, c: Seq<char>) -> Option<nat>
    decreases s.len(),
{
    if s.len() == 0 {
        None
    } else if s[0].account_type == t && s[0].currency@ == c {
        decimal_value(s[0].available@)
    } else {
        available_in(s.skip(1), t, c)
    }
}

impl Account {
    pub fn currency(&self) -> (r: &str)
        ensures
            r@ == self.currency@,
    {
        self.currency.as_str()
    }

    pub fn account_type(&self) -> (r: AccountType)
        ensures
            r == self.account_type,
    {
        self.account_type
    }

    /// The total balance, if it is a well-formed decimal.
    pub fn balance(&self) -> (r: Option<u128>)
        ensures
            amount_view(r) == decimal_value(self.balance@),
            r matches Some(a) ==> a <= MAX_AMOUNT,
    {
        parse_amount(self.balance.as_str())
    }

    /// The available balance, if it is a well-formed decimal.
    pub fn available(&self) -> (r: Option<u128>)
        ensures
            amount_view(r) == decimal_value(self.available@),
            r matches Some(a) ==> a <= MAX_AMOUNT,
    {
        parse_amount(self.available.as_str())
    }
}

/// The accounts snapshot: every account with a positive balance.
#[derive(Debug)]
pub struct Accounts {
    pub accounts: Vec<Account>,
}

impl Accounts {
    pub open spec fn view(&self) -> Seq<Account> {
        self.accounts@
    }

    pub fn new() -> (r: Self)
        ensures
            r.view() == Seq::<Account>::empty(),
    {
        Accounts { accounts: Vec::new() }
    }

    /// Available amount of `currency` in the account of type `account_type`.
    pub fn available(&self, account_type: &AccountType, currency: &str) -> (r: Option<u128>)
        ensures
            amount_view(r) == available_in(self.view(), *account_type, currency@),
            r matches Some(a) ==> a <= MAX_AMOUNT,
    {
        let n = self.accounts.len();
        let mut i: usize = 0;
        let ghost s = self.view();
        assert(s.skip(0) =~= s);
        while i < n
            invariant
                s == self.view(),
                n == s.len(),
                i <= n,
                available_in(s, *account_type, currency@) == available_in(
                    s.skip(i as int),
                    *account_type,
                    currency@,
                ),
            decreases n - i,
        {
            let a = &self.accounts[i];
            proof {
                assert(s.skip(i as int)[0] == s[i as int]);
                assert(s.skip(i as int).skip(1) =~= s.skip(i + 1));
            }
            if a.account_type == *account_type && str_eq(a.currency(), currency) {
                return a.available();
            }
            i += 1;
        }
        None
    }

    /// Replaces the snapshot with the accounts of `accounts` that have a
    /// positive balance.
    pub fn set(&mut self, accounts: Vec<Account>)
        ensures
            final(self).view() == retained(accounts@),
    {
        let mut kept: Vec<Account> = Vec::new();
        let n = accounts.len();
        let mut i: usize = 0;
        let mut rest = accounts;
        let ghost s = rest@;
        while i < n
            invariant
                n == s.len(),
                i <= n,
                rest@ == s.skip(i as int),
                kept@ == retained(s.take(i as int)),
            decreases n - i,
        {
            let a = rest.remove(0);
            proof {
                assert(a == s[i as int]);
                assert(s.take(i + 1).drop_last() =~= s.take(i as int));
                assert(s.take(i + 1).last() == s[i as int]);
                assert(rest@ =~= s.skip(i + 1));
            }
            let positive = match a.balance() {
                Some(b) => b > 0,
                None => false,
            };
            if positive {
                kept.push(a);
            }
            i += 1;
        }
        proof {
            assert(s.take(n as int) =~= s);
        }
        self.accounts = kept;
    }

    /// Installs what a fetch of the account list returned. On failure the
    /// previous snapshot stays in place.
    pub fn refresh<E>(&mut self, fetched: Result<Vec<Account>, E>)
        ensures
            match fetched {
                Ok(accounts) => final(self).view() == retained(accounts@),
                Err(_) => final(self).view() == old(self).view(),
            },
    {
        if let Ok(accounts) = fetched {
            self.set(accounts);
        }
    }

    /// The accounts held, in order.
    pub fn lock(&self) -> (r: &Vec<Account>)
        ensures
            r@ == self.view(),
    {
        &self.accounts
    }
}

} // verus!
