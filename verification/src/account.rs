//! The balance record kept for each client.

use vstd::prelude::*;
use crate::amount::Amount;

verus! {

/// The mathematical content of an [`Account`]: balances in ten-thousandths.
pub ghost struct AccountView {
    pub client: u16,
    pub available: int,
    pub held: int,
    pub total: int,
    pub locked: bool,
}

impl AccountView {
    /// The account of a client that has not been seen before.
    pub open spec fn opened(client: u16) -> AccountView {
        AccountView { client, available: 0, held: 0, total: 0, locked: false }
    }

    /// The total is exactly what is available plus what is held.
    pub open spec fn balanced(self) -> bool {
        self.total == self.available + self.held
    }

    /// Neither the available nor the held funds are negative.
    pub open spec fn non_negative(self) -> bool {
        self.available >= 0 && self.held >= 0
    }
}

/// The balances of one client.
#[derive(Clone, Copy, Debug)]
pub struct Account {
    pub client: u16,
    /// Funds free to withdraw.
    pub available: Amount,
    /// Funds frozen while a dispute is open.
    pub held: Amount,
    pub total: Amount,
    /// Set by a chargeback; a locked account no longer changes.
    pub locked: bool,
}

impl View for Account {
    type V = AccountView;

    open spec fn view(&self) -> AccountView {
        AccountView {
            client: self.client,
            available: self.available@,
            held: self.held@,
            total: self.total@,
            locked: self.locked,
        }
    }
}

impl Account {
    /// A zeroed, unlocked account for `client`.
    pub fn open(client: u16) -> (r: Account)
        ensures
            r@ == AccountView::opened(client),
    {
        Account {
            client,
            available: Amount::zero(),
            held: Amount::zero(),
            total: Amount::zero(),
            locked: false,
        }
    }
}

} // verus!
