//! The ledger engine: accounts, transaction history and dispute state.

use std::collections::{HashMap, HashSet};
use vstd::prelude::*;
use crate::account::Account;
use crate::amount::{fits, Amount};
use crate::ledger::{lemma_record_keeps_balanced, Ledger, Movement};
use crate::transaction::{Transaction, TransactionType};

verus! {

broadcast use vstd::std_specs::hash::group_hash_axioms;

/// A movement of balances in machine integers, each within the range of an amount.
struct Shift {
    available: i128,
    held: i128,
    total: i128,
    locks: bool,
}

impl View for Shift {
    type V = Movement;

    closed spec fn view(&self) -> Movement {
        Movement {
            available: self.available as int,
            held: self.held as int,
            total: self.total as int,
            locks: self.locks,
        }
    }
}

impl Shift {
    spec fn bounded(self) -> bool {
        fits(self.available as int) && fits(self.held as int) && fits(self.total as int)
    }
}

/// Owns every account and replays transactions against them, one at a time.
pub struct AccountService {
    pub accounts: HashMap<u16, Account>,
    /// Deposits and withdrawals by transaction id, kept for later disputes.
    pub disputable_transactions: HashMap<u32, Transaction>,
    pub disputed_transaction_ids: HashSet<u32>,
    pub resolved_dispute_ids: HashSet<u32>,
}

impl View for AccountService {
    type V = Ledger;

    open spec fn view(&self) -> Ledger {
        Ledger {
            accounts: self.accounts@.map_values(|a: Account| a@),
            history: self.disputable_transactions@.map_values(|t: Transaction| t@),
            disputed: self.disputed_transaction_ids@,
            resolved: self.resolved_dispute_ids@,
        }
    }
}

impl AccountService {
    /// A ledger with no accounts and no history.
    pub fn new() -> (r: Self)
        ensures
            r@ == Ledger::empty(),
            r@.balanced(),
    {
        let r = AccountService {
            accounts: HashMap::new(),
            disputable_transactions: HashMap::new(),
            disputed_transaction_ids: HashSet::new(),
            resolved_dispute_ids: HashSet::new(),
        };
        assert(r@.accounts =~= Map::empty());
        assert(r@.history =~= Map::empty());
        r
    }

    /// The account of `client` as it stands, zeroed if the client is new.
    fn account(&self, client: u16) -> (r: Account)
        ensures
            r@ == self@.account(client),
    {
        match self.accounts.get(&client) {
            Some(a) => *a,
            None => Account::open(client),
        }
    }

    /// The amount of the stored transaction that `t` refers to.
    fn referenced(&self, t: &Transaction) -> (r: Option<i128>)
        ensures
            match r {
                Some(x) => self@.referenced(t@) == Some(x as int) && fits(x as int),
                None => self@.referenced(t@).is_none(),
            },
    {
        match self.disputable_transactions.get(&t.tx) {
            Some(stored) => {
                if stored.client != t.client {
                    return None;
                }
                match stored.amount {
                    Some(a) => Some(a.units()),
                    None => None,
                }
            },
            None => None,
        }
    }

    /// The movement that `t` asks for on `account`, by its kind.
    fn movement(&self, account: &Account, t: &Transaction) -> (r: Option<Shift>)
        requires
            account@ == self@.account(t.client),
        ensures
            match r {
                Some(s) => self@.movement(t@) == Some(s@) && s.bounded(),
                None => self@.movement(t@).is_none(),
            },
    {
        match &t.kind {
            TransactionType::Deposit => match t.amount {
                Some(a) => {
                    let x: i128 = a.units();
                    Some(Shift { available: x, held: 0, total: x, locks: false })
                },
                None => None,
            },
            TransactionType::Withdrawal => match t.amount {
                Some(a) => {
                    let x: i128 = a.units();
                    if x > account.available.units() {
                        None
                    } else {
                        Some(Shift { available: -x, held: 0, total: -x, locks: false })
                    }
                },
                None => None,
            },
            TransactionType::Dispute => match self.referenced(t) {
                Some(x) => Some(Shift { available: -x, held: x, total: 0, locks: false }),
                None => None,
            },
            TransactionType::Resolve => {
                if !self.disputed_transaction_ids.contains(&t.tx) {
                    return None;
                }
                if self.resolved_dispute_ids.contains(&t.tx) {
                    return None;
                }
                match self.referenced(t) {
                    Some(x) => Some(Shift { available: x, held: -x, total: 0, locks: false }),
                    None => None,
                }
            },
            TransactionType::Chargeback => {
                if !self.disputed_transaction_ids.contains(&t.tx) {
                    return None;
                }
                match self.referenced(t) {
                    Some(x) => {
                        if self.resolved_dispute_ids.contains(&t.tx) {
                            // a resolve is undone first, which takes the funds
                            // out of what is available again
                            Some(Shift { available: -x, held: 0, total: -x, locks: true })
                        } else {
                            Some(Shift { available: 0, held: -x, total: -x, locks: true })
                        }
                    },
                    None => None,
                }
            },
            TransactionType::Unknown(_) => None,
        }
    }

    /// `account` after `shift`, unless it is locked or a balance would leave
    /// the range of an amount.
    fn shifted(account: &Account, shift: &Shift) -> (r: Option<Account>)
        requires
            shift.bounded(),
        ensures
            r.is_some() == (!account.locked && shift@.in_range(account@)),
            r matches Some(b) ==> b@ == shift@.apply(account@),
    {
        if account.locked {
            return None;
        }
        let available = Amount::from_units(account.available.units() + shift.available);
        let held = Amount::from_units(account.held.units() + shift.held);
        let total = Amount::from_units(account.total.units() + shift.total);
        match (available, held, total) {
            (Some(available), Some(held), Some(total)) => Some(
                Account { client: account.client, available, held, total, locked: shift.locks },
            ),
            _ => None,
        }
    }

    /// Records one transaction. A transaction that the rules do not allow is
    /// ignored: it changes nothing but that its client has an account afterwards.
    pub fn record_transaction(&mut self, transaction: Transaction)
        ensures
            final(self)@ == old(self)@.record(transaction@),
            old(self)@.balanced() ==> final(self)@.balanced(),
    {
        let client = transaction.client;
        let tx = transaction.tx;
        let account = self.account(client);
        let next = match self.movement(&account, &transaction) {
            Some(shift) => Self::shifted(&account, &shift),
            None => None,
        };
        match next {
            None => {
                self.accounts.insert(client, account);
            },
            Some(moved) => {
                self.accounts.insert(client, moved);
                match &transaction.kind {
                    TransactionType::Deposit | TransactionType::Withdrawal => {
                        self.disputable_transactions.insert(tx, transaction);
                    },
                    TransactionType::Dispute => {
                        self.disputed_transaction_ids.insert(tx);
                    },
                    TransactionType::Resolve => {
                        self.resolved_dispute_ids.insert(tx);
                    },
                    TransactionType::Chargeback => {
                        self.resolved_dispute_ids.remove(&tx);
                    },
                    TransactionType::Unknown(_) => {},
                }
            },
        }
        proof {
            let before = old(self)@;
            let after = before.record(transaction@);
            assert(final(self)@.accounts =~= after.accounts);
            assert(final(self)@.history =~= after.history);
            assert(final(self)@.disputed =~= after.disputed);
            assert(final(self)@.resolved =~= after.resolved);
            if before.balanced() {
                lemma_record_keeps_balanced(before, transaction@);
            }
        }
    }

    /// Every account seen so far, by client, in no particular order.
    pub fn summary(&self) -> (r: &HashMap<u16, Account>)
        ensures
            r@ == self.accounts@,
            r@.map_values(|a: Account| a@) == self@.accounts,
    {
        &self.accounts
    }
}

} // verus!
