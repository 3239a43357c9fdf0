//! The ledger as a mathematical state machine.

use vstd::prelude::*;
use crate::account::AccountView;
use crate::amount::fits;
use crate::transaction::{TransactionType, TransactionView};

verus! {

/// The state of the ledger: accounts by client, the deposits and withdrawals
/// seen so far by transaction id, and the ids under dispute and resolved.
pub ghost struct Ledger {
    pub accounts: Map<u16, AccountView>,
    pub history: Map<u32, TransactionView>,
    pub disputed: Set<u32>,
    pub resolved: Set<u32>,
}

/// What one transaction does to the balances of its account.
pub ghost struct Movement {
    pub available: int,
    pub held: int,
    pub total: int,
    pub locks: bool,
}

impl Movement {
    /// The account `a` after this movement.
    pub open spec fn apply(self, a: AccountView) -> AccountView {
        AccountView {
            client: a.client,
            available: a.available + self.available,
            held: a.held + self.held,
            total: a.total + self.total,
            locked: a.locked || self.locks,
        }
    }

    /// Whether every balance of `a` stays in range under this movement.
    pub open spec fn in_range(self, a: AccountView) -> bool {
        &&& fits(a.available + self.available)
        &&& fits(a.held + self.held)
        &&& fits(a.total + self.total)
    }
}

impl Ledger {
    /// The ledger before any transaction.
    pub open spec fn empty() -> Ledger {
        Ledger {
            accounts: Map::empty(),
            history: Map::empty(),
            disputed: Set::empty(),
            resolved: Set::empty(),
        }
    }

    /// The account of `client`, zeroed if the client was never seen.
    pub open spec fn account(self, client: u16) -> AccountView {
        if self.accounts.contains_key(client) {
            self.accounts[client]
        } else {
            AccountView::opened(client)
        }
    }

    /// The amount of the stored transaction that `t` refers to, if there is one,
    /// it belongs to the same client and has an amount.
    pub open spec fn referenced(self, t: TransactionView) -> Option<int> {
        if self.history.contains_key(t.tx) && self.history[t.tx].client == t.client {
            self.history[t.tx].amount
        } else {
            None
        }
    }

    /// The movement that `t` asks for, or `None` where the rules ignore it.
    /// Neither the lock nor the range of the balances is looked at here.
    pub open spec fn movement(self, t: TransactionView) -> Option<Movement> {
        match t.kind {
            TransactionType::Deposit => match t.amount {
                Some(x) => Some(Movement { available: x, held: 0, total: x, locks: false }),
                None => None,
            },
            TransactionType::Withdrawal => match t.amount {
                Some(x) => if x > self.account(t.client).available {
                    None
                } else {
                    Some(Movement { available: -x, held: 0, total: -x, locks: false })
                },
                None => None,
            },
            TransactionType::Dispute => match self.referenced(t) {
                Some(x) => Some(Movement { available: -x, held: x, total: 0, locks: false }),
                None => None,
            },
            TransactionType::Resolve => match self.referenced(t) {
                Some(x) => if self.disputed.contains(t.tx) && !self.resolved.contains(t.tx) {
                    Some(Movement { available: x, held: -x, total: 0, locks: false })
                } else {
                    None
                },
                None => None,
            },
            TransactionType::Chargeback => match self.referenced(t) {
                Some(x) => if !self.disputed.contains(t.tx) {
                    None
                } else if self.resolved.contains(t.tx) {
                    Some(Movement { available: -x, held: 0, total: -x, locks: true })
                } else {
                    Some(Movement { available: 0, held: -x, total: -x, locks: true })
                },
                None => None,
            },
            TransactionType::Unknown(_) => None,
        }
    }

    /// The movement that `t` has on this ledger: the one it asks for, unless its
    /// account is locked or a balance would leave the range of an amount.
    pub open spec fn effect(self, t: TransactionView) -> Option<Movement> {
        let a = self.account(t.client);
        match self.movement(t) {
            Some(m) => if !a.locked && m.in_range(a) {
                Some(m)
            } else {
                None
            },
            None => None,
        }
    }

    /// The ledger after `t`. The account of `t.client` exists afterwards in any
    /// case; where `t` has no effect nothing else changes.
    pub open spec fn record(self, t: TransactionView) -> Ledger {
        let a = self.account(t.client);
        match self.effect(t) {
            None => Ledger { accounts: self.accounts.insert(t.client, a), ..self },
            Some(m) => Ledger {
                accounts: self.accounts.insert(t.client, m.apply(a)),
                history: match t.kind {
                    TransactionType::Deposit | TransactionType::Withdrawal => self.history.insert(
                        t.tx,
                        t,
                    ),
                    _ => self.history,
                },
                disputed: match t.kind {
                    TransactionType::Dispute => self.disputed.insert(t.tx),
                    _ => self.disputed,
                },
                resolved: match t.kind {
                    TransactionType::Resolve => self.resolved.insert(t.tx),
                    TransactionType::Chargeback => self.resolved.remove(t.tx),
                    _ => self.resolved,
                },
            },
        }
    }

    /// The ledger after the transactions of `ts`, in order.
    pub open spec fn replay(self, ts: Seq<TransactionView>) -> Ledger
        decreases ts.len(),
    {
        if ts.len() == 0 {
            self
        } else {
            self.replay(ts.drop_last()).record(ts.last())
        }
    }

    /// No account has negative available or held funds.
    pub open spec fn non_negative(self) -> bool {
        forall|c: u16| #[trigger] self.accounts.contains_key(c) ==> self.accounts[c].non_negative()
    }

    /// Whether the funds of the account of `t.client` cover what `t` moves: a
    /// deposit does not take out more than is available, a dispute or resolve
    /// moves no more than the balance it takes from (nor, with a negative
    /// amount, than the one it adds to), a chargeback takes no more than is
    /// held, or than is available where it first undoes a resolve.
    pub open spec fn within_funds(self, t: TransactionView) -> bool {
        let a = self.account(t.client);
        match t.kind {
            TransactionType::Deposit => match t.amount {
                Some(x) => -a.available <= x,
                None => true,
            },
            TransactionType::Dispute => match self.referenced(t) {
                Some(x) => -a.held <= x <= a.available,
                None => true,
            },
            TransactionType::Resolve => match self.referenced(t) {
                Some(x) => -a.available <= x <= a.held,
                None => true,
            },
            TransactionType::Chargeback => match self.referenced(t) {
                Some(x) => if self.resolved.contains(t.tx) {
                    x <= a.available
                } else {
                    x <= a.held
                },
                None => true,
            },
            _ => true,
        }
    }

    /// Every account is filed under its own client id and its total is exactly
    /// what is available plus what is held.
    pub open spec fn balanced(self) -> bool {
        forall|c: u16| #[trigger]
            self.accounts.contains_key(c) ==> self.accounts[c].client == c
                && self.accounts[c].balanced()
    }
}

/// One transaction keeps every total exactly equal to what is available plus
/// what is held, and every account under its own client id.
pub proof fn lemma_record_keeps_balanced(l: Ledger, t: TransactionView)
    requires
        l.balanced(),
    ensures
        l.record(t).balanced(),
{
    let a = l.account(t.client);
    assert(a.client == t.client && a.balanced());
    let after = l.record(t);
    assert forall|c: u16| #[trigger] after.accounts.contains_key(c) implies after.accounts[c].client
        == c && after.accounts[c].balanced() by {
        if c != t.client {
            assert(l.accounts.contains_key(c));
        }
    }
}

/// Replaying any transactions keeps every total exactly equal to what is
/// available plus what is held.
pub proof fn lemma_replay_keeps_balanced(l: Ledger, ts: Seq<TransactionView>)
    requires
        l.balanced(),
    ensures
        l.replay(ts).balanced(),
    decreases ts.len(),
{
    if ts.len() > 0 {
        lemma_replay_keeps_balanced(l, ts.drop_last());
        lemma_record_keeps_balanced(l.replay(ts.drop_last()), ts.last());
    }
}

/// Whatever is replayed on a new ledger, every total is exactly what is
/// available plus what is held.
pub proof fn lemma_history_is_balanced(ts: Seq<TransactionView>)
    ensures
        Ledger::empty().replay(ts).balanced(),
{
    lemma_replay_keeps_balanced(Ledger::empty(), ts);
}

/// On a ledger without negative available or held funds, a transaction leaves
/// none negative exactly if it has no effect or the funds cover what it moves.
pub proof fn lemma_record_non_negative(l: Ledger, t: TransactionView)
    requires
        l.non_negative(),
    ensures
        l.record(t).non_negative() <==> (l.effect(t).is_some() ==> l.within_funds(t)),
{
    let a = l.account(t.client);
    let after = l.record(t);
    assert(a.non_negative());
    assert(after.accounts.contains_key(t.client));
    if l.effect(t).is_some() ==> l.within_funds(t) {
        assert forall|c: u16| #[trigger] after.accounts.contains_key(c) implies after.accounts[c].non_negative() by {
            if c != t.client {
                assert(l.accounts.contains_key(c));
            }
        }
    } else {
        assert(!after.accounts[t.client].non_negative());
    }
}

/// A transaction changes no field of an account that is locked.
pub proof fn lemma_locked_account_is_inert(l: Ledger, t: TransactionView, client: u16)
    requires
        l.accounts.contains_key(client),
        l.accounts[client].locked,
    ensures
        l.record(t).accounts.contains_key(client),
        l.record(t).accounts[client] == l.accounts[client],
{
}

/// Once an account is locked, no later transactions change any of its fields.
pub proof fn lemma_locked_account_stays(l: Ledger, ts: Seq<TransactionView>, client: u16)
    requires
        l.accounts.contains_key(client),
        l.accounts[client].locked,
    ensures
        l.replay(ts).accounts.contains_key(client),
        l.replay(ts).accounts[client] == l.accounts[client],
    decreases ts.len(),
{
    if ts.len() > 0 {
        lemma_locked_account_stays(l, ts.drop_last(), client);
        lemma_locked_account_is_inert(l.replay(ts.drop_last()), ts.last(), client);
    }
}

/// Recording the same resolve a second time changes nothing.
pub proof fn lemma_resolve_is_idempotent(l: Ledger, t: TransactionView)
    requires
        t.kind == TransactionType::Resolve,
    ensures
        l.record(t).record(t) == l.record(t),
{
    let once = l.record(t);
    let twice = once.record(t);
    assert(once.account(t.client) == once.accounts[t.client]);
    assert(once.referenced(t) == l.referenced(t));
    assert(once.effect(t).is_none());
    assert(twice.accounts =~= once.accounts);
}

/// A transaction removes no account and takes no transaction out of dispute:
/// what was disputed once stays marked so.
pub proof fn lemma_record_keeps_accounts_and_disputes(l: Ledger, t: TransactionView)
    ensures
        l.accounts.dom().subset_of(l.record(t).accounts.dom()),
        l.record(t).accounts.contains_key(t.client),
        l.disputed.subset_of(l.record(t).disputed),
        l.history.dom().subset_of(l.record(t).history.dom()),
{
}

/// A withdrawal never takes the available funds below zero.
pub proof fn lemma_withdrawal_is_covered(l: Ledger, t: TransactionView)
    requires
        t.kind == TransactionType::Withdrawal,
        l.account(t.client).available >= 0,
    ensures
        l.record(t).account(t.client).available >= 0,
{
}

/// A resolve of a transaction that is marked resolved has no effect, whoever
/// sends it.
pub proof fn lemma_resolved_is_not_resolved_again(l: Ledger, t: TransactionView)
    requires
        t.kind == TransactionType::Resolve,
        l.resolved.contains(t.tx),
    ensures
        l.effect(t).is_none(),
        l.record(t).account(t.client) == l.account(t.client),
        l.record(t).history == l.history,
        l.record(t).disputed == l.disputed,
        l.record(t).resolved == l.resolved,
{
}

/// The marks that a transaction with an effect finds and leaves: a dispute
/// marks its transaction disputed; a resolve finds it disputed and not
/// resolved, and marks it resolved; a chargeback finds it disputed, takes the
/// resolved mark away and locks the account.
pub proof fn lemma_dispute_lifecycle(l: Ledger, t: TransactionView)
    requires
        l.effect(t).is_some(),
    ensures
        t.kind == TransactionType::Dispute ==> l.record(t).disputed.contains(t.tx),
        t.kind == TransactionType::Resolve ==> l.disputed.contains(t.tx) && !l.resolved.contains(
            t.tx,
        ) && l.record(t).resolved.contains(t.tx),
        t.kind == TransactionType::Chargeback ==> l.disputed.contains(t.tx)
            && !l.record(t).resolved.contains(t.tx) && l.record(t).account(t.client).locked,
{
}

/// Only a chargeback locks an account, and only the account of its own client.
pub proof fn lemma_only_chargeback_locks(l: Ledger, t: TransactionView, client: u16)
    requires
        !l.account(client).locked,
        l.record(t).account(client).locked,
    ensures
        t.kind == TransactionType::Chargeback,
        t.client == client,
        l.effect(t).is_some(),
{
}

/// A dispute or a resolve leaves the total as it is; a deposit or withdrawal
/// leaves the held funds as they are.
pub proof fn lemma_untouched_balances(l: Ledger, t: TransactionView)
    ensures
        t.kind == TransactionType::Dispute || t.kind == TransactionType::Resolve ==> l.record(
            t,
        ).account(t.client).total == l.account(t.client).total,
        t.kind == TransactionType::Deposit || t.kind == TransactionType::Withdrawal ==> l.record(
            t,
        ).account(t.client).held == l.account(t.client).held,
{
}

/// A transaction changes no account but that of its own client.
pub proof fn lemma_other_accounts_unchanged(l: Ledger, t: TransactionView, client: u16)
    requires
        client != t.client,
    ensures
        l.record(t).accounts.contains_key(client) == l.accounts.contains_key(client),
        l.record(t).account(client) == l.account(client),
{
}

} // verus!
