//! Held funds never go negative where amounts are not negative and no
//! transaction id is used for two deposits or withdrawals.

use vstd::prelude::*;
use crate::ledger::Ledger;
use crate::transaction::{TransactionType, TransactionView};

verus! {

/// The sum of `f` over the numbers below `n`.
pub open spec fn total(f: spec_fn(nat) -> int, n: nat) -> int
    decreases n,
{
    if n == 0 {
        0
    } else {
        total(f, (n - 1) as nat) + f((n - 1) as nat)
    }
}

proof fn lemma_total_non_negative(f: spec_fn(nat) -> int, n: nat)
    requires
        forall|j: nat| #[trigger] f(j) >= 0,
    ensures
        total(f, n) >= 0,
    decreases n,
{
    if n > 0 {
        lemma_total_non_negative(f, (n - 1) as nat);
    }
}

proof fn lemma_total_of_nothing(f: spec_fn(nat) -> int, n: nat)
    requires
        forall|j: nat| #[trigger] f(j) == 0,
    ensures
        total(f, n) == 0,
    decreases n,
{
    if n > 0 {
        lemma_total_of_nothing(f, (n - 1) as nat);
    }
}

proof fn lemma_total_differs_at(f: spec_fn(nat) -> int, g: spec_fn(nat) -> int, k: nat, n: nat)
    requires
        forall|j: nat| j != k ==> #[trigger] f(j) == g(j),
    ensures
        total(g, n) == total(f, n) + if k < n {
            g(k) - f(k)
        } else {
            0
        },
    decreases n,
{
    if n > 0 {
        lemma_total_differs_at(f, g, k, (n - 1) as nat);
    }
}

/// One more than the largest transaction id.
pub open spec fn id_count() -> nat {
    0x1_0000_0000
}

impl Ledger {
    /// What the stored transaction `id` adds to the funds that must be held
    /// for `client`: its amount while it is that client's, disputed and not
    /// resolved, and nothing otherwise.
    pub open spec fn open_hold(self, client: u16, id: nat) -> int {
        if id < id_count() && self.history.contains_key(id as u32) && self.history[id as u32].client
            == client && self.disputed.contains(id as u32) && !self.resolved.contains(id as u32) {
            match self.history[id as u32].amount {
                Some(x) => x,
                None => 0,
            }
        } else {
            0
        }
    }

    /// The amounts of all transactions of `client` with an open dispute.
    pub open spec fn open_holds(self, client: u16) -> int {
        total(|id: nat| self.open_hold(client, id), id_count())
    }

    /// Whether `t` carries no negative amount and, as a deposit or withdrawal,
    /// an id that no stored transaction has.
    pub open spec fn admits(self, t: TransactionView) -> bool {
        &&& t.amount matches Some(x) ==> x >= 0
        &&& t.kind == TransactionType::Deposit || t.kind == TransactionType::Withdrawal
            ==> !self.history.contains_key(t.tx)
    }

    /// Whether each transaction of `ts`, replayed in order, is admitted by the
    /// ledger that it meets.
    pub open spec fn admits_all(self, ts: Seq<TransactionView>) -> bool
        decreases ts.len(),
    {
        if ts.len() == 0 {
            true
        } else {
            self.admits_all(ts.drop_last()) && self.replay(ts.drop_last()).admits(ts.last())
        }
    }

    /// No stored amount is negative, only stored transactions are disputed,
    /// and every account that is not locked holds at least the amounts of its
    /// open disputes; a locked one holds nothing negative.
    pub open spec fn holds_cover_disputes(self) -> bool {
        &&& forall|id: u32| #[trigger]
            self.history.contains_key(id) ==> (self.history[id].amount matches Some(x) ==> x >= 0)
        &&& forall|id: u32| #[trigger] self.disputed.contains(id) ==> self.history.contains_key(id)
        &&& forall|client: u16| #[trigger]
            self.account(client).held >= if self.account(client).locked {
                0
            } else {
                self.open_holds(client)
            }
    }
}

/// A ledger whose holds cover its disputes has no negative held funds.
pub proof fn lemma_covered_holds_are_non_negative(l: Ledger, client: u16)
    requires
        l.holds_cover_disputes(),
    ensures
        l.account(client).held >= 0,
{
    let f = |id: nat| l.open_hold(client, id);
    assert forall|j: nat| #[trigger] f(j) >= 0 by {
        if j < id_count() {
            assert(l.history.contains_key(j as u32) ==> (l.history[j as u32].amount matches Some(
                x,
            ) ==> x >= 0));
        }
    }
    lemma_total_non_negative(f, id_count());
}

/// A transaction that the ledger admits keeps the holds covering the disputes.
pub proof fn lemma_record_keeps_holds_covered(l: Ledger, t: TransactionView)
    requires
        l.holds_cover_disputes(),
        l.admits(t),
    ensures
        l.record(t).holds_cover_disputes(),
{
    let after = l.record(t);
    assert forall|id: u32| #[trigger] after.history.contains_key(id) implies (
    after.history[id].amount matches Some(x) ==> x >= 0) by {
        if id != t.tx {
            assert(l.history.contains_key(id));
        }
    }
    assert forall|id: u32| #[trigger] after.disputed.contains(id) implies after.history.contains_key(
        id,
    ) by {
        if l.disputed.contains(id) {
            assert(l.history.contains_key(id));
        }
    }
    assert forall|client: u16| #[trigger]
        after.account(client).held >= if after.account(client).locked {
            0
        } else {
            after.open_holds(client)
        } by {
        let f = |id: nat| l.open_hold(client, id);
        let g = |id: nat| after.open_hold(client, id);
        let k = t.tx as nat;
        assert forall|j: nat| j != k implies #[trigger] f(j) == g(j) by {}
        lemma_total_differs_at(f, g, k, id_count());
        assert forall|j: nat| #[trigger] g(j) >= 0 by {
            if j < id_count() {
                assert(after.history.contains_key(j as u32) ==> (
                after.history[j as u32].amount matches Some(x) ==> x >= 0));
            }
        }
        lemma_total_non_negative(g, id_count());
        assert forall|j: nat| #[trigger] f(j) >= 0 by {
            if j < id_count() {
                assert(l.history.contains_key(j as u32) ==> (
                l.history[j as u32].amount matches Some(x) ==> x >= 0));
            }
        }
        lemma_total_non_negative(f, id_count());
        let a = l.account(client);
        let b = after.account(client);
        if client != t.client {
            assert(g(k) == f(k));
        } else {
            match l.effect(t) {
                None => {
                    assert(g(k) == f(k));
                },
                Some(m) => {
                    assert(b == m.apply(a));
                    match t.kind {
                        TransactionType::Deposit | TransactionType::Withdrawal => {
                            assert(f(k) == 0);
                            assert(g(k) == 0);
                            assert(b.held == a.held);
                        },
                        TransactionType::Dispute => {
                            let x = l.referenced(t).unwrap();
                            assert(x >= 0);
                            assert(b.held == a.held + x);
                            assert(g(k) - f(k) <= x);
                        },
                        TransactionType::Resolve => {
                            let x = l.referenced(t).unwrap();
                            assert(f(k) == x);
                            assert(g(k) == 0);
                            assert(b.held == a.held - x);
                        },
                        TransactionType::Chargeback => {
                            let x = l.referenced(t).unwrap();
                            assert(b.locked);
                            assert(f(k) <= total(f, id_count())) by {
                                let z = |id: nat| if id == k { 0 } else { f(id) };
                                lemma_total_differs_at(z, f, k, id_count());
                                assert forall|j: nat| #[trigger] z(j) >= 0 by {}
                                lemma_total_non_negative(z, id_count());
                            }
                            if l.resolved.contains(t.tx) {
                                assert(b.held == a.held);
                            } else {
                                assert(f(k) == x);
                                assert(b.held == a.held - x);
                            }
                        },
                        TransactionType::Unknown(_) => {},
                    }
                },
            }
        }
    }
}

/// Replaying transactions that the ledger admits, each in its turn, keeps the
/// holds covering the disputes.
pub proof fn lemma_replay_keeps_holds_covered(l: Ledger, ts: Seq<TransactionView>)
    requires
        l.holds_cover_disputes(),
        l.admits_all(ts),
    ensures
        l.replay(ts).holds_cover_disputes(),
    decreases ts.len(),
{
    if ts.len() > 0 {
        lemma_replay_keeps_holds_covered(l, ts.drop_last());
        lemma_record_keeps_holds_covered(l.replay(ts.drop_last()), ts.last());
    }
}

/// On a new ledger, any history without negative amounts in which no id is
/// used for two deposits or withdrawals leaves no account with negative held
/// funds.
pub proof fn lemma_held_never_negative(ts: Seq<TransactionView>, client: u16)
    requires
        Ledger::empty().admits_all(ts),
    ensures
        Ledger::empty().replay(ts).account(client).held >= 0,
{
    let l = Ledger::empty();
    assert forall|c: u16| #[trigger] l.account(c).held >= l.open_holds(c) by {
        lemma_total_of_nothing(|id: nat| l.open_hold(c, id), id_count());
    }
    lemma_replay_keeps_holds_covered(l, ts);
    lemma_covered_holds_are_non_negative(l.replay(ts), client);
}

} // verus!
