//! The events that the ledger consumes.

use vstd::prelude::*;
use crate::amount::Amount;

verus! {

/// What a transaction asks for.
#[derive(Debug, PartialEq, Eq, PartialOrd, Ord, Hash, Clone)]
pub enum TransactionType {
    Deposit,
    Withdrawal,
    Dispute,
    Resolve,
    Chargeback,
    /// A kind this ledger does not know, kept as it was written.
    Unknown(String),
}

impl TransactionType {
    /// The kind that a token names: the five known kinds by their lower-case
    /// names, and every other token as an unknown kind that keeps it.
    pub open spec fn of_token(token: String) -> TransactionType {
        if token@ == "deposit"@ {
            TransactionType::Deposit
        } else if token@ == "withdrawal"@ {
            TransactionType::Withdrawal
        } else if token@ == "dispute"@ {
            TransactionType::Dispute
        } else if token@ == "resolve"@ {
            TransactionType::Resolve
        } else if token@ == "chargeback"@ {
            TransactionType::Chargeback
        } else {
            TransactionType::Unknown(token)
        }
    }

    /// The name under which a kind is written.
    pub open spec fn name(self) -> Seq<char> {
        match self {
            TransactionType::Deposit => "deposit"@,
            TransactionType::Withdrawal => "withdrawal"@,
            TransactionType::Dispute => "dispute"@,
            TransactionType::Resolve => "resolve"@,
            TransactionType::Chargeback => "chargeback"@,
            TransactionType::Unknown(raw) => raw@,
        }
    }

    /// Reads a kind from its token. No token is refused.
    pub fn from_token(token: String) -> (r: TransactionType)
        ensures
            r == TransactionType::of_token(token),
    {
        if token == "deposit".to_owned() {
            TransactionType::Deposit
        } else if token == "withdrawal".to_owned() {
            TransactionType::Withdrawal
        } else if token == "dispute".to_owned() {
            TransactionType::Dispute
        } else if token == "resolve".to_owned() {
            TransactionType::Resolve
        } else if token == "chargeback".to_owned() {
            TransactionType::Chargeback
        } else {
            TransactionType::Unknown(token)
        }
    }

    /// Writes a kind as its token.
    pub fn token(&self) -> (r: String)
        ensures
            r@ == self.name(),
    {
        match self {
            TransactionType::Deposit => "deposit".to_owned(),
            TransactionType::Withdrawal => "withdrawal".to_owned(),
            TransactionType::Dispute => "dispute".to_owned(),
            TransactionType::Resolve => "resolve".to_owned(),
            TransactionType::Chargeback => "chargeback".to_owned(),
            TransactionType::Unknown(raw) => raw.clone(),
        }
    }
}

/// The mathematical content of a [`Transaction`]: its amount in ten-thousandths.
pub ghost struct TransactionView {
    pub kind: TransactionType,
    pub client: u16,
    pub tx: u32,
    pub amount: Option<int>,
}

/// One input event.
#[derive(Debug, Clone)]
pub struct Transaction {
    pub kind: TransactionType,
    pub client: u16,
    /// Identifier of this transaction, or of the one that a dispute, resolve
    /// or chargeback refers to.
    pub tx: u32,
    /// Present for deposits and withdrawals.
    pub amount: Option<Amount>,
}

impl View for Transaction {
    type V = TransactionView;

    open spec fn view(&self) -> TransactionView {
        TransactionView {
            kind: self.kind,
            client: self.client,
            tx: self.tx,
            amount: match self.amount {
                Some(a) => Some(a@),
                None => None,
            },
        }
    }
}

} // verus!
