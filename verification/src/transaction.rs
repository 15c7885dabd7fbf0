//! The kinds of transaction record that the ledger understands.

use vstd::prelude::*;

verus! {

/// The five kinds of record that can appear in an input stream.
#[derive(Clone, Copy, Debug, PartialEq, Eq, Structural)]
pub enum TransactionType {
    Deposit,
    Withdrawal,
    Dispute,
    Resolve,
    Chargeback,
}

impl TransactionType {
    /// The lower-case name of the transaction kind, as it appears in input
    /// and in diagnostics.
    pub fn as_str(&self) -> (r: &'static str)
        ensures
            r@ == self.spec_name(),
    {
        match self {
            TransactionType::Deposit => "deposit",
            TransactionType::Withdrawal => "withdrawal",
            TransactionType::Dispute => "dispute",
            TransactionType::Resolve => "resolve",
            TransactionType::Chargeback => "chargeback",
        }
    }

    /// The name of the transaction kind, as a sequence of characters.
    pub open spec fn spec_name(self) -> Seq<char> {
        match self {
            TransactionType::Deposit => "deposit"@,
            TransactionType::Withdrawal => "withdrawal"@,
            TransactionType::Dispute => "dispute"@,
            TransactionType::Resolve => "resolve"@,
            TransactionType::Chargeback => "chargeback"@,
        }
    }
}

} // verus!
