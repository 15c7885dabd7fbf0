//! The closed error taxonomy of the ledger core.
//!
//! Every mutator failure is local and non-fatal: the caller reports it and
//! goes on with the next record. Each variant carries the client id and,
//! where one is relevant, the transaction id, so that callers can branch on
//! the error kind.

use crate::transaction::TransactionType;
use vstd::prelude::*;

verus! {

/// The dispute-closing operation during which a held-funds shortfall was
/// detected.
#[derive(Clone, Copy, Debug, PartialEq, Eq, Structural)]
pub enum DisputeAction {
    Resolve,
    Chargeback,
}

/// Why a transaction record was rejected.
#[allow(inconsistent_fields)]
#[derive(Clone, Copy, Debug, PartialEq, Eq, Structural)]
pub enum ClientTransactionError {
    /// The account is locked; no mutation succeeds on it.
    AccountLocked { client_id: u16 },
    /// A chargeback was attempted on an account that a previous chargeback
    /// already locked. The same precondition as `AccountLocked`, kept as a
    /// distinct kind for diagnostic clarity.
    AccountAlreadyLocked { client_id: u16 },
    /// The transaction id of the record is negative or too large for the
    /// ledger's unsigned transaction-id type.
    InvalidTransactionId { client_id: u16, tx: i64 },
    /// A withdrawal asked for more than the available balance.
    InsufficientAvailableFunds { client_id: u16 },
    /// A deposit or withdrawal record arrived without an amount.
    MissingAmount { client_id: u16, tx_type: TransactionType, tx: u32 },
    /// A deposit or withdrawal record carried a non-positive amount.
    /// The amount is in fixed-point units of 1/10000.
    InvalidAmount { client_id: u16, tx: u32, amount: i64 },
    /// A resolve or chargeback found less held than the disputed amount.
    /// Defensive: this cannot arise under correct bookkeeping.
    InsufficientHeldFunds { client_id: u16, action: DisputeAction },
    /// A dispute named a transaction id that was never deposited.
    UnknownTransaction { client_id: u16, tx_id: u32 },
    /// A dispute named a transaction id that is already under dispute.
    AlreadyInDispute { client_id: u16, tx_id: u32 },
    /// A resolve or chargeback named a transaction id with no live dispute.
    NotInDispute { client_id: u16, tx_id: u32 },
    /// The exact result of the operation does not fit the fixed-point
    /// representation (signed 64-bit units of 1/10000). The account is left
    /// unchanged.
    AmountOverflow { client_id: u16 },
}

} // verus!
