//! One client's account: balances, transaction history, and the five
//! mutators of the dispute lifecycle.
//!
//! Monetary amounts are exact fixed-point decimals: a signed 64-bit integer
//! counts units of 1/10000. The mathematical model of an account is
//! [`AccountView`]; every mutator is specified as a pure transition function
//! on that model.

use crate::errors::{ClientTransactionError, DisputeAction};
use std::collections::HashMap;
use vstd::prelude::*;

verus! {

broadcast use vstd::std_specs::hash::group_hash_axioms;

/// Does `v` fit the fixed-point representation (a signed 64-bit count of
/// units of 1/10000)?
pub open spec fn fits_i64(v: int) -> bool {
    i64::MIN <= v <= i64::MAX
}

/// The mathematical state of one account.
///
/// `deposits` is the movement ledger: every deposit ever accepted, by
/// transaction id; it is never pruned, so that disputes can refer back to
/// it. `disputes` holds the live disputes: the disputed amount, a copy of
/// the deposit amount taken at dispute time.
#[verifier::ext_equal]
pub struct AccountView {
    pub id: u16,
    pub available: i64,
    pub held: i64,
    pub total: i64,
    pub locked: bool,
    pub deposits: Map<u32, i64>,
    pub disputes: Map<u32, i64>,
}

impl AccountView {
    /// The state of a freshly created account.
    pub open spec fn initial(id: u16) -> AccountView {
        AccountView {
            id,
            available: 0,
            held: 0,
            total: 0,
            locked: false,
            deposits: Map::empty(),
            disputes: Map::empty(),
        }
    }

    /// The balance invariant: the total is exactly the available funds plus
    /// the held funds.
    pub open spec fn balanced(self) -> bool {
        self.total == self.available + self.held
    }

    /// Account well-formedness: the balance invariant holds, held funds are
    /// never negative, and every recorded amount is positive.
    pub open spec fn wf(self) -> bool {
        &&& self.balanced()
        &&& self.held >= 0
        &&& forall|t: u32| #[trigger] self.deposits.contains_key(t) ==> self.deposits[t] > 0
        &&& forall|t: u32| #[trigger] self.disputes.contains_key(t) ==> self.disputes[t] > 0
    }

    /// The consumer-facing fields of the account.
    pub open spec fn summary(self) -> AccountSummary {
        AccountSummary {
            id: self.id,
            available: self.available,
            held: self.held,
            total: self.total,
            locked: self.locked,
        }
    }
}

/// One row of the final report: the consumer-facing state of one account.
/// Monetary fields are in fixed-point units of 1/10000.
#[derive(Clone, Copy, Debug, PartialEq, Eq, Structural)]
pub struct AccountSummary {
    pub id: u16,
    pub available: i64,
    pub held: i64,
    pub total: i64,
    pub locked: bool,
}

/// One operation on an account, for stating laws that range over all five
/// mutators at once.
pub enum AccountOp {
    Deposit { tx_id: u32, amount: i64 },
    Withdraw { amount: i64 },
    Dispute { tx_id: u32 },
    Resolve { tx_id: u32 },
    Chargeback { tx_id: u32 },
}

/// Credit `amount` to the account and record the deposit under `tx_id`.
///
/// Fails on a locked account, or when a new balance would not fit the
/// fixed-point representation. A repeated `tx_id` is not rejected here: it
/// double-credits, and its recorded amount is overwritten; deduplication is
/// the ingestion layer's concern.
pub open spec fn deposit_tr(a: AccountView, tx_id: u32, amount: i64) -> (AccountView, Result<
    (),
    ClientTransactionError,
>) {
    if a.locked {
        (a, Err(ClientTransactionError::AccountLocked { client_id: a.id }))
    } else if !fits_i64(a.available + amount) || !fits_i64(a.total + amount) {
        (a, Err(ClientTransactionError::AmountOverflow { client_id: a.id }))
    } else {
        (
            AccountView {
                available: (a.available + amount) as i64,
                total: (a.total + amount) as i64,
                deposits: a.deposits.insert(tx_id, amount),
                ..a
            },
            Ok(()),
        )
    }
}

/// Debit `amount` from the available funds.
///
/// Fails on a locked account, when fewer than `amount` funds are available,
/// or when a new balance would not fit the fixed-point representation.
pub open spec fn withdraw_tr(a: AccountView, amount: i64) -> (AccountView, Result<
    (),
    ClientTransactionError,
>) {
    if a.locked {
        (a, Err(ClientTransactionError::AccountLocked { client_id: a.id }))
    } else if a.available < amount {
        (a, Err(ClientTransactionError::InsufficientAvailableFunds { client_id: a.id }))
    } else if !fits_i64(a.available - amount) || !fits_i64(a.total - amount) {
        (a, Err(ClientTransactionError::AmountOverflow { client_id: a.id }))
    } else {
        (
            AccountView {
                available: (a.available - amount) as i64,
                total: (a.total - amount) as i64,
                ..a
            },
            Ok(()),
        )
    }
}

/// Open a dispute against the deposit recorded under `tx_id`: move its
/// amount from available to held.
///
/// Fails on a locked account, when `tx_id` is already under dispute, when
/// no deposit was recorded under `tx_id`, or when a new balance would not
/// fit the fixed-point representation. The available balance is permitted
/// to go negative here: the total is unaffected, funds only change columns.
pub open spec fn dispute_tr(a: AccountView, tx_id: u32) -> (AccountView, Result<
    (),
    ClientTransactionError,
>) {
    if a.locked {
        (a, Err(ClientTransactionError::AccountLocked { client_id: a.id }))
    } else if a.disputes.contains_key(tx_id) {
        (a, Err(ClientTransactionError::AlreadyInDispute { client_id: a.id, tx_id }))
    } else if !a.deposits.contains_key(tx_id) {
        (a, Err(ClientTransactionError::UnknownTransaction { client_id: a.id, tx_id }))
    } else {
        let amount = a.deposits[tx_id];
        if !fits_i64(a.available - amount) || !fits_i64(a.held + amount) {
            (a, Err(ClientTransactionError::AmountOverflow { client_id: a.id }))
        } else {
            (
                AccountView {
                    available: (a.available - amount) as i64,
                    held: (a.held + amount) as i64,
                    disputes: a.disputes.insert(tx_id, amount),
                    ..a
                },
                Ok(()),
            )
        }
    }
}

/// Close the dispute on `tx_id` in the client's favour: release the
/// disputed amount from held back to available.
///
/// Fails on a locked account, when `tx_id` has no live dispute, when the
/// held funds fall short of the disputed amount (defensive; impossible
/// under correct bookkeeping), or when a new balance would not fit the
/// fixed-point representation.
pub open spec fn resolve_tr(a: AccountView, tx_id: u32) -> (AccountView, Result<
    (),
    ClientTransactionError,
>) {
    if a.locked {
        (a, Err(ClientTransactionError::AccountLocked { client_id: a.id }))
    } else if !a.disputes.contains_key(tx_id) {
        (a, Err(ClientTransactionError::NotInDispute { client_id: a.id, tx_id }))
    } else {
        let amount = a.disputes[tx_id];
        if a.held < amount {
            (
                a,
                Err(
                    ClientTransactionError::InsufficientHeldFunds {
                        client_id: a.id,
                        action: DisputeAction::Resolve,
                    },
                ),
            )
        } else if !fits_i64(a.held - amount) || !fits_i64(a.available + amount) {
            (a, Err(ClientTransactionError::AmountOverflow { client_id: a.id }))
        } else {
            (
                AccountView {
                    available: (a.available + amount) as i64,
                    held: (a.held - amount) as i64,
                    disputes: a.disputes.remove(tx_id),
                    ..a
                },
                Ok(()),
            )
        }
    }
}

/// Close the dispute on `tx_id` against the client: the disputed amount
/// leaves the account for good, and the account is locked, irreversibly.
///
/// Fails on an already locked account, when `tx_id` has no live dispute,
/// when the held funds fall short of the disputed amount (defensive), or
/// when a new balance would not fit the fixed-point representation.
pub open spec fn chargeback_tr(a: AccountView, tx_id: u32) -> (AccountView, Result<
    (),
    ClientTransactionError,
>) {
    if a.locked {
        (a, Err(ClientTransactionError::AccountAlreadyLocked { client_id: a.id }))
    } else if !a.disputes.contains_key(tx_id) {
        (a, Err(ClientTransactionError::NotInDispute { client_id: a.id, tx_id }))
    } else {
        let amount = a.disputes[tx_id];
        if a.held < amount {
            (
                a,
                Err(
                    ClientTransactionError::InsufficientHeldFunds {
                        client_id: a.id,
                        action: DisputeAction::Chargeback,
                    },
                ),
            )
        } else if !fits_i64(a.held - amount) || !fits_i64(a.total - amount) {
            (a, Err(ClientTransactionError::AmountOverflow { client_id: a.id }))
        } else {
            (
                AccountView {
                    held: (a.held - amount) as i64,
                    total: (a.total - amount) as i64,
                    locked: true,
                    disputes: a.disputes.remove(tx_id),
                    ..a
                },
                Ok(()),
            )
        }
    }
}

/// The transition of one operation, for stating laws over all mutators.
pub open spec fn step(a: AccountView, op: AccountOp) -> (AccountView, Result<
    (),
    ClientTransactionError,
>) {
    match op {
        AccountOp::Deposit { tx_id, amount } => deposit_tr(a, tx_id, amount),
        AccountOp::Withdraw { amount } => withdraw_tr(a, amount),
        AccountOp::Dispute { tx_id } => dispute_tr(a, tx_id),
        AccountOp::Resolve { tx_id } => resolve_tr(a, tx_id),
        AccountOp::Chargeback { tx_id } => chargeback_tr(a, tx_id),
    }
}

/// One client's account. The scalar fields are directly readable; the two
/// transaction maps are reflected in the account's view.
pub struct Client {
    pub id: u16,
    pub available: i64,
    pub held: i64,
    pub total: i64,
    pub locked: bool,
    deposit_transactions: HashMap<u32, i64>,
    disputed_transactions: HashMap<u32, i64>,
}

impl View for Client {
    type V = AccountView;

    closed spec fn view(&self) -> AccountView {
        AccountView {
            id: self.id,
            available: self.available,
            held: self.held,
            total: self.total,
            locked: self.locked,
            deposits: self.deposit_transactions@,
            disputes: self.disputed_transactions@,
        }
    }
}

impl Client {
    /// A fresh account: zero balances, unlocked, no history.
    pub fn new(id: u16) -> (r: Client)
        ensures
            r@ == AccountView::initial(id),
    {
        let r = Client {
            id,
            available: 0,
            held: 0,
            total: 0,
            locked: false,
            deposit_transactions: HashMap::new(),
            disputed_transactions: HashMap::new(),
        };
        proof {
            assert(r@ =~= AccountView::initial(id));
        }
        r
    }

    /// Credit `amount` and record the deposit under `tx_id`.
    /// Behaves as [`deposit_tr`] on the account's view.
    pub fn deposit(&mut self, tx_id: u32, amount: i64) -> (r: Result<(), ClientTransactionError>)
        requires
            amount > 0,
        ensures
            final(self)@ == deposit_tr(old(self)@, tx_id, amount).0,
            r == deposit_tr(old(self)@, tx_id, amount).1,
    {
        if self.locked {
            return Err(ClientTransactionError::AccountLocked { client_id: self.id });
        }
        match (self.available.checked_add(amount), self.total.checked_add(amount)) {
            (Some(na), Some(nt)) => {
                self.available = na;
                self.total = nt;
                self.deposit_transactions.insert(tx_id, amount);
                proof {
                    assert(final(self)@ =~= deposit_tr(old(self)@, tx_id, amount).0);
                }
                Ok(())
            },
            _ => Err(ClientTransactionError::AmountOverflow { client_id: self.id }),
        }
    }

    /// Debit `amount` from the available funds.
    /// Behaves as [`withdraw_tr`] on the account's view.
    pub fn withdraw(&mut self, amount: i64) -> (r: Result<(), ClientTransactionError>)
        requires
            amount > 0,
        ensures
            final(self)@ == withdraw_tr(old(self)@, amount).0,
            r == withdraw_tr(old(self)@, amount).1,
    {
        if self.locked {
            return Err(ClientTransactionError::AccountLocked { client_id: self.id });
        }
        if self.available < amount {
            return Err(ClientTransactionError::InsufficientAvailableFunds { client_id: self.id });
        }
        match (self.available.checked_sub(amount), self.total.checked_sub(amount)) {
            (Some(na), Some(nt)) => {
                self.available = na;
                self.total = nt;
                proof {
                    assert(final(self)@ =~= withdraw_tr(old(self)@, amount).0);
                }
                Ok(())
            },
            _ => Err(ClientTransactionError::AmountOverflow { client_id: self.id }),
        }
    }

    /// Open a dispute against the deposit recorded under `tx_id`.
    /// Behaves as [`dispute_tr`] on the account's view.
    pub fn dispute(&mut self, tx_id: u32) -> (r: Result<(), ClientTransactionError>)
        ensures
            final(self)@ == dispute_tr(old(self)@, tx_id).0,
            r == dispute_tr(old(self)@, tx_id).1,
    {
        if self.locked {
            return Err(ClientTransactionError::AccountLocked { client_id: self.id });
        }
        if self.disputed_transactions.contains_key(&tx_id) {
            return Err(ClientTransactionError::AlreadyInDispute { client_id: self.id, tx_id });
        }
        let amount = match self.deposit_transactions.get(&tx_id) {
            Some(amount) => *amount,
            None => {
                return Err(ClientTransactionError::UnknownTransaction { client_id: self.id, tx_id });
            },
        };
        match (self.available.checked_sub(amount), self.held.checked_add(amount)) {
            (Some(na), Some(nh)) => {
                self.available = na;
                self.held = nh;
                self.disputed_transactions.insert(tx_id, amount);
                proof {
                    assert(final(self)@ =~= dispute_tr(old(self)@, tx_id).0);
                }
                Ok(())
            },
            _ => Err(ClientTransactionError::AmountOverflow { client_id: self.id }),
        }
    }

    /// Close the dispute on `tx_id` in the client's favour.
    /// Behaves as [`resolve_tr`] on the account's view.
    pub fn resolve(&mut self, tx_id: u32) -> (r: Result<(), ClientTransactionError>)
        ensures
            final(self)@ == resolve_tr(old(self)@, tx_id).0,
            r == resolve_tr(old(self)@, tx_id).1,
    {
        if self.locked {
            return Err(ClientTransactionError::AccountLocked { client_id: self.id });
        }
        let amount = match self.disputed_transactions.get(&tx_id) {
            Some(amount) => *amount,
            None => {
                return Err(ClientTransactionError::NotInDispute { client_id: self.id, tx_id });
            },
        };
        if self.held < amount {
            return Err(
                ClientTransactionError::InsufficientHeldFunds {
                    client_id: self.id,
                    action: DisputeAction::Resolve,
                },
            );
        }
        match (self.held.checked_sub(amount), self.available.checked_add(amount)) {
            (Some(nh), Some(na)) => {
                self.held = nh;
                self.available = na;
                self.disputed_transactions.remove(&tx_id);
                proof {
                    assert(final(self)@ =~= resolve_tr(old(self)@, tx_id).0);
                }
                Ok(())
            },
            _ => Err(ClientTransactionError::AmountOverflow { client_id: self.id }),
        }
    }

    /// Close the dispute on `tx_id` against the client and lock the account.
    /// Behaves as [`chargeback_tr`] on the account's view.
    pub fn chargeback(&mut self, tx_id: u32) -> (r: Result<(), ClientTransactionError>)
        ensures
            final(self)@ == chargeback_tr(old(self)@, tx_id).0,
            r == chargeback_tr(old(self)@, tx_id).1,
    {
        if self.locked {
            return Err(ClientTransactionError::AccountAlreadyLocked { client_id: self.id });
        }
        let amount = match self.disputed_transactions.get(&tx_id) {
            Some(amount) => *amount,
            None => {
                return Err(ClientTransactionError::NotInDispute { client_id: self.id, tx_id });
            },
        };
        if self.held < amount {
            return Err(
                ClientTransactionError::InsufficientHeldFunds {
                    client_id: self.id,
                    action: DisputeAction::Chargeback,
                },
            );
        }
        match (self.held.checked_sub(amount), self.total.checked_sub(amount)) {
            (Some(nh), Some(nt)) => {
                self.held = nh;
                self.total = nt;
                self.locked = true;
                self.disputed_transactions.remove(&tx_id);
                proof {
                    assert(final(self)@ =~= chargeback_tr(old(self)@, tx_id).0);
                }
                Ok(())
            },
            _ => Err(ClientTransactionError::AmountOverflow { client_id: self.id }),
        }
    }

    /// The identifier of this account.
    pub fn client_id(&self) -> (r: u16)
        ensures
            r == self@.id,
    {
        self.id
    }

    /// Whether a deposit was ever recorded under `tx_id`.
    pub fn has_deposit(&self, tx_id: u32) -> (r: bool)
        ensures
            r == self@.deposits.contains_key(tx_id),
    {
        self.deposit_transactions.contains_key(&tx_id)
    }

    /// Whether `tx_id` is currently under dispute.
    pub fn has_dispute(&self, tx_id: u32) -> (r: bool)
        ensures
            r == self@.disputes.contains_key(tx_id),
    {
        self.disputed_transactions.contains_key(&tx_id)
    }

    /// Whether no deposit was ever recorded.
    pub fn deposits_is_empty(&self) -> (r: bool)
        ensures
            r == (self@.deposits.len() == 0),
    {
        self.deposit_transactions.is_empty()
    }

    /// Whether no dispute is currently live.
    pub fn disputes_is_empty(&self) -> (r: bool)
        ensures
            r == (self@.disputes.len() == 0),
    {
        self.disputed_transactions.is_empty()
    }

    /// The consumer-facing fields of this account.
    pub fn summary(&self) -> (s: AccountSummary)
        ensures
            s == self@.summary(),
    {
        AccountSummary {
            id: self.id,
            available: self.available,
            held: self.held,
            total: self.total,
            locked: self.locked,
        }
    }
}

/// Law: every operation preserves the balance invariant: the total is
/// exactly the available funds plus the held funds, with no drift.
pub proof fn lemma_step_preserves_balance(a: AccountView, op: AccountOp)
    requires
        a.balanced(),
    ensures
        step(a, op).0.balanced(),
{
}

/// Law: every operation preserves account well-formedness, provided a
/// deposited or withdrawn amount is positive, as the ingestion layer
/// guarantees.
pub proof fn lemma_step_preserves_wf(a: AccountView, op: AccountOp)
    requires
        a.wf(),
        match op {
            AccountOp::Deposit { amount, .. } => amount > 0,
            AccountOp::Withdraw { amount } => amount > 0,
            _ => true,
        },
    ensures
        step(a, op).0.wf(),
{
}

/// Law: once an account is locked, every operation fails and leaves every
/// field of the account, balances and history alike, unchanged.
pub proof fn lemma_locked_is_frozen(a: AccountView, op: AccountOp)
    requires
        a.locked,
    ensures
        step(a, op).0 == a,
        step(a, op).1 is Err,
{
}

/// Law: the only operation that locks an account is a chargeback.
pub proof fn lemma_only_chargeback_locks(a: AccountView, op: AccountOp)
    requires
        !a.locked,
        step(a, op).0.locked,
    ensures
        op is Chargeback,
{
}

/// Law: a dispute closed by a resolve leaves the account exactly as it was
/// before the dispute was opened: the two moves between the columns cancel,
/// and the dispute entry is gone.
pub proof fn lemma_dispute_then_resolve_restores(a: AccountView, tx_id: u32)
    requires
        a.wf(),
        dispute_tr(a, tx_id).1 is Ok,
    ensures
        resolve_tr(dispute_tr(a, tx_id).0, tx_id).1 is Ok,
        resolve_tr(dispute_tr(a, tx_id).0, tx_id).0 == a,
{
    let d = dispute_tr(a, tx_id).0;
    let r = resolve_tr(d, tx_id).0;
    assert(r =~= a);
}

/// Law: disputing the same transaction twice in a row fails the second
/// time: a successful dispute puts the transaction into the live dispute
/// set, so the repeat is rejected as already in dispute and changes
/// nothing.
pub proof fn lemma_dispute_twice_rejected(a: AccountView, tx_id: u32)
    requires
        dispute_tr(a, tx_id).1 is Ok,
    ensures
        dispute_tr(dispute_tr(a, tx_id).0, tx_id) == (
            dispute_tr(a, tx_id).0,
            Err::<(), ClientTransactionError>(
                ClientTransactionError::AlreadyInDispute { client_id: a.id, tx_id },
            ),
        ),
{
}

/// Law: resolving or charging back a transaction with no live dispute
/// fails as not in dispute and changes nothing.
pub proof fn lemma_close_requires_live_dispute(a: AccountView, tx_id: u32)
    requires
        !a.locked,
        !a.disputes.contains_key(tx_id),
    ensures
        resolve_tr(a, tx_id) == (
            a,
            Err::<(), ClientTransactionError>(
                ClientTransactionError::NotInDispute { client_id: a.id, tx_id },
            ),
        ),
        chargeback_tr(a, tx_id) == (
            a,
            Err::<(), ClientTransactionError>(
                ClientTransactionError::NotInDispute { client_id: a.id, tx_id },
            ),
        ),
{
}

} // verus!
