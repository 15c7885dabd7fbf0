//! The ledger: the collection of accounts, record validation, routing, and
//! the final snapshot.
//!
//! The ledger owns one [`Client`] per client id, held sorted by ascending
//! id. Its mathematical model is a map from client id to [`AccountView`];
//! [`spec_apply`] says exactly what one record does to that map.

use crate::client::{
    chargeback_tr, deposit_tr, dispute_tr, lemma_step_preserves_wf, resolve_tr, withdraw_tr,
    AccountOp, AccountSummary, AccountView, Client,
};
use crate::errors::ClientTransactionError;
use crate::transaction::TransactionType;
use crate::utils::InputTransaction;
use vstd::prelude::*;

verus! {

/// The outcome of validating one raw record: its transaction id fits the
/// unsigned id type, and it carries an amount exactly when its kind calls
/// for one.
#[derive(Clone, Copy, Debug)]
pub enum ValidatedTransaction {
    WithAmount { tx: u32, amount: i64 },
    NoAmount { tx: u32 },
}

/// What validation returns for each raw record: deposits and withdrawals
/// must carry a positive amount; every record needs a transaction id that
/// fits the unsigned id type.
pub open spec fn spec_validate(
    tx_type: TransactionType,
    client_id: u16,
    tx: i64,
    amount: Option<i64>,
) -> Result<ValidatedTransaction, ClientTransactionError> {
    if tx < 0 || tx > u32::MAX {
        Err(ClientTransactionError::InvalidTransactionId { client_id, tx })
    } else {
        match tx_type {
            TransactionType::Deposit | TransactionType::Withdrawal => match amount {
                Some(value) => if value > 0 {
                    Ok(ValidatedTransaction::WithAmount { tx: tx as u32, amount: value })
                } else {
                    Err(
                        ClientTransactionError::InvalidAmount {
                            client_id,
                            tx: tx as u32,
                            amount: value,
                        },
                    )
                },
                None => Err(
                    ClientTransactionError::MissingAmount { client_id, tx_type, tx: tx as u32 },
                ),
            },
            _ => Ok(ValidatedTransaction::NoAmount { tx: tx as u32 }),
        }
    }
}

/// Validates one raw record, before it reaches any account: rejects a
/// transaction id that is negative or too large for the unsigned id type,
/// and, for deposits and withdrawals, a missing or non-positive amount.
pub fn validate_transaction(
    tx_type: TransactionType,
    client_id: u16,
    tx: i64,
    amount: Option<i64>,
) -> (r: Result<ValidatedTransaction, ClientTransactionError>)
    ensures
        r == spec_validate(tx_type, client_id, tx, amount),
{
    if tx < 0 || tx > u32::MAX as i64 {
        return Err(ClientTransactionError::InvalidTransactionId { client_id, tx });
    }
    let tx_u32 = tx as u32;
    match tx_type {
        TransactionType::Deposit | TransactionType::Withdrawal => match amount {
            Some(value) => if value > 0 {
                Ok(ValidatedTransaction::WithAmount { tx: tx_u32, amount: value })
            } else {
                Err(ClientTransactionError::InvalidAmount { client_id, tx: tx_u32, amount: value })
            },
            None => Err(
                ClientTransactionError::MissingAmount { client_id, tx_type, tx: tx_u32 },
            ),
        },
        _ => Ok(ValidatedTransaction::NoAmount { tx: tx_u32 }),
    }
}

/// Whether some account in `s` has the id `id`.
pub open spec fn has_id(s: Seq<AccountView>, id: u16) -> bool {
    exists|i: int| 0 <= i < s.len() && s[i].id == id
}

/// The position in `s` of the account with id `id`.
pub open spec fn id_index(s: Seq<AccountView>, id: u16) -> int {
    choose|i: int| 0 <= i < s.len() && s[i].id == id
}

/// The accounts of `s` as a map from client id to account state.
pub open spec fn map_of(s: Seq<AccountView>) -> Map<u16, AccountView> {
    Map::new(|id: u16| has_id(s, id), |id: u16| s[id_index(s, id)])
}

/// Whether the account ids of `s` are strictly ascending.
pub open spec fn ids_sorted(s: Seq<AccountView>) -> bool {
    forall|i: int, j: int| 0 <= i < j < s.len() ==> s[i].id < s[j].id
}

/// Under strictly ascending ids, an id determines its position.
proof fn lemma_sorted_ids_unique(s: Seq<AccountView>, i: int, j: int)
    requires
        ids_sorted(s),
        0 <= i < s.len(),
        0 <= j < s.len(),
        s[i].id == s[j].id,
    ensures
        i == j,
{
    if i < j {
        assert(s[i].id < s[j].id);
    }
    if j < i {
        assert(s[j].id < s[i].id);
    }
}

/// Under strictly ascending ids, the account at position `i` is the one the
/// map holds under its id.
proof fn lemma_map_of_at(s: Seq<AccountView>, i: int)
    requires
        ids_sorted(s),
        0 <= i < s.len(),
    ensures
        has_id(s, s[i].id),
        map_of(s)[s[i].id] == s[i],
{
    assert(has_id(s, s[i].id));
    lemma_sorted_ids_unique(s, i, id_index(s, s[i].id));
}

/// Inserting an account whose id splits `s` at position `i` keeps the ids
/// sorted and inserts it into the map of `s`.
proof fn lemma_map_of_insert(s: Seq<AccountView>, i: int, a: AccountView)
    requires
        ids_sorted(s),
        0 <= i <= s.len(),
        forall|k: int| 0 <= k < i ==> s[k].id < a.id,
        forall|k: int| i <= k < s.len() ==> a.id < s[k].id,
    ensures
        ids_sorted(s.insert(i, a)),
        map_of(s.insert(i, a)) == map_of(s).insert(a.id, a),
{
    let s2 = s.insert(i, a);
    assert forall|p: int, q: int| 0 <= p < q < s2.len() implies s2[p].id < s2[q].id by {
        if p < i && q > i {
            assert(s2[p] == s[p]);
            assert(s2[q] == s[q - 1]);
        }
    }
    assert(ids_sorted(s2));
    let m1 = map_of(s).insert(a.id, a);
    let m2 = map_of(s2);
    assert forall|id: u16| m1.contains_key(id) implies m2.contains_key(id) by {
        if id == a.id {
            assert(s2[i].id == id);
            assert(has_id(s2, id));
        } else {
            let k = id_index(s, id);
            if k < i {
                assert(s2[k].id == id);
            } else {
                assert(s2[k + 1].id == id);
            }
            assert(has_id(s2, id));
        }
    }
    assert forall|id: u16| m2.contains_key(id) implies m1.contains_key(id) && m2[id] == m1[id] by {
        let k2 = id_index(s2, id);
        assert(0 <= k2 < s2.len() && s2[k2].id == id);
        if id == a.id {
            lemma_sorted_ids_unique(s2, k2, i);
            assert(m2[id] == a);
        } else {
            if k2 < i {
                assert(s[k2].id == id);
                lemma_map_of_at(s, k2);
                lemma_map_of_at(s2, k2);
            } else {
                assert(k2 != i);
                assert(s[k2 - 1].id == id);
                lemma_map_of_at(s, k2 - 1);
                lemma_map_of_at(s2, k2);
            }
        }
    }
    assert(m1 =~= m2);
}

/// Replacing the account at position `i` by one with the same id keeps the
/// ids sorted and inserts the new state into the map of `s`.
proof fn lemma_map_of_update(s: Seq<AccountView>, i: int, a: AccountView)
    requires
        ids_sorted(s),
        0 <= i < s.len(),
        s[i].id == a.id,
    ensures
        ids_sorted(s.update(i, a)),
        map_of(s.update(i, a)) == map_of(s).insert(a.id, a),
{
    let s2 = s.update(i, a);
    assert(ids_sorted(s2));
    let m1 = map_of(s).insert(a.id, a);
    let m2 = map_of(s2);
    assert forall|id: u16| m1.contains_key(id) implies m2.contains_key(id) by {
        if id == a.id {
            assert(s2[i].id == id);
            assert(has_id(s2, id));
        } else {
            let k = id_index(s, id);
            assert(s2[k].id == id);
            assert(has_id(s2, id));
        }
    }
    assert forall|id: u16| m2.contains_key(id) implies m1.contains_key(id) && m2[id] == m1[id] by {
        let k2 = id_index(s2, id);
        assert(0 <= k2 < s2.len() && s2[k2].id == id);
        if id == a.id {
            lemma_sorted_ids_unique(s2, k2, i);
            assert(m2[id] == a);
        } else {
            assert(k2 != i);
            assert(s[k2].id == id);
            lemma_map_of_at(s, k2);
            lemma_map_of_at(s2, k2);
        }
    }
    assert(m1 =~= m2);
}

/// What one record does to the map of accounts: nothing on a validation
/// failure; otherwise the account is created on first sight and the
/// operation's transition runs on it. The routing result is the second
/// component; a failed operation still leaves the account created.
pub open spec fn spec_apply(m: Map<u16, AccountView>, record: InputTransaction) -> (
    Map<u16, AccountView>,
    Result<(), ClientTransactionError>,
) {
    match spec_validate(record.tx_type, record.client, record.tx, record.amount) {
        Err(e) => (m, Err(e)),
        Ok(v) => {
            let base = if m.contains_key(record.client) {
                m[record.client]
            } else {
                AccountView::initial(record.client)
            };
            let stepped = match (record.tx_type, v) {
                (TransactionType::Deposit, ValidatedTransaction::WithAmount { tx, amount }) => deposit_tr(
                    base,
                    tx,
                    amount,
                ),
                (
                    TransactionType::Withdrawal,
                    ValidatedTransaction::WithAmount { tx, amount },
                ) => withdraw_tr(base, amount),
                (TransactionType::Dispute, ValidatedTransaction::NoAmount { tx }) => dispute_tr(
                    base,
                    tx,
                ),
                (TransactionType::Resolve, ValidatedTransaction::NoAmount { tx }) => resolve_tr(
                    base,
                    tx,
                ),
                (TransactionType::Chargeback, ValidatedTransaction::NoAmount { tx }) => chargeback_tr(
                    base,
                    tx,
                ),
                _ => (base, Ok(())),  // validation never hands an operation the wrong shape
            };
            (m.insert(record.client, stepped.0), stepped.1)
        },
    }
}

/// The collection of accounts, one per client id, created lazily on first
/// sight and never deleted.
pub struct Ledger {
    clients: Vec<Client>,
}

impl View for Ledger {
    type V = Map<u16, AccountView>;

    open spec fn view(&self) -> Map<u16, AccountView> {
        map_of(self.accounts())
    }
}

impl Ledger {
    /// The account states, in ascending id order.
    pub closed spec fn accounts(self) -> Seq<AccountView> {
        self.clients@.map(|i: int, c: Client| c@)
    }

    /// Ledger well-formedness: account ids are strictly ascending (so each
    /// id appears once) and every account is well-formed.
    pub open spec fn wf(self) -> bool {
        &&& ids_sorted(self.accounts())
        &&& forall|i: int| 0 <= i < self.accounts().len() ==> (#[trigger] self.accounts()[i]).wf()
    }

    /// An empty ledger.
    pub fn new() -> (r: Ledger)
        ensures
            r.wf(),
            r@ == Map::<u16, AccountView>::empty(),
    {
        let r = Ledger { clients: Vec::new() };
        proof {
            assert(r@ =~= Map::<u16, AccountView>::empty());
        }
        r
    }

    /// The position of the account with id `id`, created at its sorted
    /// position if it was not there yet.
    fn find_or_create(&mut self, id: u16) -> (idx: usize)
        requires
            old(self).wf(),
        ensures
            final(self).wf(),
            idx < final(self).accounts().len(),
            final(self).accounts()[idx as int].id == id,
            final(self).accounts()[idx as int] == if old(self)@.contains_key(id) {
                old(self)@[id]
            } else {
                AccountView::initial(id)
            },
            final(self)@ == if old(self)@.contains_key(id) {
                old(self)@
            } else {
                old(self)@.insert(id, AccountView::initial(id))
            },
    {
        let ghost s0 = self.accounts();
        let mut i: usize = 0;
        while i < self.clients.len() && self.clients[i].client_id() < id
            invariant
                *self == *old(self),
                i <= self.clients@.len(),
                forall|k: int| 0 <= k < i ==> self.accounts()[k].id < id,
            decreases self.clients@.len() - i,
        {
            i = i + 1;
        }
        if i < self.clients.len() && self.clients[i].client_id() == id {
            proof {
                lemma_map_of_at(s0, i as int);
            }
            i
        } else {
            proof {
                assert forall|k: int| (i as int) <= k < s0.len() implies id < s0[k].id by {
                    if k > i {
                        assert(s0[i as int].id < s0[k].id);
                    }
                }
                if has_id(s0, id) {
                    let k = id_index(s0, id);
                    assert(0 <= k < s0.len() && s0[k].id == id);
                    assert(false);
                }
            }
            let c = Client::new(id);
            self.clients.insert(i, c);
            proof {
                assert(self.accounts() =~= s0.insert(i as int, AccountView::initial(id)));
                lemma_map_of_insert(s0, i as int, AccountView::initial(id));
            }
            i
        }
    }

    /// Routes one record: validates it, finds or creates the account of its
    /// client, and runs the operation. A failure is returned for the caller
    /// to report; it never corrupts the ledger, and a failed operation on an
    /// account created by this very record still leaves the account behind.
    /// Behaves as [`spec_apply`] on the ledger's map of accounts.
    pub fn apply(&mut self, record: &InputTransaction) -> (r: Result<(), ClientTransactionError>)
        requires
            old(self).wf(),
        ensures
            final(self).wf(),
            final(self)@ == spec_apply(old(self)@, *record).0,
            r == spec_apply(old(self)@, *record).1,
    {
        let validated = match validate_transaction(
            record.tx_type,
            record.client,
            record.tx,
            record.amount,
        ) {
            Ok(v) => v,
            Err(e) => {
                return Err(e);
            },
        };
        let idx = self.find_or_create(record.client);
        let ghost s1 = self.accounts();
        let ghost base = s1[idx as int];
        let mut c = self.clients.remove(idx);
        let res = match (record.tx_type, validated) {
            (TransactionType::Deposit, ValidatedTransaction::WithAmount { tx, amount }) => c.deposit(
                tx,
                amount,
            ),
            (TransactionType::Withdrawal, ValidatedTransaction::WithAmount { tx: _, amount }) => c
                .withdraw(amount),
            (TransactionType::Dispute, ValidatedTransaction::NoAmount { tx }) => c.dispute(tx),
            (TransactionType::Resolve, ValidatedTransaction::NoAmount { tx }) => c.resolve(tx),
            (TransactionType::Chargeback, ValidatedTransaction::NoAmount { tx }) => c.chargeback(
                tx,
            ),
            _ => {
                proof {
                    assert(false);  // validation never hands an operation the wrong shape
                }
                Ok(())
            },
        };
        self.clients.insert(idx, c);
        proof {
            assert(self.accounts() =~= s1.update(idx as int, c@));
            match (record.tx_type, validated) {
                (TransactionType::Deposit, ValidatedTransaction::WithAmount { tx, amount }) => {
                    lemma_step_preserves_wf(base, AccountOp::Deposit { tx_id: tx, amount });
                },
                (TransactionType::Withdrawal, ValidatedTransaction::WithAmount { tx, amount }) => {
                    lemma_step_preserves_wf(base, AccountOp::Withdraw { amount });
                },
                (TransactionType::Dispute, ValidatedTransaction::NoAmount { tx }) => {
                    lemma_step_preserves_wf(base, AccountOp::Dispute { tx_id: tx });
                },
                (TransactionType::Resolve, ValidatedTransaction::NoAmount { tx }) => {
                    lemma_step_preserves_wf(base, AccountOp::Resolve { tx_id: tx });
                },
                (TransactionType::Chargeback, ValidatedTransaction::NoAmount { tx }) => {
                    lemma_step_preserves_wf(base, AccountOp::Chargeback { tx_id: tx });
                },
                _ => {},
            }
            lemma_map_of_update(s1, idx as int, c@);
            assert forall|i: int| 0 <= i < self.accounts().len() implies (
            #[trigger] self.accounts()[i]).wf() by {
                if i != idx as int {
                    assert(self.accounts()[i] == s1[i]);
                }
            }
        }
        res
    }

    /// The final report: one row per account, in ascending id order. On a
    /// well-formed ledger every row satisfies the balance invariant
    /// `total == available + held`.
    pub fn snapshot(&self) -> (r: Vec<AccountSummary>)
        ensures
            r@.len() == self.accounts().len(),
            forall|i: int| 0 <= i < r@.len() ==> r@[i] == self.accounts()[i].summary(),
            self.wf() ==> forall|i: int, j: int|
                0 <= i < j < r@.len() ==> r@[i].id < r@[j].id,
            self.wf() ==> forall|i: int|
                0 <= i < r@.len() ==> #[trigger] r@[i].total == r@[i].available + r@[i].held,
            self.wf() ==> forall|i: int|
                0 <= i < r@.len() ==> self@.contains_key((#[trigger] r@[i]).id) && r@[i]
                    == self@[r@[i].id].summary(),
            self.wf() ==> forall|id: u16| #[trigger]
                self@.contains_key(id) ==> exists|i: int|
                    0 <= i < r@.len() && (#[trigger] r@[i]).id == id,
    {
        let mut r: Vec<AccountSummary> = Vec::new();
        let mut i: usize = 0;
        while i < self.clients.len()
            invariant
                i <= self.clients@.len(),
                r@.len() == i,
                forall|k: int| 0 <= k < i ==> r@[k] == self.accounts()[k].summary(),
            decreases self.clients@.len() - i,
        {
            let s = self.clients[i].summary();
            r.push(s);
            i = i + 1;
        }
        proof {
            if self.wf() {
                assert forall|k: int| 0 <= k < r@.len() implies self@.contains_key(
                    (#[trigger] r@[k]).id,
                ) && r@[k] == self@[r@[k].id].summary() by {
                    lemma_map_of_at(self.accounts(), k);
                }
                assert forall|id: u16| #[trigger] self@.contains_key(id) implies exists|k: int|
                    0 <= k < r@.len() && (#[trigger] r@[k]).id == id by {
                    let k = id_index(self.accounts(), id);
                    assert(0 <= k < r@.len() && r@[k].id == id);
                }
            }
        }
        r
    }
}

} // verus!
