//! Tests of the ledger: record validation, routing, the snapshot, and the
//! report formatting helpers. Amounts are in fixed-point units of 1/10000.

use rust_payments_engine::client::AccountSummary;
use rust_payments_engine::errors::ClientTransactionError;
use rust_payments_engine::format_decimal;
use rust_payments_engine::ledger::{validate_transaction, Ledger, ValidatedTransaction};
use rust_payments_engine::transaction::TransactionType;
use rust_payments_engine::utils::{missing_amount_error, scaled_from_parts, InputTransaction};

fn record(tx_type: TransactionType, client: u16, tx: i64, amount: Option<i64>) -> InputTransaction {
    InputTransaction {
        tx_type,
        client,
        tx,
        amount,
    }
}

fn row(s: &AccountSummary) -> String {
    let mut out = String::new();
    out.push_str(&s.id.to_string());
    out.push(',');
    out.push_str(&format_decimal(s.available));
    out.push(',');
    out.push_str(&format_decimal(s.held));
    out.push(',');
    out.push_str(&format_decimal(s.total));
    out.push(',');
    out.push_str(if s.locked { "true" } else { "false" });
    out
}

#[test]
fn ledger_skips_negative_transaction_ids() {
    let mut ledger = Ledger::new();
    let r1 = ledger.apply(&record(TransactionType::Deposit, 1, -5, Some(10000)));
    assert!(matches!(
        r1,
        Err(ClientTransactionError::InvalidTransactionId { client_id: 1, tx: -5 })
    ));
    ledger
        .apply(&record(TransactionType::Deposit, 1, 0, Some(20000)))
        .unwrap();

    let snap = ledger.snapshot();
    assert_eq!(snap.len(), 1);
    assert_eq!(row(&snap[0]), "1,2.0000,0.0000,2.0000,false");
}

#[test]
fn ledger_accumulates_multiple_deposit_records() {
    let mut ledger = Ledger::new();
    ledger
        .apply(&record(TransactionType::Deposit, 1, 1, Some(50000)))
        .unwrap();
    ledger
        .apply(&record(TransactionType::Deposit, 1, 2, Some(30000)))
        .unwrap();

    let snap = ledger.snapshot();
    assert_eq!(snap.len(), 1);
    assert_eq!(row(&snap[0]), "1,8.0000,0.0000,8.0000,false");
}

#[test]
fn ledger_skips_non_positive_amount_rows() {
    let mut ledger = Ledger::new();
    let r1 = ledger.apply(&record(TransactionType::Deposit, 1, 1, Some(-50000)));
    assert!(matches!(
        r1,
        Err(ClientTransactionError::InvalidAmount {
            client_id: 1,
            tx: 1,
            amount: -50000
        })
    ));
    ledger
        .apply(&record(TransactionType::Deposit, 1, 2, Some(30000)))
        .unwrap();

    let snap = ledger.snapshot();
    assert_eq!(snap.len(), 1);
    assert_eq!(row(&snap[0]), "1,3.0000,0.0000,3.0000,false");
}

#[test]
fn ledger_skips_rows_without_amount_for_deposits() {
    let mut ledger = Ledger::new();
    let r1 = ledger.apply(&record(TransactionType::Deposit, 1, 1, None));
    assert!(matches!(
        r1,
        Err(ClientTransactionError::MissingAmount {
            client_id: 1,
            tx_type: TransactionType::Deposit,
            tx: 1
        })
    ));

    assert!(ledger.snapshot().is_empty());
}

#[test]
fn ledger_skips_rows_without_amount_for_withdrawals() {
    let mut ledger = Ledger::new();
    ledger
        .apply(&record(TransactionType::Deposit, 1, 1, Some(35000)))
        .unwrap();
    let r2 = ledger.apply(&record(TransactionType::Withdrawal, 1, 2, None));
    assert!(matches!(
        r2,
        Err(ClientTransactionError::MissingAmount {
            client_id: 1,
            tx_type: TransactionType::Withdrawal,
            tx: 2
        })
    ));

    let snap = ledger.snapshot();
    assert_eq!(snap.len(), 1);
    assert_eq!(row(&snap[0]), "1,3.5000,0.0000,3.5000,false");
}

#[test]
fn ledger_preserves_balances_when_withdrawal_fails() {
    let mut ledger = Ledger::new();
    ledger
        .apply(&record(TransactionType::Deposit, 1, 1, Some(50000)))
        .unwrap();
    let r2 = ledger.apply(&record(TransactionType::Withdrawal, 1, 2, Some(100000)));
    assert!(matches!(
        r2,
        Err(ClientTransactionError::InsufficientAvailableFunds { client_id: 1 })
    ));

    let snap = ledger.snapshot();
    assert_eq!(snap.len(), 1);
    assert_eq!(row(&snap[0]), "1,5.0000,0.0000,5.0000,false");
}

#[test]
fn ledger_applies_dispute_and_resolve_flow() {
    let mut ledger = Ledger::new();
    ledger
        .apply(&record(TransactionType::Deposit, 1, 1, Some(25000)))
        .unwrap();
    ledger
        .apply(&record(TransactionType::Dispute, 1, 1, None))
        .unwrap();
    ledger
        .apply(&record(TransactionType::Resolve, 1, 1, None))
        .unwrap();

    let snap = ledger.snapshot();
    assert_eq!(snap.len(), 1);
    assert_eq!(row(&snap[0]), "1,2.5000,0.0000,2.5000,false");
}

#[test]
fn ledger_applies_dispute_and_chargeback_flow() {
    let mut ledger = Ledger::new();
    ledger
        .apply(&record(TransactionType::Deposit, 1, 1, Some(75000)))
        .unwrap();
    ledger
        .apply(&record(TransactionType::Dispute, 1, 1, None))
        .unwrap();
    ledger
        .apply(&record(TransactionType::Chargeback, 1, 1, None))
        .unwrap();

    let snap = ledger.snapshot();
    assert_eq!(snap.len(), 1);
    assert_eq!(row(&snap[0]), "1,0.0000,0.0000,0.0000,true");
}

#[test]
fn ledger_handles_duplicate_dispute_rows() {
    let mut ledger = Ledger::new();
    ledger
        .apply(&record(TransactionType::Deposit, 1, 1, Some(40000)))
        .unwrap();
    ledger
        .apply(&record(TransactionType::Deposit, 1, 2, Some(40000)))
        .unwrap();
    ledger
        .apply(&record(TransactionType::Dispute, 1, 1, None))
        .unwrap();
    ledger
        .apply(&record(TransactionType::Dispute, 1, 2, None))
        .unwrap();

    let snap = ledger.snapshot();
    assert_eq!(snap.len(), 1);
    assert_eq!(row(&snap[0]), "1,0.0000,8.0000,8.0000,false");
}

#[test]
fn ledger_skips_transaction_ids_that_overflow_u32() {
    let mut ledger = Ledger::new();
    let r1 = ledger.apply(&record(TransactionType::Deposit, 1, 4294967296, Some(10000)));
    assert!(matches!(
        r1,
        Err(ClientTransactionError::InvalidTransactionId {
            client_id: 1,
            tx: 4294967296
        })
    ));
    ledger
        .apply(&record(TransactionType::Deposit, 1, 1, Some(40000)))
        .unwrap();

    let snap = ledger.snapshot();
    assert_eq!(snap.len(), 1);
    assert_eq!(row(&snap[0]), "1,4.0000,0.0000,4.0000,false");
}

#[test]
fn ledger_reports_second_dispute_as_already_in_dispute() {
    let mut ledger = Ledger::new();
    ledger
        .apply(&record(TransactionType::Deposit, 3, 1, Some(60000)))
        .unwrap();
    ledger
        .apply(&record(TransactionType::Dispute, 3, 1, None))
        .unwrap();
    let r = ledger.apply(&record(TransactionType::Dispute, 3, 1, None));
    assert!(matches!(
        r,
        Err(ClientTransactionError::AlreadyInDispute {
            client_id: 3,
            tx_id: 1
        })
    ));
}

#[test]
fn ledger_creates_account_even_when_the_operation_fails() {
    let mut ledger = Ledger::new();
    let r = ledger.apply(&record(TransactionType::Dispute, 5, 999, None));
    assert!(matches!(
        r,
        Err(ClientTransactionError::UnknownTransaction {
            client_id: 5,
            tx_id: 999
        })
    ));

    let snap = ledger.snapshot();
    assert_eq!(snap.len(), 1);
    assert_eq!(row(&snap[0]), "5,0.0000,0.0000,0.0000,false");
}

#[test]
fn snapshot_orders_accounts_by_ascending_id() {
    let mut ledger = Ledger::new();
    ledger
        .apply(&record(TransactionType::Deposit, 20, 1, Some(10000)))
        .unwrap();
    ledger
        .apply(&record(TransactionType::Deposit, 3, 2, Some(20000)))
        .unwrap();
    ledger
        .apply(&record(TransactionType::Deposit, 11, 3, Some(30000)))
        .unwrap();
    ledger
        .apply(&record(TransactionType::Withdrawal, 3, 4, Some(5000)))
        .unwrap();

    let snap = ledger.snapshot();
    assert_eq!(snap.len(), 3);
    assert_eq!(row(&snap[0]), "3,1.5000,0.0000,1.5000,false");
    assert_eq!(row(&snap[1]), "11,3.0000,0.0000,3.0000,false");
    assert_eq!(row(&snap[2]), "20,1.0000,0.0000,1.0000,false");
}

#[test]
fn validate_transaction_accepts_dispute_family_without_amount() {
    let r = validate_transaction(TransactionType::Dispute, 1, 7, None);
    assert!(matches!(r, Ok(ValidatedTransaction::NoAmount { tx: 7 })));
    let r = validate_transaction(TransactionType::Resolve, 1, 7, Some(12345));
    assert!(matches!(r, Ok(ValidatedTransaction::NoAmount { tx: 7 })));
    let r = validate_transaction(TransactionType::Chargeback, 1, 7, None);
    assert!(matches!(r, Ok(ValidatedTransaction::NoAmount { tx: 7 })));
}

#[test]
fn validate_transaction_requires_positive_amounts() {
    let r = validate_transaction(TransactionType::Deposit, 2, 5, Some(0));
    assert!(matches!(
        r,
        Err(ClientTransactionError::InvalidAmount {
            client_id: 2,
            tx: 5,
            amount: 0
        })
    ));
    let r = validate_transaction(TransactionType::Withdrawal, 2, 5, Some(12345));
    assert!(matches!(
        r,
        Ok(ValidatedTransaction::WithAmount {
            tx: 5,
            amount: 12345
        })
    ));
}

#[test]
fn format_decimal_pads_to_four_places() {
    let value = 12300; // 1.23
    assert_eq!(format_decimal(value), "1.2300");
}

#[test]
fn format_decimal_renders_sign_zero_and_fractions() {
    assert_eq!(format_decimal(0), "0.0000");
    assert_eq!(format_decimal(5000), "0.5000");
    assert_eq!(format_decimal(-12345), "-1.2345");
    assert_eq!(format_decimal(-3), "-0.0003");
    assert_eq!(format_decimal(100000000), "10000.0000");
    assert_eq!(format_decimal(i64::MAX), "922337203685477.5807");
    assert_eq!(format_decimal(i64::MIN), "-922337203685477.5808");
}

#[test]
fn scaled_from_parts_matches_exact_values() {
    assert_eq!(scaled_from_parts(105, 1), Some(105000)); // 10.5
    assert_eq!(scaled_from_parts(123, 2), Some(12300)); // 1.23
    assert_eq!(scaled_from_parts(3, 0), Some(30000)); // 3
    assert_eq!(scaled_from_parts(-25, 1), Some(-25000)); // -2.5
    assert_eq!(scaled_from_parts(50000, 5), Some(5000)); // 0.5
    assert_eq!(scaled_from_parts(0, 7), Some(0));
}

#[test]
fn scaled_from_parts_rejects_inexact_or_oversized_values() {
    assert_eq!(scaled_from_parts(1, 5), None); // 0.00001
    assert_eq!(scaled_from_parts(-7, 6), None);
    assert_eq!(scaled_from_parts(922337203685478, 0), None); // past i64::MAX units
    assert_eq!(scaled_from_parts(9223372036854775807, 4), Some(i64::MAX));
    assert_eq!(scaled_from_parts(-9223372036854775808, 4), Some(i64::MIN));
    assert_eq!(scaled_from_parts(-9223372036854775809, 4), None);
}

#[test]
fn missing_amount_helper_formats_message() {
    let err = missing_amount_error("deposit", 42);
    assert_eq!(err.message(), "Missing amount for deposit transaction 42");
}

#[test]
fn transaction_type_names_are_lower_case() {
    assert_eq!(TransactionType::Deposit.as_str(), "deposit");
    assert_eq!(TransactionType::Withdrawal.as_str(), "withdrawal");
    assert_eq!(TransactionType::Dispute.as_str(), "dispute");
    assert_eq!(TransactionType::Resolve.as_str(), "resolve");
    assert_eq!(TransactionType::Chargeback.as_str(), "chargeback");
}
