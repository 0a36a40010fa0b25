use fraud_detection::command_bus::dispatch;
use fraud_detection::process_transaction::{ProcessTransaction, ProcessTransactionHandler};
use fraud_detection::transaction::Transaction;

#[test]
fn test_process_transaction_command() {
    let tx = Transaction {
        id: "tx-001".to_string(),
        amount: 12345, // 123.45 in minor units
        currency: "USD".to_string(),
    };

    let cmd = ProcessTransaction { transaction: tx };
    let handler = ProcessTransactionHandler;
    let result = dispatch(cmd, handler);

    assert!(result.contains("Transaction processed"));
}

#[test]
fn test_process_transaction_message_exact() {
    let tx = Transaction {
        id: "tx-002".to_string(),
        amount: 12345,
        currency: "EUR".to_string(),
    };

    let result = dispatch(ProcessTransaction { transaction: tx }, ProcessTransactionHandler);

    assert_eq!(result, "Transaction processed: amount = 123.45, currency = EUR");
}

#[test]
fn test_amount_formatting_pads_fraction() {
    let tx = Transaction {
        id: "tx-003".to_string(),
        amount: 500,  // 5.00
        currency: "USD".to_string(),
    };
    let result = dispatch(ProcessTransaction { transaction: tx }, ProcessTransactionHandler);
    assert_eq!(result, "Transaction processed: amount = 5.00, currency = USD");

    let tx = Transaction {
        id: "tx-004".to_string(),
        amount: 7,  // 0.07
        currency: "USD".to_string(),
    };
    let result = dispatch(ProcessTransaction { transaction: tx }, ProcessTransactionHandler);
    assert_eq!(result, "Transaction processed: amount = 0.07, currency = USD");

    let tx = Transaction {
        id: "tx-005".to_string(),
        amount: 0,
        currency: "USD".to_string(),
    };
    let result = dispatch(ProcessTransaction { transaction: tx }, ProcessTransactionHandler);
    assert_eq!(result, "Transaction processed: amount = 0.00, currency = USD");
}
