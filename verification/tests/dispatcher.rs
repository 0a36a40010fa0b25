use fraud_detection::dispatcher::{
    process_message, process_transaction_with_score, run_worker, WorkerMessage,
};
use fraud_detection::in_memory::{InMemoryScoringResultRepo, InMemoryTransactionRepo};
use fraud_detection::repository::{ScoringResultRepository, TransactionRepository};
use fraud_detection::scoring::{FRAUD_THRESHOLD, SCORE_SCALE};
use fraud_detection::transaction::Transaction;

fn tx(id: &str, amount: u64, currency: &str) -> Transaction {
    Transaction { id: id.to_string(), amount, currency: currency.to_string() }
}

#[test]
fn test_single_transaction_then_shutdown() {
    let mut txs = InMemoryTransactionRepo::new();
    let mut scores = InMemoryScoringResultRepo::new();
    let queue = vec![
        WorkerMessage::Transaction(tx("tx-001", 50000, "USD")), // 500.00 USD
        WorkerMessage::Shutdown,
    ];

    let consumed = run_worker(queue, &mut txs, &mut scores, FRAUD_THRESHOLD);
    assert_eq!(consumed, 2);

    let saved = txs.get("tx-001").expect("transaction must be persisted");
    assert_eq!(saved.id, "tx-001");
    assert_eq!(saved.amount, 50000);
    assert_eq!(saved.currency, "USD");

    let score = scores.get("tx-001").expect("score must be persisted");
    assert_eq!(score.id, "tx-001");
    assert!(score.score <= SCORE_SCALE);
    assert_eq!(score.is_fraud, score.score > FRAUD_THRESHOLD);
}

#[test]
fn test_deterministic_score_not_fraud() {
    let mut txs = InMemoryTransactionRepo::new();
    let mut scores = InMemoryScoringResultRepo::new();
    let sc = process_transaction_with_score(
        &mut txs,
        &mut scores,
        tx("tx-001", 50000, "USD"),
        0,
        FRAUD_THRESHOLD,
    );
    assert_eq!(sc.id, "tx-001");
    assert_eq!(sc.score, 0);
    assert!(!sc.is_fraud);
    assert!(!scores.get("tx-001").unwrap().is_fraud);
}

#[test]
fn test_deterministic_score_above_threshold_is_fraud() {
    let mut txs = InMemoryTransactionRepo::new();
    let mut scores = InMemoryScoringResultRepo::new();
    let sc = process_transaction_with_score(
        &mut txs,
        &mut scores,
        tx("tx-hot", 1, "USD"),
        8001,
        FRAUD_THRESHOLD,
    );
    assert!(sc.is_fraud);
    // Exactly at the threshold the verdict is false: the rule is strictly greater.
    let sc = process_transaction_with_score(
        &mut txs,
        &mut scores,
        tx("tx-edge", 1, "USD"),
        8000,
        FRAUD_THRESHOLD,
    );
    assert!(!sc.is_fraud);
}

#[test]
fn test_shutdown_message_changes_nothing_and_stops() {
    let mut txs = InMemoryTransactionRepo::new();
    let mut scores = InMemoryScoringResultRepo::new();
    let proceed = process_message(&mut txs, &mut scores, WorkerMessage::Shutdown, FRAUD_THRESHOLD);
    assert!(!proceed);
    assert_eq!(txs.len(), 0);
    assert_eq!(scores.len(), 0);
}

#[test]
fn test_messages_after_shutdown_are_never_consumed() {
    let mut txs = InMemoryTransactionRepo::new();
    let mut scores = InMemoryScoringResultRepo::new();
    let queue = vec![
        WorkerMessage::Transaction(tx("before", 100, "USD")),
        WorkerMessage::Shutdown,
        WorkerMessage::Transaction(tx("after-1", 200, "USD")),
        WorkerMessage::Transaction(tx("after-2", 300, "USD")),
    ];

    let consumed = run_worker(queue, &mut txs, &mut scores, FRAUD_THRESHOLD);
    assert_eq!(consumed, 2);
    assert!(txs.get("before").is_some());
    assert!(txs.get("after-1").is_none());
    assert!(txs.get("after-2").is_none());
    assert!(scores.get("after-1").is_none());
    assert!(scores.get("after-2").is_none());
    assert_eq!(txs.len(), 1);
    assert_eq!(scores.len(), 1);
}

#[test]
fn test_duplicate_id_second_amount_wins() {
    let mut txs = InMemoryTransactionRepo::new();
    let mut scores = InMemoryScoringResultRepo::new();
    let queue = vec![
        WorkerMessage::Transaction(tx("dup-1", 100, "USD")),
        WorkerMessage::Transaction(tx("dup-1", 999, "USD")),
    ];

    let consumed = run_worker(queue, &mut txs, &mut scores, FRAUD_THRESHOLD);
    assert_eq!(consumed, 2);
    assert_eq!(txs.len(), 1);
    assert_eq!(txs.get("dup-1").unwrap().amount, 999);
    assert_eq!(scores.len(), 1);
}

#[test]
fn test_worker_drains_queue_in_order() {
    let mut txs = InMemoryTransactionRepo::new();
    let mut scores = InMemoryScoringResultRepo::new();
    let queue = vec![
        WorkerMessage::Transaction(tx("t1", 1, "USD")),
        WorkerMessage::Transaction(tx("t2", 2, "USD")),
        WorkerMessage::Transaction(tx("t3", 3, "USD")),
    ];
    let consumed = run_worker(queue, &mut txs, &mut scores, FRAUD_THRESHOLD);
    assert_eq!(consumed, 3);
    assert_eq!(txs.len(), 3);
    assert_eq!(scores.len(), 3);
    for id in ["t1", "t2", "t3"] {
        assert!(txs.get(id).is_some());
        assert!(scores.get(id).is_some());
    }
}

#[test]
fn test_many_transactions_through_concurrent_style_workers() {
    // 10,000 transactions spread over 4 worker instances that share one
    // store pair; their message handling is interleaved round-robin, the
    // way independently scheduled workers interleave around a shared store.
    let mut txs = InMemoryTransactionRepo::new();
    let mut scores = InMemoryScoringResultRepo::new();

    let total: usize = 10000;
    let workers: usize = 4;
    let per_worker = total / workers;

    let mut queues: Vec<Vec<WorkerMessage>> = Vec::new();
    for w in 0..workers {
        let mut q = Vec::new();
        for k in 0..per_worker {
            let id = format!("w{w}-t{k}");
            q.push(WorkerMessage::Transaction(tx(&id, k as u64, "USD")));
        }
        queues.push(q);
    }

    for k in 0..per_worker {
        for q in queues.iter_mut() {
            let msg = std::mem::replace(&mut q[k], WorkerMessage::Shutdown);
            let proceed = process_message(&mut txs, &mut scores, msg, FRAUD_THRESHOLD);
            assert!(proceed);
        }
    }

    // Exactly one transaction and one score per distinct id: none missing,
    // none duplicated.
    assert_eq!(txs.len(), total);
    assert_eq!(scores.len(), total);
    for w in 0..workers {
        for k in (0..per_worker).step_by(500) {
            let id = format!("w{w}-t{k}");
            let sc = scores.get(&id).expect("every id must have a score");
            assert_eq!(sc.id, id);
            assert!(sc.score <= SCORE_SCALE);
        }
    }
}
