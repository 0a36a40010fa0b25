use fraud_detection::in_memory::{InMemoryScoringResultRepo, InMemoryTransactionRepo};
use fraud_detection::repository::{ScoringResultRepository, TransactionRepository};
use fraud_detection::scoring::Score;
use fraud_detection::transaction::Transaction;

fn tx(id: &str, amount: u64, currency: &str) -> Transaction {
    Transaction { id: id.to_string(), amount, currency: currency.to_string() }
}

#[test]
fn test_get_never_saved_is_absent() {
    let repo = InMemoryTransactionRepo::new();
    assert!(repo.get("tx-001").is_none());

    let mut repo = InMemoryTransactionRepo::new();
    repo.save(tx("tx-001", 100, "USD"));
    assert!(repo.get("tx-002").is_none());
    assert!(repo.get("").is_none());
}

#[test]
fn test_save_then_get_returns_the_record() {
    let mut repo = InMemoryTransactionRepo::new();
    repo.save(tx("tx-001", 12345, "USD"));
    let got = repo.get("tx-001").expect("saved record must be found");
    assert_eq!(got.id, "tx-001");
    assert_eq!(got.amount, 12345);
    assert_eq!(got.currency, "USD");
}

#[test]
fn test_upsert_same_id_second_save_wins() {
    let mut repo = InMemoryTransactionRepo::new();
    repo.save(tx("dup-1", 100, "USD"));
    repo.save(tx("dup-1", 999, "EUR"));
    assert_eq!(repo.len(), 1);
    let got = repo.get("dup-1").expect("record must be present");
    assert_eq!(got.amount, 999);
    assert_eq!(got.currency, "EUR");
}

#[test]
fn test_upsert_leaves_other_ids_untouched() {
    let mut repo = InMemoryTransactionRepo::new();
    repo.save(tx("a", 1, "USD"));
    repo.save(tx("b", 2, "USD"));
    repo.save(tx("a", 3, "USD"));
    assert_eq!(repo.len(), 2);
    assert_eq!(repo.get("a").unwrap().amount, 3);
    assert_eq!(repo.get("b").unwrap().amount, 2);
}

#[test]
fn test_score_repo_upsert_and_absent_key() {
    let mut repo = InMemoryScoringResultRepo::new();
    assert!(repo.get("tx-001").is_none());
    repo.save(Score { id: "tx-001".to_string(), score: 4000, is_fraud: false });
    repo.save(Score { id: "tx-001".to_string(), score: 9000, is_fraud: true });
    assert_eq!(repo.len(), 1);
    let got = repo.get("tx-001").expect("score must be present");
    assert_eq!(got.score, 9000);
    assert!(got.is_fraud);
    assert!(repo.get("tx-404").is_none());
}
