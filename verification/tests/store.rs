use block_validator::result::{BlockStatus, BlockValidationResult, TxnExecutionResult};
use block_validator::store::{
    BlockStatusStore, BlockValidationResultStore, BLOCK_VALIDATION_RESULT_CACHE_SIZE,
};

fn result(id: &str, num_transactions: u64, status: BlockStatus) -> BlockValidationResult {
    BlockValidationResult::new(id.to_string(), vec![], num_transactions, status)
}

fn name(i: usize) -> String {
    format!("block-{}", i)
}

#[test]
fn new_store_knows_nothing() {
    let mut store = BlockValidationResultStore::new();
    assert!(store.get("a").is_none());
    assert_eq!(store.status("a"), BlockStatus::Unknown);
    let mut store = BlockValidationResultStore::default();
    assert!(store.get("").is_none());
}

#[test]
fn inserted_result_is_found_whole() {
    let mut store = BlockValidationResultStore::new();
    store.insert(BlockValidationResult::new(
        "a".to_string(),
        vec![
            TxnExecutionResult { signature: "t1".to_string(), is_valid: true, receipt: vec![1, 2] },
            TxnExecutionResult { signature: "t2".to_string(), is_valid: false, receipt: vec![] },
        ],
        2,
        BlockStatus::Valid,
    ));
    let found = store.get("a").unwrap();
    assert_eq!(found.block_id, "a");
    assert_eq!(found.num_transactions, 2);
    assert_eq!(found.status, BlockStatus::Valid);
    assert_eq!(found.execution_results.len(), 2);
    assert_eq!(found.execution_results[0].signature, "t1");
    assert!(found.execution_results[0].is_valid);
    assert_eq!(found.execution_results[0].receipt, vec![1, 2]);
    assert_eq!(found.execution_results[1].signature, "t2");
    assert!(!found.execution_results[1].is_valid);
    assert_eq!(store.status("a"), BlockStatus::Valid);
    assert!(store.get("b").is_none());
}

#[test]
fn later_result_for_a_block_hides_the_earlier_one() {
    let mut store = BlockValidationResultStore::new();
    store.insert(result("a", 1, BlockStatus::Invalid));
    store.insert(result("b", 2, BlockStatus::Invalid));
    store.insert(result("a", 3, BlockStatus::Valid));
    assert_eq!(store.get("a").unwrap().num_transactions, 3);
    // Using another block leaves the order of the two.
    assert_eq!(store.get("b").unwrap().num_transactions, 2);
    assert_eq!(store.get("a").unwrap().num_transactions, 3);
}

#[test]
fn failed_block_becomes_invalid_and_keeps_the_rest() {
    let mut store = BlockValidationResultStore::new();
    store.insert(result("a", 4, BlockStatus::Valid));
    store.insert(result("b", 5, BlockStatus::Valid));
    store.fail_block("a");
    assert_eq!(store.status("a"), BlockStatus::Invalid);
    assert_eq!(store.get("a").unwrap().num_transactions, 4);
    assert_eq!(store.status("b"), BlockStatus::Valid);
    store.fail_block("a");
    assert_eq!(store.status("a"), BlockStatus::Invalid);
}

#[test]
fn failing_an_unknown_block_does_nothing() {
    let mut store = BlockValidationResultStore::new();
    store.insert(result("a", 4, BlockStatus::Valid));
    store.fail_block("b");
    assert_eq!(store.status("a"), BlockStatus::Valid);
    assert_eq!(store.status("b"), BlockStatus::Unknown);
}

#[test]
fn only_the_latest_result_of_a_block_fails() {
    let mut store = BlockValidationResultStore::new();
    store.insert(result("a", 0, BlockStatus::Valid));
    store.insert(result("a", 1, BlockStatus::Valid));
    store.fail_block("a");
    assert_eq!(store.get("a").unwrap().num_transactions, 1);
    assert_eq!(store.status("a"), BlockStatus::Invalid);
    // Once enough newer results have come in, only the older one is forgotten.
    for i in 0..BLOCK_VALIDATION_RESULT_CACHE_SIZE - 1 {
        store.insert(result(&name(i), 0, BlockStatus::Valid));
    }
    assert_eq!(store.status("a"), BlockStatus::Invalid);
}

#[test]
fn full_store_forgets_the_least_recently_used_result() {
    assert_eq!(BLOCK_VALIDATION_RESULT_CACHE_SIZE, 512);
    let mut store = BlockValidationResultStore::new();
    for i in 0..512 {
        store.insert(result(&name(i), i as u64, BlockStatus::Valid));
    }
    // Nothing is forgotten before the bound is exceeded; the first one is used.
    assert_eq!(store.get(&name(0)).unwrap().num_transactions, 0);
    store.insert(result("one more", 0, BlockStatus::Valid));
    assert_eq!(store.status(&name(0)), BlockStatus::Valid);
    assert_eq!(store.status(&name(1)), BlockStatus::Unknown);
    assert_eq!(store.status(&name(2)), BlockStatus::Valid);
    assert_eq!(store.status("one more"), BlockStatus::Valid);
}

#[test]
fn asking_for_a_status_counts_as_use() {
    let mut store = BlockValidationResultStore::new();
    for i in 0..512 {
        store.insert(result(&name(i), 0, BlockStatus::Valid));
    }
    assert_eq!(store.status(&name(0)), BlockStatus::Valid);
    store.fail_block(&name(1));
    store.insert(result("x", 0, BlockStatus::Valid));
    store.insert(result("y", 0, BlockStatus::Valid));
    assert_eq!(store.status(&name(0)), BlockStatus::Valid);
    assert_eq!(store.status(&name(1)), BlockStatus::Invalid);
    assert_eq!(store.status(&name(2)), BlockStatus::Unknown);
    assert_eq!(store.status(&name(3)), BlockStatus::Unknown);
    assert_eq!(store.status(&name(4)), BlockStatus::Valid);
}

#[test]
fn asking_for_an_unknown_block_uses_nothing() {
    let mut store = BlockValidationResultStore::new();
    for i in 0..512 {
        store.insert(result(&name(i), 0, BlockStatus::Valid));
    }
    assert!(store.get("none").is_none());
    store.insert(result("x", 0, BlockStatus::Valid));
    assert_eq!(store.status(&name(0)), BlockStatus::Unknown);
    assert_eq!(store.status(&name(1)), BlockStatus::Valid);
}

#[test]
fn used_result_survives_a_round_of_insertions() {
    let mut store = BlockValidationResultStore::new();
    store.insert(result("kept", 6, BlockStatus::Valid));
    for i in 0..511 {
        store.insert(result(&name(i), 0, BlockStatus::Valid));
    }
    // Asking makes it the most recently used one, which survives another round.
    assert_eq!(store.get("kept").unwrap().num_transactions, 6);
    for i in 511..1022 {
        store.insert(result(&name(i), 0, BlockStatus::Valid));
    }
    assert_eq!(store.get("kept").unwrap().num_transactions, 6);
    for i in 1022..1534 {
        store.insert(result(&name(i), 0, BlockStatus::Valid));
    }
    assert!(store.get("kept").is_none());
}
