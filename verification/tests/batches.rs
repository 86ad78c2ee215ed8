use std::cell::RefCell;
use std::sync::{Arc, Mutex};

use block_validator::batches::{judge_execution, BatchesInBlockValidation};
use block_validator::block::{Batch, Block, BlockHeader, BlockPair};
use block_validator::error::{ServiceError, ValidationError};
use block_validator::processor::BlockValidation;
use block_validator::result::{BlockStatus, TxnExecutionResult};
use block_validator::service::{ExecutionPlatform, ExecutionResults, Scheduler};

fn batch(id: &str) -> Batch {
    Batch { header: vec![], header_signature: id.to_string(), transactions: vec![], trace: false }
}

fn block(batches: Vec<&str>) -> BlockPair {
    BlockPair {
        block: Block {
            header: vec![],
            header_signature: "the-block".to_string(),
            batches: batches.into_iter().map(batch).collect(),
        },
        header: BlockHeader {
            block_num: 1,
            previous_block_id: "previous".to_string(),
            signer_public_key: vec![],
            state_root_hash: vec![0xab, 0x01, 0xf0],
        },
    }
}

fn txn(id: &str, is_valid: bool) -> TxnExecutionResult {
    TxnExecutionResult { signature: id.to_string(), is_valid, receipt: vec![id.len() as u8] }
}

fn good_results() -> ExecutionResults {
    ExecutionResults {
        ending_state_hash: Some(vec![0xab, 0x01, 0xf0]),
        batch_results: vec![
            ("b1".to_string(), Some(vec![txn("t1", true), txn("t2", true)])),
            ("b2".to_string(), Some(vec![])),
            ("b3".to_string(), Some(vec![txn("t3", true)])),
        ],
    }
}

fn failure(reason: &str) -> ValidationError {
    ValidationError::BlockValidationFailure(reason.to_string())
}

fn error(reason: &str) -> ValidationError {
    ValidationError::BlockValidationError(reason.to_string())
}

fn trouble() -> ServiceError {
    ServiceError { display: "no luck".to_string(), debug: "NoLuck(3)".to_string() }
}

#[derive(Clone, Copy, PartialEq)]
enum Breaks {
    Never,
    Create,
    Add(usize),
    Finalize,
    Complete,
    Empty,
}

/// Executes as told, and writes down what it is asked to do.
struct Platform {
    breaks: Breaks,
    log: Arc<Mutex<RefCell<Vec<String>>>>,
}

struct Run {
    breaks: Breaks,
    added: usize,
    log: Arc<Mutex<RefCell<Vec<String>>>>,
}

impl Run {
    fn note(&self, line: String) {
        self.log.lock().unwrap().borrow_mut().push(line);
    }
}

impl Scheduler for Run {
    fn add_batch(
        self,
        batch: &Batch,
        expected_state_hash: Option<&Vec<u8>>,
        required: bool,
    ) -> Result<Self, ServiceError> {
        self.note(format!("add {} {:?} {}", batch.header_signature, expected_state_hash, required));
        if self.breaks == Breaks::Add(self.added) {
            return Err(trouble());
        }
        Ok(Run { added: self.added + 1, ..self })
    }

    fn finalize(self, unschedule_incomplete: bool) -> Result<Self, ServiceError> {
        self.note(format!("finalize {}", unschedule_incomplete));
        if self.breaks == Breaks::Finalize {
            return Err(trouble());
        }
        Ok(self)
    }

    fn complete(self, block: bool) -> Result<Option<ExecutionResults>, ServiceError> {
        self.note(format!("complete {}", block));
        match self.breaks {
            Breaks::Complete => Err(trouble()),
            Breaks::Empty => Ok(None),
            _ => Ok(Some(good_results())),
        }
    }
}

impl ExecutionPlatform for Platform {
    type Run = Run;

    const NULL_STATE_HASH: &'static [u8] = &[0, 0];

    fn create_scheduler(&self, state_root: &[u8]) -> Result<Run, ServiceError> {
        let log = self.log.clone();
        log.lock().unwrap().borrow_mut().push(format!("create {:?}", state_root));
        if self.breaks == Breaks::Create {
            return Err(trouble());
        }
        Ok(Run { breaks: self.breaks, added: 0, log })
    }
}

fn validation(breaks: Breaks) -> BatchesInBlockValidation<Platform> {
    BatchesInBlockValidation::new(Platform {
        breaks,
        log: Arc::new(Mutex::new(RefCell::new(vec![]))),
    })
}

fn log(validation: &BatchesInBlockValidation<Platform>) -> Vec<String> {
    validation.transaction_executor.log.lock().unwrap().borrow().clone()
}

#[test]
fn block_is_executed_batch_by_batch() {
    let validation = validation(Breaks::Never);
    let result = validation.validate_block(&block(vec!["b1", "b2", "b3"]), Some(&[5, 6])).unwrap();
    assert_eq!(
        log(&validation),
        vec![
            "create [5, 6]".to_string(),
            "add b1 None false".to_string(),
            "add b2 None false".to_string(),
            "add b3 Some([171, 1, 240]) false".to_string(),
            "finalize false".to_string(),
            "complete true".to_string(),
        ]
    );
    assert_eq!(result.block_id, "the-block");
    assert_eq!(result.status, BlockStatus::Valid);
    assert_eq!(result.num_transactions, 3);
    let ids: Vec<String> = result.execution_results.iter().map(|r| r.signature.clone()).collect();
    assert_eq!(ids, vec!["t1".to_string(), "t2".to_string(), "t3".to_string()]);
    assert_eq!(result.execution_results[0].receipt, vec![2]);
}

#[test]
fn block_without_a_previous_state_starts_from_the_null_state() {
    let validation = validation(Breaks::Never);
    assert!(validation.validate_block(&block(vec!["b1"]), None).is_ok());
    assert_eq!(log(&validation)[0], "create [0, 0]");
    assert_eq!(log(&validation)[1], "add b1 Some([171, 1, 240]) false");
    assert!(validation.validate_block(&block(vec!["b2"]), None).is_ok());
    assert_eq!(log(&validation)[4], "create [0, 0]");
}

#[test]
fn trouble_with_the_executor_leaves_the_block_unjudged() {
    let three = block(vec!["b1", "b2", "b3"]);
    let failed = |breaks: Breaks| validation(breaks).validate_block(&three, None).unwrap_err();
    assert_eq!(
        failed(Breaks::Create),
        error("Error during validation of block the-block batches: NoLuck(3)")
    );
    assert_eq!(failed(Breaks::Add(0)), error("While adding a batch to the schedule: NoLuck(3)"));
    assert_eq!(failed(Breaks::Add(1)), error("While adding a batch to the schedule: NoLuck(3)"));
    assert_eq!(
        failed(Breaks::Add(2)),
        error("While adding the last batch to the schedule: NoLuck(3)")
    );
    assert_eq!(failed(Breaks::Finalize), error("During call to scheduler.finalize: NoLuck(3)"));
    assert_eq!(failed(Breaks::Complete), error("During call to scheduler.complete: NoLuck(3)"));
    assert_eq!(
        failed(Breaks::Empty),
        failure("Block the-block failed validation: no execution results produced")
    );
}

#[test]
fn block_without_batches_is_unjudged_if_no_run_starts() {
    let unjudged = error("Error during validation of block the-block batches: NoLuck(3)");
    let validation = validation(Breaks::Create);
    assert_eq!(validation.validate_block(&block(vec![]), Some(&[5, 6])).unwrap_err(), unjudged);
    assert_eq!(validation.validate_block(&block(vec![]), None).unwrap_err(), unjudged);
    assert_eq!(log(&validation), vec!["create [5, 6]".to_string(), "create [0, 0]".to_string()]);
}

#[test]
fn nothing_is_done_after_a_batch_that_cannot_be_added() {
    let validation = validation(Breaks::Add(1));
    assert!(validation.validate_block(&block(vec!["b1", "b2", "b3"]), Some(&[])).is_err());
    assert_eq!(
        log(&validation),
        vec![
            "create []".to_string(),
            "add b1 None false".to_string(),
            "add b2 None false".to_string(),
        ]
    );
}

#[test]
fn another_ending_state_makes_the_block_invalid() {
    let results = ExecutionResults {
        ending_state_hash: Some(vec![0x0c, 0xde, 0x9f, 0x00]),
        ..good_results()
    };
    assert_eq!(
        judge_execution(&block(vec!["b1"]), Ok(Some(results))).unwrap_err(),
        failure(
            "Block the-block failed validation: expected state hash ab01f0, validation found \
             state hash 0cde9f00"
        )
    );
}

#[test]
fn no_ending_state_makes_the_block_invalid() {
    let results = ExecutionResults { ending_state_hash: None, ..good_results() };
    assert_eq!(
        judge_execution(&block(vec!["b1"]), Ok(Some(results))).unwrap_err(),
        failure("Block the-block failed validation: no ending state hash was produced")
    );
}

#[test]
fn first_invalid_transaction_is_named() {
    let mut results = good_results();
    results.batch_results.push((
        "b4".to_string(),
        Some(vec![txn("t4", true), txn("t5", false), txn("t6", false)]),
    ));
    results.batch_results.push(("b5".to_string(), None));
    assert_eq!(
        judge_execution(&block(vec!["b1"]), Ok(Some(results))).unwrap_err(),
        failure(
            "Block the-block failed validation: batch b4 was invalid due to transaction t5"
        )
    );
}

#[test]
fn first_batch_without_results_is_named() {
    let mut results = good_results();
    results.batch_results.push(("b4".to_string(), None));
    results.batch_results.push(("b5".to_string(), Some(vec![txn("t5", false)])));
    assert_eq!(
        judge_execution(&block(vec!["b1"]), Ok(Some(results))).unwrap_err(),
        failure("Block the-block failed validation: batch b4 did not have transaction results")
    );
}

#[test]
fn execution_without_batches_is_valid_if_the_state_is_right() {
    let results = ExecutionResults { batch_results: vec![], ..good_results() };
    let result = judge_execution(&block(vec!["b1"]), Ok(Some(results))).unwrap();
    assert_eq!(result.num_transactions, 0);
    assert_eq!(result.execution_results.len(), 0);
    assert_eq!(result.status, BlockStatus::Valid);
}
