use std::cell::RefCell;
use std::sync::{Arc, Mutex};

use block_validator::block::{Batch, Block, BlockHeader, BlockPair, Transaction};
use block_validator::error::{ChainCommitStateError, ServiceError, ValidationError};
use block_validator::result::{BlockStatus, BlockValidationResult, TxnExecutionResult};
use block_validator::service::{
    BlockManager, BlockScheduler, ExecutionPlatform, ExecutionResults, PermissionVerifier,
    Scheduler, SettingsView, StateViewFactory,
};
use block_validator::store::{BlockStatusStore, BlockValidationResultStore};
use block_validator::validator::{record, BlockValidator, BLOCK_VALIDATOR_THREAD_NUM};
use block_validator::worker::{
    after_receive, after_send, after_validation, Delivery, Job, Next, Received,
};

fn block(id: &str, block_num: u64, previous: &str) -> BlockPair {
    BlockPair {
        block: Block {
            header: vec![],
            header_signature: id.to_string(),
            batches: vec![Batch {
                header: vec![],
                header_signature: format!("{}-batch", id),
                transactions: vec![Transaction {
                    header: vec![],
                    header_signature: format!("{}-txn", id),
                    payload: vec![],
                }],
                trace: false,
            }],
        },
        header: BlockHeader {
            block_num,
            previous_block_id: previous.to_string(),
            signer_public_key: vec![],
            state_root_hash: id.as_bytes().to_vec(),
        },
    }
}

/// A chain that holds the block "parent", and refuses the batch it is told to.
#[derive(Clone)]
struct Chain {
    duplicate: Option<String>,
}

impl BlockManager for Chain {
    fn get(&self, block_ids: &Vec<&String>) -> Vec<Option<BlockPair>> {
        block_ids
            .iter()
            .map(|id| if *id == "parent" { Some(block("parent", 0, "")) } else { None })
            .collect()
    }

    fn validate_no_duplicate_batches(
        &self,
        _branch_head_id: &String,
        batch_ids: &Vec<&String>,
    ) -> Result<(), ChainCommitStateError> {
        match &self.duplicate {
            Some(id) if batch_ids.contains(&id) => {
                Err(ChainCommitStateError::DuplicateBatch(id.clone()))
            }
            _ => Ok(()),
        }
    }

    fn validate_no_duplicate_transactions(
        &self,
        _branch_head_id: &String,
        _transaction_ids: &Vec<&String>,
    ) -> Result<(), ChainCommitStateError> {
        Ok(())
    }

    fn validate_transaction_dependencies(
        &self,
        _branch_head_id: &String,
        _transactions: &Vec<&Transaction>,
    ) -> Result<(), ChainCommitStateError> {
        Ok(())
    }
}

/// Views of the state after the block "parent".
#[derive(Clone)]
struct Views {
    obeyed: bool,
    authorized: bool,
}

struct View(bool);

impl SettingsView for View {
    fn enforce_validation_rules(
        &self,
        _signer_public_key: &Vec<u8>,
        _batches: &Vec<Batch>,
    ) -> bool {
        self.0
    }
}

impl PermissionVerifier for View {
    fn is_batch_signer_authorized(&self, _batch: &Batch) -> Result<bool, ServiceError> {
        Ok(self.0)
    }
}

impl StateViewFactory for Views {
    type Settings = View;

    type Permissions = View;

    fn create_settings_view(&self, state_root: &[u8]) -> Result<View, ServiceError> {
        assert_eq!(state_root, b"parent");
        Ok(View(self.obeyed))
    }

    fn create_permission_verifier(&self, state_root: &[u8]) -> Result<View, ServiceError> {
        assert_eq!(state_root, b"parent");
        Ok(View(self.authorized))
    }
}

/// Executes each batch as one transaction, and ends in the expected state.
#[derive(Clone)]
struct Platform {
    is_valid: bool,
}

struct Run {
    is_valid: bool,
    ending_state_hash: Option<Vec<u8>>,
    batches: Vec<String>,
}

impl Scheduler for Run {
    fn add_batch(
        mut self,
        batch: &Batch,
        expected_state_hash: Option<&Vec<u8>>,
        _required: bool,
    ) -> Result<Self, ServiceError> {
        self.batches.push(batch.header_signature.clone());
        self.ending_state_hash = expected_state_hash.cloned();
        Ok(self)
    }

    fn finalize(self, _unschedule_incomplete: bool) -> Result<Self, ServiceError> {
        Ok(self)
    }

    fn complete(self, _block: bool) -> Result<Option<ExecutionResults>, ServiceError> {
        let is_valid = self.is_valid;
        Ok(Some(ExecutionResults {
            ending_state_hash: self.ending_state_hash,
            batch_results: self
                .batches
                .into_iter()
                .map(|id| {
                    let signature = format!("{}-txn", id);
                    (id, Some(vec![TxnExecutionResult { signature, is_valid, receipt: vec![] }]))
                })
                .collect(),
        }))
    }
}

impl ExecutionPlatform for Platform {
    type Run = Run;

    const NULL_STATE_HASH: &'static [u8] = &[];

    fn create_scheduler(&self, _state_root: &[u8]) -> Result<Run, ServiceError> {
        Ok(Run { is_valid: self.is_valid, ending_state_hash: None, batches: vec![] })
    }
}

/// A handle on a store: all clones lead to the same one.
#[derive(Clone)]
struct Statuses(Arc<Mutex<BlockValidationResultStore>>);

impl Statuses {
    fn new() -> Self {
        Statuses(Arc::new(Mutex::new(BlockValidationResultStore::new())))
    }
}

impl BlockStatusStore for Statuses {
    fn status(&mut self, block_id: &str) -> BlockStatus {
        self.0.lock().unwrap().status(block_id)
    }
}

/// Finds blocks ready in reverse, and holds back two for the block "parent".
#[derive(Clone)]
struct Reversed {
    chain: Chain,
    statuses: Statuses,
}

impl BlockScheduler<Chain, Statuses> for Reversed {
    fn new(block_manager: Chain, block_status_store: Statuses) -> Self {
        Reversed { chain: block_manager, statuses: block_status_store }
    }

    fn schedule(&self, blocks: Vec<BlockPair>) -> Vec<BlockPair> {
        blocks.into_iter().rev().collect()
    }

    fn done(&self, block_id: &String) -> Vec<BlockPair> {
        if block_id == "parent" {
            vec![block("x", 1, "parent"), block("y", 1, "parent")]
        } else {
            vec![]
        }
    }
}

type Validator = BlockValidator<Platform, Chain, Views, Reversed, Statuses, String, u32>;

fn validator(chain: Chain, views: Views, platform: Platform) -> Validator {
    let opened = RefCell::new(0);
    BlockValidator::new(chain, platform, Statuses::new(), views, || {
        let mut n = opened.borrow_mut();
        *n += 1;
        (format!("tx{}", *n), *n)
    })
}

fn good() -> Validator {
    validator(
        Chain { duplicate: None },
        Views { obeyed: true, authorized: true },
        Platform { is_valid: true },
    )
}

fn with_channels(count: u32) -> Validator {
    Validator {
        channels: (0..count).map(|i| (format!("tx{}", i), Some(i))).collect(),
        ..good()
    }
}

fn summary(deliveries: &Vec<(String, BlockPair)>) -> Vec<String> {
    deliveries.iter().map(|(tx, b)| format!("{} {}", tx, b.block.header_signature)).collect()
}

#[test]
fn new_validator_opens_a_channel_for_each_thread() {
    assert_eq!(BLOCK_VALIDATOR_THREAD_NUM, 2);
    assert_eq!(good().channels, vec![("tx1".to_string(), Some(1))]);
}

#[test]
fn new_validator_schedules_by_its_own_blocks_and_store() {
    let mut validator = validator(
        Chain { duplicate: Some("b-batch".to_string()) },
        Views { obeyed: true, authorized: true },
        Platform { is_valid: true },
    );
    assert_eq!(validator.block_scheduler.chain.duplicate, Some("b-batch".to_string()));
    let result = BlockValidationResult::new("b".to_string(), vec![], 0, BlockStatus::Valid);
    validator.block_status_store.0.lock().unwrap().insert(result);
    assert_eq!(validator.block_scheduler.statuses.status("b"), BlockStatus::Valid);
    let mut copy = validator.clone();
    assert_eq!(copy.block_status_store.status("b"), BlockStatus::Valid);
    assert_eq!(copy.block_scheduler.statuses.status("b"), BlockStatus::Valid);
    assert_eq!(validator.block_status_store.status("c"), BlockStatus::Unknown);
}

#[test]
fn start_takes_all_receivers() {
    let mut validator = with_channels(3);
    assert_eq!(
        validator.start(),
        vec![(0, "tx0".to_string()), (1, "tx1".to_string()), (2, "tx2".to_string())]
    );
    assert_eq!(
        validator.channels,
        vec![
            ("tx0".to_string(), None),
            ("tx1".to_string(), None),
            ("tx2".to_string(), None)
        ]
    );
}

#[test]
fn clone_reaches_the_channels_and_has_no_receivers() {
    let copy = with_channels(2).clone();
    assert_eq!(copy.channels, vec![("tx0".to_string(), None), ("tx1".to_string(), None)]);
}

#[test]
fn senders_are_given_in_rotation() {
    let validator = with_channels(3);
    assert_eq!(validator.return_sender(0), ("tx0".to_string(), 1));
    assert_eq!(validator.return_sender(1), ("tx1".to_string(), 2));
    assert_eq!(validator.return_sender(2), ("tx2".to_string(), 0));
    let single = with_channels(1);
    assert_eq!(single.return_sender(0), ("tx0".to_string(), 0));
}

#[test]
fn submitted_blocks_are_handed_out_as_scheduled() {
    let validator = with_channels(3);
    let blocks =
        vec![block("a", 1, ""), block("b", 1, ""), block("c", 1, ""), block("d", 1, "")];
    let (deliveries, next) = validator.submit_blocks_for_verification(blocks, 1);
    assert_eq!(summary(&deliveries), vec!["tx1 d", "tx2 c", "tx0 b", "tx1 a"]);
    assert_eq!(next, 2);
    let (deliveries, next) = validator.submit_blocks_for_verification(vec![], 2);
    assert!(deliveries.is_empty());
    assert_eq!(next, 2);
}

#[test]
fn blocks_that_waited_are_handed_out() {
    let validator = with_channels(2);
    let (deliveries, next) = validator.process_pending(&block("parent", 0, ""), 1);
    assert_eq!(summary(&deliveries), vec!["tx1 x", "tx0 y"]);
    assert_eq!(next, 1);
    let (deliveries, next) = validator.process_pending(&block("other", 0, ""), 1);
    assert!(deliveries.is_empty());
    assert_eq!(next, 1);
}

#[test]
fn every_round_serves_every_channel_once() {
    let validator = with_channels(3);
    let (deliveries, next) = validator
        .hand_out(vec![block("a", 1, ""), block("b", 1, ""), block("c", 1, "")], 2);
    let mut senders: Vec<String> = deliveries.into_iter().map(|(tx, _)| tx).collect();
    senders.sort();
    assert_eq!(senders, vec!["tx0", "tx1", "tx2"]);
    assert_eq!(next, 2);
}

#[test]
fn valid_block_is_remembered() {
    let mut store = BlockValidationResultStore::new();
    assert_eq!(good().validate_block(&block("b", 1, "parent"), &mut store), Ok(()));
    assert_eq!(store.status("b"), BlockStatus::Valid);
    let result = store.get("b").unwrap();
    assert_eq!(result.block_id, "b");
    assert_eq!(result.num_transactions, 1);
    assert_eq!(result.execution_results[0].signature, "b-batch-txn");
}

#[test]
fn first_block_is_validated_without_a_previous_one() {
    let mut store = BlockValidationResultStore::new();
    assert_eq!(good().validate_block(&block("b", 0, "none"), &mut store), Ok(()));
    assert_eq!(store.status("b"), BlockStatus::Valid);
}

fn refused(validator: Validator, block: BlockPair) -> ValidationError {
    let mut store = BlockValidationResultStore::new();
    let error = validator.validate_block(&block, &mut store).unwrap_err();
    assert!(store.get(&block.block.header_signature).is_none());
    error
}

#[test]
fn refused_block_is_not_remembered() {
    let failure = |reason: &str| ValidationError::BlockValidationFailure(reason.to_string());
    let bad = |duplicate: bool, obeyed: bool, authorized: bool| {
        validator(
            Chain { duplicate: if duplicate { Some("b-batch".to_string()) } else { None } },
            Views { obeyed, authorized },
            Platform { is_valid: false },
        )
    };
    // The validations come in their order.
    assert_eq!(
        refused(bad(true, false, false), block("b", 1, "parent")),
        failure("Validation failure, duplicate batch b-batch")
    );
    assert_eq!(
        refused(bad(false, false, false), block("b", 1, "parent")),
        failure("Block b failed validation rules")
    );
    assert_eq!(
        refused(bad(false, true, false), block("b", 1, "parent")),
        failure("Block b failed permission verification: batch b-batch signer is not authorized")
    );
    assert_eq!(
        refused(bad(false, true, true), block("b", 1, "parent")),
        failure(
            "Block b failed validation: batch b-batch was invalid due to transaction b-batch-txn"
        )
    );
    assert_eq!(
        refused(good(), block("b", 1, "unknown")),
        ValidationError::BlockValidationError(
            "During check of on-chain rules for block b, block num was 1, but missing a previous \
             state root"
                .to_string()
        )
    );
}

#[test]
fn recording_an_error_leaves_the_store() {
    let mut store = BlockValidationResultStore::new();
    let error = ValidationError::BlockValidationError("later".to_string());
    assert_eq!(record(Err(error.clone()), &mut store), Err(error));
    let result = BlockValidationResult::new("b".to_string(), vec![], 0, BlockStatus::Valid);
    assert_eq!(record(Ok(result), &mut store), Ok(()));
    assert_eq!(store.status("b"), BlockStatus::Valid);
}

fn job(id: &str) -> Job<&'static str> {
    Job { block: block(id, 1, "parent"), reply_to: "controller" }
}

#[test]
fn thread_waits_validates_or_stops() {
    assert!(matches!(after_receive::<u8>(Received::Timeout, false), Next::Wait));
    assert!(matches!(after_receive::<u8>(Received::Timeout, true), Next::Stop));
    assert!(matches!(after_receive::<u8>(Received::Disconnected, false), Next::Stop));
    assert!(matches!(after_receive::<u8>(Received::Disconnected, true), Next::Stop));
    match after_receive(Received::Job(job("b")), false) {
        Next::Validate(given) => assert_eq!(given.block.block.header_signature, "b"),
        _ => panic!("the block is validated"),
    }
    assert!(matches!(after_receive(Received::Job(job("b")), true), Next::Stop));
}

#[test]
fn judged_block_is_answered() {
    let valid = BlockValidationResult::new("b".to_string(), vec![], 3, BlockStatus::Valid);
    match after_validation(job("b"), Ok(valid)) {
        Delivery::Respond { to, result } => {
            assert_eq!(to, "controller");
            assert_eq!(result.status, BlockStatus::Valid);
            assert_eq!(result.num_transactions, 3);
        }
        Delivery::Retry(_) => panic!("a valid block is answered"),
    }
    let failure = ValidationError::BlockValidationFailure("bad".to_string());
    match after_validation(job("b"), Err(failure)) {
        Delivery::Respond { to, result } => {
            assert_eq!(to, "controller");
            assert_eq!(result.block_id, "b");
            assert_eq!(result.status, BlockStatus::Invalid);
            assert_eq!(result.num_transactions, 0);
            assert!(result.execution_results.is_empty());
        }
        Delivery::Retry(_) => panic!("an invalid block is answered"),
    }
}

#[test]
fn unjudged_block_is_tried_again() {
    let error = ValidationError::BlockValidationError("later".to_string());
    match after_validation(job("b"), Err(error)) {
        Delivery::Retry(again) => {
            assert_eq!(again.block.block.header_signature, "b");
            assert_eq!(again.reply_to, "controller");
        }
        Delivery::Respond { .. } => panic!("an unjudged block is not answered"),
    }
}

#[test]
fn failure_to_send_ends_the_threads() {
    assert!(!after_send(false, true));
    assert!(after_send(false, false));
    assert!(after_send(true, true));
    assert!(after_send(true, false));
}
