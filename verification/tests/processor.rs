use std::sync::Mutex;

use block_validator::block::{Batch, Block, BlockHeader, BlockPair, Transaction};
use block_validator::error::{ChainCommitStateError, ValidationError};
use block_validator::processor::{BlockValidation, BlockValidationProcessor};
use block_validator::result::{BlockStatus, BlockValidationResult};
use block_validator::service::BlockManager;

const NULL_BLOCK_IDENTIFIER: &str = "0000000000000000";

/// A block manager that knows the blocks it was given.
struct Blocks(Vec<BlockPair>);

impl Blocks {
    fn new() -> Self {
        Blocks(vec![])
    }
}

impl BlockManager for Blocks {
    fn get(&self, block_ids: &Vec<&String>) -> Vec<Option<BlockPair>> {
        block_ids
            .iter()
            .map(|id| self.0.iter().find(|b| &b.block.header_signature == *id).cloned())
            .collect()
    }

    fn validate_no_duplicate_batches(
        &self,
        _branch_head_id: &String,
        _batch_ids: &Vec<&String>,
    ) -> Result<(), ChainCommitStateError> {
        unreachable!()
    }

    fn validate_no_duplicate_transactions(
        &self,
        _branch_head_id: &String,
        _transaction_ids: &Vec<&String>,
    ) -> Result<(), ChainCommitStateError> {
        unreachable!()
    }

    fn validate_transaction_dependencies(
        &self,
        _branch_head_id: &String,
        _transactions: &Vec<&Transaction>,
    ) -> Result<(), ChainCommitStateError> {
        unreachable!()
    }
}

/// Always comes to the same result.
struct Mock1<R: Clone> {
    result: R,
}

impl<R: Clone> Mock1<R> {
    fn new(result: R) -> Self {
        Mock1 { result }
    }
}

impl BlockValidation for Mock1<Result<BlockValidationResult, ValidationError>> {
    type ReturnValue = BlockValidationResult;

    fn validate_block(
        &self,
        _block: &BlockPair,
        _previous_state_root: Option<&[u8]>,
    ) -> Result<BlockValidationResult, ValidationError> {
        self.result.clone()
    }
}

/// Comes to one result at first, and to another one every other time.
struct Mock2<R: Clone> {
    first: R,
    every_other: R,
    called: Mutex<bool>,
}

impl<R: Clone> Mock2<R> {
    fn new(first: R, every_other: R) -> Self {
        Mock2 { first, every_other, called: Mutex::new(false) }
    }
}

/// The mocks that stand for validations without a value of their own.
enum Mock {
    One(Mock1<Result<(), ValidationError>>),
    Two(Mock2<Result<(), ValidationError>>),
    /// Fails unless it is given this state root.
    Root(Option<Vec<u8>>),
}

impl BlockValidation for Mock {
    type ReturnValue = ();

    fn validate_block(
        &self,
        _block: &BlockPair,
        previous_state_root: Option<&[u8]>,
    ) -> Result<(), ValidationError> {
        match self {
            Mock::One(mock) => mock.result.clone(),
            Mock::Two(mock) => {
                let mut called = mock.called.lock().expect("Error acquiring Mock2 lock");
                if *called {
                    return mock.every_other.clone();
                }
                *called = true;
                mock.first.clone()
            }
            Mock::Root(root) => {
                if root.as_deref() == previous_state_root {
                    Ok(())
                } else {
                    Err(ValidationError::BlockValidationError("wrong root".to_string()))
                }
            }
        }
    }
}

fn create_block(id: &str, previous_block_id: &str, batches: Vec<Batch>) -> BlockPair {
    BlockPair {
        block: Block { header: vec![], header_signature: id.to_string(), batches },
        header: BlockHeader {
            block_num: 0,
            previous_block_id: previous_block_id.to_string(),
            signer_public_key: vec![],
            state_root_hash: vec![],
        },
    }
}

fn valid() -> Mock1<Result<BlockValidationResult, ValidationError>> {
    Mock1::new(Ok(BlockValidationResult::new("".into(), vec![], 0, BlockStatus::Valid)))
}

fn failure(reason: &str) -> ValidationError {
    ValidationError::BlockValidationFailure(reason.to_string())
}

#[test]
fn test_validation_processor_genesis() {
    let block_manager = Blocks::new();
    let block_a = create_block("a", NULL_BLOCK_IDENTIFIER, vec![]);

    let validation1 = Mock::One(Mock1::new(Ok(())));
    let validation2 = Mock::Two(Mock2::new(Ok(()), Ok(())));
    let validations = vec![validation1, validation2];
    let state_block_validation = Mock1::new(Ok(BlockValidationResult::new(
        "".into(),
        vec![],
        0,
        BlockStatus::Valid,
    )));

    let validation_processor =
        BlockValidationProcessor::new(block_manager, validations, state_block_validation);
    assert!(validation_processor.validate_block(&block_a).is_ok());
}

#[test]
fn processor_gives_the_result_of_the_state_validation() {
    let result = BlockValidationResult::new("b1".into(), vec![], 7, BlockStatus::Valid);
    let processor = BlockValidationProcessor::new(
        Blocks::new(),
        vec![Mock::One(Mock1::new(Ok(())))],
        Mock1::new(Ok(result)),
    );
    let given = processor.validate_block(&create_block("a", "", vec![])).unwrap();
    assert_eq!(given.block_id, "b1");
    assert_eq!(given.num_transactions, 7);
    assert_eq!(given.status, BlockStatus::Valid);
}

#[test]
fn processor_stops_at_the_first_error() {
    let processor = BlockValidationProcessor::new(
        Blocks::new(),
        vec![
            Mock::One(Mock1::new(Ok(()))),
            Mock::One(Mock1::new(Err(failure("second")))),
            Mock::One(Mock1::new(Err(failure("third")))),
        ],
        valid(),
    );
    assert_eq!(
        processor.validate_block(&create_block("a", "", vec![])).unwrap_err(),
        failure("second")
    );
}

#[test]
fn processor_lets_the_state_validation_fail() {
    let processor = BlockValidationProcessor::new(
        Blocks::new(),
        vec![Mock::One(Mock1::new(Ok(())))],
        Mock1::new(Err(failure("state"))),
    );
    assert_eq!(
        processor.validate_block(&create_block("a", "", vec![])).unwrap_err(),
        failure("state")
    );
}

#[test]
fn processor_asks_anew_for_each_block() {
    let processor = BlockValidationProcessor::new(
        Blocks::new(),
        vec![Mock::Two(Mock2::new(Ok(()), Err(failure("again"))))],
        valid(),
    );
    let block = create_block("a", "", vec![]);
    assert!(processor.validate_block(&block).is_ok());
    assert_eq!(processor.validate_block(&block).unwrap_err(), failure("again"));
}

#[test]
fn processor_hands_on_the_state_root_of_the_previous_block() {
    let mut previous = create_block("p", "", vec![]);
    previous.header.state_root_hash = vec![1, 2, 3];
    let processor = BlockValidationProcessor::new(
        Blocks(vec![create_block("q", "", vec![]), previous]),
        vec![Mock::Root(Some(vec![1, 2, 3]))],
        valid(),
    );
    assert!(processor.validate_block(&create_block("a", "p", vec![])).is_ok());
    assert!(processor.validate_block(&create_block("a", "q", vec![])).is_err());
    assert!(processor.validate_block(&create_block("a", "unknown", vec![])).is_err());
}

#[test]
fn processor_hands_on_no_state_root_of_an_unknown_block() {
    let processor = BlockValidationProcessor::new(Blocks::new(), vec![Mock::Root(None)], valid());
    assert!(processor.validate_block(&create_block("a", "p", vec![])).is_ok());
}
