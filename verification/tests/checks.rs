use std::cell::RefCell;

use block_validator::block::{Batch, Block, BlockHeader, BlockPair, Transaction};
use block_validator::duplicates::DuplicatesAndDependenciesValidation;
use block_validator::error::{ChainCommitStateError, ServiceError, ValidationError};
use block_validator::permission::{judge_signer, PermissionValidation};
use block_validator::processor::BlockValidation;
use block_validator::rules::{judge_rules, OnChainRulesValidation};
use block_validator::service::{BlockManager, PermissionVerifier, SettingsView, StateViewFactory};
use block_validator::text::decimal_text;

fn transaction(id: &str) -> Transaction {
    Transaction { header: vec![], header_signature: id.to_string(), payload: vec![] }
}

fn batch(id: &str, transactions: Vec<&str>) -> Batch {
    Batch {
        header: vec![],
        header_signature: id.to_string(),
        transactions: transactions.into_iter().map(transaction).collect(),
        trace: false,
    }
}

fn block(block_num: u64, batches: Vec<Batch>) -> BlockPair {
    BlockPair {
        block: Block { header: vec![], header_signature: "the-block".to_string(), batches },
        header: BlockHeader {
            block_num,
            previous_block_id: "previous".to_string(),
            signer_public_key: vec![9],
            state_root_hash: vec![],
        },
    }
}

fn failure(reason: &str) -> ValidationError {
    ValidationError::BlockValidationFailure(reason.to_string())
}

fn error(reason: &str) -> ValidationError {
    ValidationError::BlockValidationError(reason.to_string())
}

fn trouble() -> ServiceError {
    ServiceError { display: "no luck".to_string(), debug: "NoLuck(3)".to_string() }
}

#[test]
fn chain_refusals_become_validation_errors() {
    assert_eq!(
        ValidationError::from(ChainCommitStateError::DuplicateBatch("b1".to_string())),
        failure("Validation failure, duplicate batch b1")
    );
    assert_eq!(
        ValidationError::from(ChainCommitStateError::DuplicateTransaction("t1".to_string())),
        failure("Validation failure, duplicate transaction t1")
    );
    assert_eq!(
        ValidationError::from(ChainCommitStateError::MissingDependency("t2".to_string())),
        failure("Validation failure, missing dependency t2")
    );
    assert_eq!(
        ValidationError::from(ChainCommitStateError::Error("disk".to_string())),
        error("disk")
    );
}

#[test]
fn decimal_notation() {
    assert_eq!(decimal_text(0), "0");
    assert_eq!(decimal_text(9), "9");
    assert_eq!(decimal_text(10), "10");
    assert_eq!(decimal_text(1234567890), "1234567890");
    assert_eq!(decimal_text(u64::MAX), u64::MAX.to_string());
}

/// Answers as told, and writes down what it was asked.
struct Manager {
    batches: Result<(), ChainCommitStateError>,
    transactions: Result<(), ChainCommitStateError>,
    dependencies: Result<(), ChainCommitStateError>,
    asked: RefCell<Vec<String>>,
}

impl Manager {
    fn write_down(&self, kind: &str, head: &String, ids: Vec<String>) {
        self.asked.borrow_mut().push(format!("{} {} {}", kind, head, ids.join(",")));
    }
}

impl BlockManager for Manager {
    fn get(&self, _block_ids: &Vec<&String>) -> Vec<Option<BlockPair>> {
        unreachable!()
    }

    fn validate_no_duplicate_batches(
        &self,
        branch_head_id: &String,
        batch_ids: &Vec<&String>,
    ) -> Result<(), ChainCommitStateError> {
        self.write_down(
            "batches",
            branch_head_id,
            batch_ids.iter().map(|id| id.to_string()).collect(),
        );
        self.batches.clone()
    }

    fn validate_no_duplicate_transactions(
        &self,
        branch_head_id: &String,
        transaction_ids: &Vec<&String>,
    ) -> Result<(), ChainCommitStateError> {
        self.write_down(
            "transactions",
            branch_head_id,
            transaction_ids.iter().map(|id| id.to_string()).collect(),
        );
        self.transactions.clone()
    }

    fn validate_transaction_dependencies(
        &self,
        branch_head_id: &String,
        transactions: &Vec<&Transaction>,
    ) -> Result<(), ChainCommitStateError> {
        self.write_down(
            "dependencies",
            branch_head_id,
            transactions.iter().map(|t| t.header_signature.clone()).collect(),
        );
        self.dependencies.clone()
    }
}

fn manager() -> Manager {
    Manager {
        batches: Ok(()),
        transactions: Ok(()),
        dependencies: Ok(()),
        asked: RefCell::new(vec![]),
    }
}

fn two_batches() -> Vec<Batch> {
    vec![batch("b1", vec!["t1", "t2"]), batch("b2", vec![]), batch("b3", vec!["t3"])]
}

#[test]
fn chain_is_asked_for_everything_in_the_block() {
    let validation = DuplicatesAndDependenciesValidation::new(manager());
    assert_eq!(validation.validate_block(&block(1, two_batches()), None), Ok(()));
    assert_eq!(
        *validation.block_manager.asked.borrow(),
        vec![
            "batches previous b1,b2,b3".to_string(),
            "transactions previous t1,t2,t3".to_string(),
            "dependencies previous t1,t2,t3".to_string(),
        ]
    );
}

#[test]
fn duplicate_batch_is_refused_first() {
    let validation = DuplicatesAndDependenciesValidation::new(Manager {
        batches: Err(ChainCommitStateError::DuplicateBatch("b1".to_string())),
        transactions: Err(ChainCommitStateError::DuplicateTransaction("t1".to_string())),
        ..manager()
    });
    assert_eq!(
        validation.validate_block(&block(1, two_batches()), None),
        Err(failure("Validation failure, duplicate batch b1"))
    );
    assert_eq!(validation.block_manager.asked.borrow().len(), 1);
}

#[test]
fn duplicate_transaction_is_refused_next() {
    let validation = DuplicatesAndDependenciesValidation::new(Manager {
        transactions: Err(ChainCommitStateError::DuplicateTransaction("t1".to_string())),
        ..manager()
    });
    assert_eq!(
        validation.validate_block(&block(1, two_batches()), Some(&[1])),
        Err(failure("Validation failure, duplicate transaction t1"))
    );
    assert_eq!(validation.block_manager.asked.borrow().len(), 2);
}

#[test]
fn missing_dependency_and_chain_error_are_refused_last() {
    let validation = DuplicatesAndDependenciesValidation::new(Manager {
        dependencies: Err(ChainCommitStateError::MissingDependency("t0".to_string())),
        ..manager()
    });
    assert_eq!(
        validation.validate_block(&block(1, two_batches()), None),
        Err(failure("Validation failure, missing dependency t0"))
    );
    let validation = DuplicatesAndDependenciesValidation::new(Manager {
        dependencies: Err(ChainCommitStateError::Error("gone".to_string())),
        ..manager()
    });
    assert_eq!(validation.validate_block(&block(1, two_batches()), None), Err(error("gone")));
}

/// Permissions and settings of a state that has the root `[7]`.
struct Factory {
    obeyed: bool,
    unauthorized: Option<String>,
    unreadable: Option<String>,
}

struct Settings(bool);

impl SettingsView for Settings {
    fn enforce_validation_rules(
        &self,
        signer_public_key: &Vec<u8>,
        batches: &Vec<Batch>,
    ) -> bool {
        assert_eq!(*signer_public_key, vec![9]);
        assert_eq!(batches.len(), 3);
        self.0
    }
}

struct Permissions {
    unauthorized: Option<String>,
    unreadable: Option<String>,
}

impl PermissionVerifier for Permissions {
    fn is_batch_signer_authorized(&self, batch: &Batch) -> Result<bool, ServiceError> {
        if self.unreadable.as_ref() == Some(&batch.header_signature) {
            return Err(trouble());
        }
        Ok(self.unauthorized.as_ref() != Some(&batch.header_signature))
    }
}

impl StateViewFactory for Factory {
    type Settings = Settings;

    type Permissions = Permissions;

    fn create_settings_view(&self, state_root: &[u8]) -> Result<Settings, ServiceError> {
        if state_root == [7] {
            Ok(Settings(self.obeyed))
        } else {
            Err(trouble())
        }
    }

    fn create_permission_verifier(&self, state_root: &[u8]) -> Result<Permissions, ServiceError> {
        if state_root == [7] {
            Ok(Permissions {
                unauthorized: self.unauthorized.clone(),
                unreadable: self.unreadable.clone(),
            })
        } else {
            Err(trouble())
        }
    }
}

fn factory() -> Factory {
    Factory { obeyed: true, unauthorized: None, unreadable: None }
}

#[test]
fn first_block_needs_neither_rules_nor_permissions() {
    let rules = OnChainRulesValidation::new(Factory { obeyed: false, ..factory() });
    assert_eq!(rules.validate_block(&block(0, two_batches()), None), Ok(()));
    assert_eq!(rules.validate_block(&block(0, two_batches()), Some(&[7])), Ok(()));
    let permission = PermissionValidation::new(Factory {
        unauthorized: Some("b1".to_string()),
        ..factory()
    });
    assert_eq!(permission.validate_block(&block(0, two_batches()), None), Ok(()));
    assert_eq!(permission.validate_block(&block(0, two_batches()), Some(&[7])), Ok(()));
}

#[test]
fn rules_of_the_previous_state_decide() {
    let rules = OnChainRulesValidation::new(factory());
    assert_eq!(rules.validate_block(&block(1, two_batches()), Some(&[7])), Ok(()));
    let rules = OnChainRulesValidation::new(Factory { obeyed: false, ..factory() });
    assert_eq!(
        rules.validate_block(&block(1, two_batches()), Some(&[7])),
        Err(failure("Block the-block failed validation rules"))
    );
}

#[test]
fn rules_need_a_readable_state() {
    let rules = OnChainRulesValidation::new(factory());
    assert_eq!(
        rules.validate_block(&block(12, two_batches()), None),
        Err(error(
            "During check of on-chain rules for block the-block, block num was 12, but missing a \
             previous state root"
        ))
    );
    assert_eq!(
        rules.validate_block(&block(12, two_batches()), Some(&[8])),
        Err(error("During validate_on_chain_rules, error creating settings view: NoLuck(3)"))
    );
}

#[test]
fn rules_verdicts() {
    assert_eq!(judge_rules(&block(1, vec![]), true), Ok(()));
    assert_eq!(
        judge_rules(&block(1, vec![]), false),
        Err(failure("Block the-block failed validation rules"))
    );
}

#[test]
fn permissions_of_the_previous_state_decide() {
    let permission = PermissionValidation::new(factory());
    assert_eq!(permission.validate_block(&block(3, two_batches()), Some(&[7])), Ok(()));
    assert_eq!(permission.validate_block(&block(3, vec![]), Some(&[7])), Ok(()));
    let permission = PermissionValidation::new(Factory {
        unauthorized: Some("b2".to_string()),
        unreadable: Some("b3".to_string()),
        ..factory()
    });
    assert_eq!(
        permission.validate_block(&block(3, two_batches()), Some(&[7])),
        Err(failure(
            "Block the-block failed permission verification: batch b2 signer is not authorized"
        ))
    );
}

#[test]
fn permissions_need_a_readable_state() {
    let permission = PermissionValidation::new(Factory {
        unauthorized: Some("b3".to_string()),
        unreadable: Some("b2".to_string()),
        ..factory()
    });
    assert_eq!(
        permission.validate_block(&block(305, two_batches()), None),
        Err(error(
            "During permission check of block the-block block_num is 305 but missing aprevious \
             state root"
        ))
    );
    assert_eq!(
        permission.validate_block(&block(305, two_batches()), Some(&[])),
        Err(error(
            "During permission check of block (the-block, 305) state root was not found in state: \
             no luck"
        ))
    );
    assert_eq!(
        permission.validate_block(&block(305, two_batches()), Some(&[7])),
        Err(error(
            "During permission check of block (the-block, 305), unable to read permissions: no luck"
        ))
    );
}

#[test]
fn signer_verdicts() {
    let signed = batch("b1", vec![]);
    assert_eq!(judge_signer(&block(1, vec![]), &signed, Ok(true)), Ok(()));
    assert_eq!(
        judge_signer(&block(1, vec![]), &signed, Ok(false)),
        Err(failure(
            "Block the-block failed permission verification: batch b1 signer is not authorized"
        ))
    );
    assert_eq!(
        judge_signer(&block(1, vec![]), &signed, Err(trouble())),
        Err(error(
            "During permission check of block (the-block, 1), unable to read permissions: no luck"
        ))
    );
}
