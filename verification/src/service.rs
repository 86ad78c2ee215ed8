//! The services that validation relies on.
//!
//! Nothing is assumed of an implementation. The contracts that speak of a
//! service name the call that is made, and say what follows from whatever the
//! service answers to it.

use vstd::prelude::*;

use crate::block::{Batch, BlockPair, Transaction};
use crate::error::{ChainCommitStateError, ServiceError};
use crate::result::TxnExecutionResult;
use crate::store::BlockStatusStore;

verus! {

/// The known blocks, by branch.
pub trait BlockManager: Send {
    /// The blocks with these identifiers, in order; `None` for an unknown one.
    fn get(&self, block_ids: &Vec<&String>) -> Vec<Option<BlockPair>>;

    /// Refuses batches that occur twice, or on the branch that ends in
    /// `branch_head_id`.
    fn validate_no_duplicate_batches(
        &self,
        branch_head_id: &String,
        batch_ids: &Vec<&String>,
    ) -> Result<(), ChainCommitStateError>;

    /// Refuses transactions that occur twice, or on the branch that ends in
    /// `branch_head_id`.
    fn validate_no_duplicate_transactions(
        &self,
        branch_head_id: &String,
        transaction_ids: &Vec<&String>,
    ) -> Result<(), ChainCommitStateError>;

    /// Refuses transactions whose dependencies are neither among them nor on
    /// the branch that ends in `branch_head_id`.
    fn validate_transaction_dependencies(
        &self,
        branch_head_id: &String,
        transactions: &Vec<&Transaction>,
    ) -> Result<(), ChainCommitStateError>;
}

/// Decides which blocks can be validated, and when, by the blocks that are known
/// and by what has been found out of them.
pub trait BlockScheduler<BM: BlockManager, ST: BlockStatusStore>: Sized {
    fn new(block_manager: BM, block_status_store: ST) -> Self;

    /// Takes in blocks, and gives out those that are ready.
    fn schedule(&self, blocks: Vec<BlockPair>) -> Vec<BlockPair>;

    /// Takes note that a block is done, and gives out those that it held up.
    fn done(&self, block_id: &String) -> Vec<BlockPair>;
}

/// The settings of one state.
pub trait SettingsView {
    /// Whether the batches obey the validation rules among the settings.
    fn enforce_validation_rules(
        &self,
        signer_public_key: &Vec<u8>,
        batches: &Vec<Batch>,
    ) -> bool;
}

/// The permissions of one state.
pub trait PermissionVerifier {
    /// Whether the signer of the batch may submit it.
    fn is_batch_signer_authorized(&self, batch: &Batch) -> Result<bool, ServiceError>;
}

/// Opens views of the state with a given root.
pub trait StateViewFactory: Send {
    type Settings: SettingsView;

    type Permissions: PermissionVerifier;

    fn create_settings_view(&self, state_root: &[u8]) -> Result<Self::Settings, ServiceError>;

    fn create_permission_verifier(&self, state_root: &[u8]) -> Result<
        Self::Permissions,
        ServiceError,
    >;
}

/// What the executor made of the batches of a block.
#[derive(Clone, Debug)]
pub struct ExecutionResults {
    /// The root of the state after the last batch.
    pub ending_state_hash: Option<Vec<u8>>,
    /// For each batch its identifier and the reports on its transactions.
    pub batch_results: Vec<(String, Option<Vec<TxnExecutionResult>>)>,
}

/// One run of the executor. Each step hands the run on, or ends it.
pub trait Scheduler: Sized {
    /// Adds a batch, after which the state is to have the expected root.
    fn add_batch(
        self,
        batch: &Batch,
        expected_state_hash: Option<&Vec<u8>>,
        required: bool,
    ) -> Result<Self, ServiceError>;

    /// Declares that no batch follows.
    fn finalize(self, unschedule_incomplete: bool) -> Result<Self, ServiceError>;

    /// The results, if there are any; waits for them if `block` says so.
    fn complete(self, block: bool) -> Result<Option<ExecutionResults>, ServiceError>;
}

/// Executes transactions.
pub trait ExecutionPlatform: Send {
    type Run: Scheduler;

    /// The root of the state before the first block.
    const NULL_STATE_HASH: &'static [u8];

    /// Starts a run on the state with the given root.
    fn create_scheduler(&self, state_root: &[u8]) -> Result<Self::Run, ServiceError>;
}

} // verus!
