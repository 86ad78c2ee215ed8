//! No batch and no transaction twice, and no transaction without what it
//! depends on.

use vstd::prelude::*;

use crate::block;
use crate::block::{BlockPair, Transaction};
use crate::error;
use crate::error::{ChainCommitStateError, ValidationError};
use crate::processor::BlockValidation;
use crate::service::BlockManager;

verus! {

/// Validates the contents of a block against the branch that it extends.
pub struct DuplicatesAndDependenciesValidation<BM: BlockManager> {
    pub block_manager: BM,
}

impl<BM: BlockManager> DuplicatesAndDependenciesValidation<BM> {
    pub fn new(block_manager: BM) -> (validation: Self)
        ensures
            validation.block_manager == block_manager,
    {
        DuplicatesAndDependenciesValidation { block_manager }
    }

    /// Whether the manager may answer so, asked for the batches of the block.
    pub open spec fn batches_answer(
        &self,
        block: &BlockPair,
        answer: Result<(), ChainCommitStateError>,
    ) -> bool {
        exists|ids: Vec<&String>|
            block::are_batch_ids(ids@, block.block.batches@) && #[trigger] call_ensures(
                BM::validate_no_duplicate_batches,
                (&self.block_manager, &block.header.previous_block_id, &ids),
                answer,
            )
    }

    /// Whether the manager may answer so, asked for the transactions of the
    /// block.
    pub open spec fn transactions_answer(
        &self,
        block: &BlockPair,
        answer: Result<(), ChainCommitStateError>,
    ) -> bool {
        exists|ids: Vec<&String>|
            block::are_transaction_ids(ids@, block::transactions_in(block.block.batches@))
                && #[trigger] call_ensures(
                BM::validate_no_duplicate_transactions,
                (&self.block_manager, &block.header.previous_block_id, &ids),
                answer,
            )
    }

    /// Whether the manager may answer so, asked for what the transactions of
    /// the block depend on.
    pub open spec fn dependencies_answer(
        &self,
        block: &BlockPair,
        answer: Result<(), ChainCommitStateError>,
    ) -> bool {
        exists|refs: Vec<&Transaction>|
            block::refer_to(refs@, block::transactions_in(block.block.batches@))
                && #[trigger] call_ensures(
                BM::validate_transaction_dependencies,
                (&self.block_manager, &block.header.previous_block_id, &refs),
                answer,
            )
    }
}

impl<BM: BlockManager> BlockValidation for DuplicatesAndDependenciesValidation<BM> {
    type ReturnValue = ();

    open spec fn accepts(
        &self,
        block: &BlockPair,
        previous_state_root: Option<Seq<u8>>,
    ) -> bool {
        true
    }

    /// The manager is asked for the batches, for the transactions and for the
    /// dependencies, in this order; the first refusal is the verdict.
    open spec fn permits(
        &self,
        block: &BlockPair,
        previous_state_root: Option<Seq<u8>>,
        result: Result<(), ValidationError>,
    ) -> bool {
        exists|batches: Result<(), ChainCommitStateError>| #[trigger]
            self.batches_answer(block, batches) && match batches {
                Err(refused) => error::verdict(result) == Err::<(), error::ErrorView>(
                    error::refusal(refused),
                ),
                Ok(()) => exists|transactions: Result<(), ChainCommitStateError>| #[trigger]
                    self.transactions_answer(block, transactions) && match transactions {
                        Err(refused) => error::verdict(result) == Err::<(), error::ErrorView>(
                            error::refusal(refused),
                        ),
                        Ok(()) => exists|dependencies: Result<(), ChainCommitStateError>| #[trigger]
                            self.dependencies_answer(block, dependencies) && match dependencies {
                                Err(refused) => error::verdict(result) == Err::<
                                    (),
                                    error::ErrorView,
                                >(error::refusal(refused)),
                                Ok(()) => result is Ok,
                            },
                    },
            }
    }

    fn validate_block(
        &self,
        block: &BlockPair,
        previous_state_root: Option<&[u8]>,
    ) -> (result: Result<(), ValidationError>) {
        let branch_head_id = &block.header.previous_block_id;
        let batches = &block.block.batches;

        let batch_ids = block::batch_ids(batches);
        let answer = self.block_manager.validate_no_duplicate_batches(branch_head_id, &batch_ids);
        assert(self.batches_answer(block, answer));
        match answer {
            Ok(()) => {},
            Err(refused) => {
                return Err(ValidationError::from(refused));
            },
        }

        let transaction_ids = block::transaction_ids(batches);
        let answer = self.block_manager.validate_no_duplicate_transactions(
            branch_head_id,
            &transaction_ids,
        );
        assert(self.transactions_answer(block, answer));
        match answer {
            Ok(()) => {},
            Err(refused) => {
                return Err(ValidationError::from(refused));
            },
        }

        let transactions = block::transactions(batches);
        let answer = self.block_manager.validate_transaction_dependencies(
            branch_head_id,
            &transactions,
        );
        assert(self.dependencies_answer(block, answer));
        match answer {
            Ok(()) => Ok(()),
            Err(refused) => Err(ValidationError::from(refused)),
        }
    }
}

} // verus!
