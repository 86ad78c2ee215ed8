//! The validations of a block, one after the other.

use vstd::prelude::*;

use crate::block::BlockPair;
use crate::error::ValidationError;
use crate::result::BlockValidationResult;
use crate::service::BlockManager;

verus! {

/// The bytes of a state root, if there is one.
pub open spec fn root_bytes(root: Option<&[u8]>) -> Option<Seq<u8>> {
    match root {
        Some(bytes) => Some(bytes@),
        None => None,
    }
}

/// A validation of blocks. It refuses a block that is invalid with a
/// `BlockValidationFailure`.
pub trait BlockValidation: Send {
    /// What is known of a block that passes.
    type ReturnValue;

    /// Whether the validation can be put to this block at all, given the root of
    /// the state that the block starts from.
    open spec fn accepts(
        &self,
        block: &BlockPair,
        previous_state_root: Option<Seq<u8>>,
    ) -> bool {
        true
    }

    /// Whether the validation may come to this result on the block, given the
    /// root of the state that the block starts from. A validation that does not
    /// say so may come to any.
    open spec fn permits(
        &self,
        block: &BlockPair,
        previous_state_root: Option<Seq<u8>>,
        result: Result<Self::ReturnValue, ValidationError>,
    ) -> bool {
        true
    }

    fn validate_block(
        &self,
        block: &BlockPair,
        previous_state_root: Option<&[u8]>,
    ) -> (result: Result<Self::ReturnValue, ValidationError>)
        requires
            self.accepts(block, root_bytes(previous_state_root)),
        ensures
            self.permits(block, root_bytes(previous_state_root), result),
    ;
}

/// Runs validations on a block, and the validation of its state last.
pub struct BlockValidationProcessor<
    BM: BlockManager,
    V: BlockValidation<ReturnValue = ()>,
    SBV: BlockValidation<ReturnValue = BlockValidationResult>,
> {
    pub block_manager: BM,
    pub validations: Vec<V>,
    pub state_validation: SBV,
}

/// The root of the state after the block that was found first, if one was.
pub open spec fn found_state_root(found: Seq<Option<BlockPair>>) -> Option<Seq<u8>> {
    if found.len() > 0 && found[0] is Some {
        Some(found[0]->0.header.state_root_hash@)
    } else {
        None
    }
}

/// Whether the validations from `next` on, and the one of the state after
/// them, may come to `result`: the first error ends them.
pub open spec fn validated<
    V: BlockValidation<ReturnValue = ()>,
    SBV: BlockValidation<ReturnValue = BlockValidationResult>,
>(
    validations: Seq<V>,
    state_validation: SBV,
    block: &BlockPair,
    root: Option<Seq<u8>>,
    next: nat,
    result: Result<BlockValidationResult, ValidationError>,
) -> bool
    decreases validations.len() - next,
{
    if next < validations.len() {
        exists|outcome: Result<(), ValidationError>| #[trigger]
            validations[next as int].permits(block, root, outcome) && match outcome {
                Ok(()) => validated(validations, state_validation, block, root, next + 1, result),
                Err(error) => result == Err::<BlockValidationResult, ValidationError>(error),
            }
    } else {
        state_validation.permits(block, root, result)
    }
}

/// Whether the validation may let the block pass.
pub open spec fn may_let_pass<V: BlockValidation<ReturnValue = ()>>(
    validation: V,
    block: &BlockPair,
    root: Option<Seq<u8>>,
) -> bool {
    exists|outcome: Result<(), ValidationError>|
        outcome is Ok && #[trigger] validation.permits(block, root, outcome)
}

/// Whether each of the validations before the one at `end` may let the block
/// pass.
pub open spec fn may_reach<V: BlockValidation<ReturnValue = ()>>(
    validations: Seq<V>,
    block: &BlockPair,
    root: Option<Seq<u8>>,
    end: int,
) -> bool {
    forall|i: int| 0 <= i < end ==> may_let_pass(#[trigger] validations[i], block, root)
}

/// Whether every validation, and the one of the state, can be put to the block
/// if it is reached.
pub open spec fn accepted<
    V: BlockValidation<ReturnValue = ()>,
    SBV: BlockValidation<ReturnValue = BlockValidationResult>,
>(
    validations: Seq<V>,
    state_validation: SBV,
    block: &BlockPair,
    root: Option<Seq<u8>>,
) -> bool {
    &&& forall|i: int|
        0 <= i < validations.len() && may_reach(validations, block, root, i) ==> (
        #[trigger] validations[i]).accepts(block, root)
    &&& may_reach(validations, block, root, validations.len() as int) ==> state_validation.accepts(
        block,
        root,
    )
}

/// Takes the root of the previous block's state out of what was found.
pub fn previous_state_root(found: Vec<Option<BlockPair>>) -> (root: Option<Vec<u8>>)
    ensures
        match root {
            Some(bytes) => found_state_root(found@) == Some(bytes@),
            None => found_state_root(found@) is None,
        },
{
    let mut found = found;
    if found.len() == 0 {
        return None;
    }
    match found.swap_remove(0) {
        Some(pair) => Some(pair.header.state_root_hash),
        None => None,
    }
}

impl<
    BM: BlockManager,
    V: BlockValidation<ReturnValue = ()>,
    SBV: BlockValidation<ReturnValue = BlockValidationResult>,
> BlockValidationProcessor<BM, V, SBV> {
    pub fn new(block_manager: BM, validations: Vec<V>, state_validation: SBV) -> (processor: Self)
        ensures
            processor.block_manager == block_manager,
            processor.validations == validations,
            processor.state_validation == state_validation,
    {
        BlockValidationProcessor { block_manager, validations, state_validation }
    }

    /// Whether looking up the previous block may yield this root of its state.
    pub open spec fn may_find(&self, block: &BlockPair, root: Option<Seq<u8>>) -> bool {
        exists|ids: Vec<&String>, found: Vec<Option<BlockPair>>|
            {
                &&& ids@ == seq![&block.header.previous_block_id]
                &&& #[trigger] call_ensures(BM::get, (&self.block_manager, &ids), found)
                &&& root == found_state_root(found@)
            }
    }

    /// Whether the processor can be put to this block.
    pub open spec fn accepts(&self, block: &BlockPair) -> bool {
        forall|root: Option<Seq<u8>>| #[trigger]
            self.may_find(block, root) ==> accepted(
                self.validations@,
                self.state_validation,
                block,
                root,
            )
    }

    /// Whether the processor may come to `result`: the previous block is looked
    /// up, and the validations follow in order, on the root of its state.
    pub open spec fn permits(
        &self,
        block: &BlockPair,
        result: Result<BlockValidationResult, ValidationError>,
    ) -> bool {
        exists|root: Option<Seq<u8>>| #[trigger]
            self.may_find(block, root) && validated(
                self.validations@,
                self.state_validation,
                block,
                root,
                0,
                result,
            )
    }

    pub fn validate_block(&self, block: &BlockPair) -> (result: Result<
        BlockValidationResult,
        ValidationError,
    >)
        requires
            self.accepts(block),
        ensures
            self.permits(block, result),
    {
        let mut ids: Vec<&String> = Vec::new();
        ids.push(&block.header.previous_block_id);
        let found = self.block_manager.get(&ids);
        assert(ids@ =~= seq![&block.header.previous_block_id]);
        let ghost root = found_state_root(found@);
        assert(self.may_find(block, root));
        let previous = previous_state_root(found);
        let state_root: Option<&[u8]> = match &previous {
            Some(bytes) => Some(bytes.as_slice()),
            None => None,
        };
        assert(root_bytes(state_root) == root);

        let mut i: usize = 0;
        while i < self.validations.len()
            invariant
                i <= self.validations@.len(),
                accepted(self.validations@, self.state_validation, block, root),
                root_bytes(state_root) == root,
                forall|j: int|
                    0 <= j < i ==> may_let_pass(#[trigger] self.validations@[j], block, root),
                forall|result: Result<BlockValidationResult, ValidationError>|
                    validated(
                        self.validations@,
                        self.state_validation,
                        block,
                        root,
                        i as nat,
                        result,
                    ) ==> #[trigger] validated(
                        self.validations@,
                        self.state_validation,
                        block,
                        root,
                        0,
                        result,
                    ),
                self.may_find(block, root),
            decreases self.validations@.len() - i,
        {
            assert(may_reach(self.validations@, block, root, i as int));
            let outcome = self.validations[i].validate_block(block, state_root);
            assert(self.validations@[i as int].permits(block, root, outcome));
            match outcome {
                Ok(()) => {
                    assert(may_let_pass(self.validations@[i as int], block, root));
                },
                Err(error) => {
                    let result: Result<BlockValidationResult, ValidationError> = Err(error);
                    assert(validated(
                        self.validations@,
                        self.state_validation,
                        block,
                        root,
                        i as nat,
                        result,
                    ));
                    return result;
                },
            }
            i += 1;
        }
        assert(may_reach(self.validations@, block, root, i as int));
        self.state_validation.validate_block(block, state_root)
    }
}

} // verus!
