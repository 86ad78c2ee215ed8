//! The permissions of those who sign batches.

use vstd::prelude::*;

use crate::block::{Batch, BlockPair};
use crate::error;
use crate::error::{ServiceError, ValidationError};
use crate::processor::BlockValidation;
use crate::service::{PermissionVerifier, StateViewFactory};
use crate::text;
use crate::text::decimal_text;

verus! {

/// Validates that every batch of a block was signed by someone who may, by the
/// permissions in the state that the block starts from. The first block of a
/// chain needs none.
pub struct PermissionValidation<VF: StateViewFactory> {
    pub state_view_factory: VF,
}

/// No state to take the permissions from.
pub open spec fn missing_root(block: &BlockPair) -> error::ErrorView {
    error::ErrorView::BlockValidationError(
        "During permission check of block "@ + block.id() + " block_num is "@ + text::decimal(
            block.header.block_num as nat,
        ) + " but missing aprevious state root"@,
    )
}

/// The permissions of that state cannot be opened.
pub open spec fn unknown_state(block: &BlockPair, failure: ServiceError) -> error::ErrorView {
    error::ErrorView::BlockValidationError(
        "During permission check of block ("@ + block.id() + ", "@ + text::decimal(
            block.header.block_num as nat,
        ) + ") state root was not found in state: "@ + failure.display@,
    )
}

/// The verdict on one batch, by what the permissions say of its signer.
pub open spec fn signer_verdict(
    block: &BlockPair,
    batch: &Batch,
    answer: Result<bool, ServiceError>,
) -> Result<(), error::ErrorView> {
    match answer {
        Ok(authorized) => if authorized {
            Ok(())
        } else {
            Err(
                error::ErrorView::BlockValidationFailure(
                    "Block "@ + block.id() + " failed permission verification: batch "@
                        + batch.header_signature@ + " signer is not authorized"@,
                ),
            )
        },
        Err(failure) => Err(
            error::ErrorView::BlockValidationError(
                "During permission check of block ("@ + block.id() + ", "@ + text::decimal(
                    block.header.block_num as nat,
                ) + "), unable to read permissions: "@ + failure.display@,
            ),
        ),
    }
}

/// Whether the permissions may bring about this verdict on the batches of the
/// block from `next` on: the first one that does not pass decides.
pub open spec fn decided_by<P: PermissionVerifier>(
    permissions: P,
    block: &BlockPair,
    next: nat,
    verdict: Result<(), error::ErrorView>,
) -> bool
    decreases block.block.batches@.len() - next,
{
    if next < block.block.batches@.len() {
        let batch = &block.block.batches@[next as int];
        exists|answer: Result<bool, ServiceError>| #[trigger]
            call_ensures(P::is_batch_signer_authorized, (&permissions, batch), answer) && if (
            signer_verdict(block, batch, answer) is Ok) {
                decided_by(permissions, block, next + 1, verdict)
            } else {
                verdict == signer_verdict(block, batch, answer)
            }
    } else {
        verdict is Ok
    }
}

fn missing_root_error(block: &BlockPair) -> (error: ValidationError)
    ensures
        error@ == missing_root(block),
{
    let mut reason = "During permission check of block ".to_owned();
    reason.append(block.block.header_signature.as_str());
    reason.append(" block_num is ");
    reason.append(decimal_text(block.header.block_num).as_str());
    reason.append(" but missing aprevious state root");
    ValidationError::BlockValidationError(reason)
}

fn unknown_state_error(block: &BlockPair, failure: &ServiceError) -> (error: ValidationError)
    ensures
        error@ == unknown_state(block, *failure),
{
    let mut reason = "During permission check of block (".to_owned();
    reason.append(block.block.header_signature.as_str());
    reason.append(", ");
    reason.append(decimal_text(block.header.block_num).as_str());
    reason.append(") state root was not found in state: ");
    reason.append(failure.display.as_str());
    ValidationError::BlockValidationError(reason)
}

/// Turns what the permissions say of the signer of a batch into a verdict.
pub fn judge_signer(
    block: &BlockPair,
    batch: &Batch,
    answer: Result<bool, ServiceError>,
) -> (result: Result<(), ValidationError>)
    ensures
        error::verdict(result) == signer_verdict(block, batch, answer),
{
    match answer {
        Ok(authorized) => {
            if authorized {
                Ok(())
            } else {
                let mut reason = "Block ".to_owned();
                reason.append(block.block.header_signature.as_str());
                reason.append(" failed permission verification: batch ");
                reason.append(batch.header_signature.as_str());
                reason.append(" signer is not authorized");
                Err(ValidationError::BlockValidationFailure(reason))
            }
        },
        Err(failure) => {
            let mut reason = "During permission check of block (".to_owned();
            reason.append(block.block.header_signature.as_str());
            reason.append(", ");
            reason.append(decimal_text(block.header.block_num).as_str());
            reason.append("), unable to read permissions: ");
            reason.append(failure.display.as_str());
            Err(ValidationError::BlockValidationError(reason))
        },
    }
}

/// Asks for the signer of each batch, and stops at the first that may not.
fn check_signers<P: PermissionVerifier>(permissions: &P, block: &BlockPair) -> (result: Result<
    (),
    ValidationError,
>)
    ensures
        decided_by(*permissions, block, 0, error::verdict(result)),
{
    let batches = &block.block.batches;
    let mut i: usize = 0;
    while i < batches.len()
        invariant
            i <= batches@.len(),
            batches == &block.block.batches,
            forall|verdict: Result<(), error::ErrorView>|
                decided_by(*permissions, block, i as nat, verdict) ==> #[trigger] decided_by(
                    *permissions,
                    block,
                    0,
                    verdict,
                ),
        decreases batches@.len() - i,
    {
        let batch = &batches[i];
        let answer = permissions.is_batch_signer_authorized(batch);
        let ghost answered = answer;
        let result = judge_signer(block, batch, answer);
        assert(call_ensures(P::is_batch_signer_authorized, (permissions, batch), answered));
        match result {
            Ok(()) => {},
            Err(error) => {
                let result: Result<(), ValidationError> = Err(error);
                assert(decided_by(*permissions, block, i as nat, error::verdict(result)));
                return result;
            },
        }
        i += 1;
    }
    Ok(())
}

impl<VF: StateViewFactory> PermissionValidation<VF> {
    pub fn new(state_view_factory: VF) -> (validation: Self)
        ensures
            validation.state_view_factory == state_view_factory,
    {
        PermissionValidation { state_view_factory }
    }

    /// Whether the factory may open these permissions of the state with this
    /// root.
    pub open spec fn opens(
        &self,
        root: Seq<u8>,
        view: Result<VF::Permissions, ServiceError>,
    ) -> bool {
        exists|state_root: &[u8]|
            state_root@ == root && #[trigger] call_ensures(
                VF::create_permission_verifier,
                (&self.state_view_factory, state_root),
                view,
            )
    }

    /// Whether the state with this root may bring about this verdict.
    pub open spec fn judges(
        &self,
        block: &BlockPair,
        root: Seq<u8>,
        verdict: Result<(), error::ErrorView>,
    ) -> bool {
        exists|view: Result<VF::Permissions, ServiceError>| #[trigger]
            self.opens(root, view) && match view {
                Err(failure) => verdict == Err::<(), error::ErrorView>(
                    unknown_state(block, failure),
                ),
                Ok(permissions) => decided_by(permissions, block, 0, verdict),
            }
    }
}

impl<VF: StateViewFactory> BlockValidation for PermissionValidation<VF> {
    type ReturnValue = ();

    open spec fn accepts(
        &self,
        block: &BlockPair,
        previous_state_root: Option<Seq<u8>>,
    ) -> bool {
        true
    }

    /// The first block passes. Any other needs a state to start from, whose
    /// permissions decide on one batch after the other.
    open spec fn permits(
        &self,
        block: &BlockPair,
        previous_state_root: Option<Seq<u8>>,
        result: Result<(), ValidationError>,
    ) -> bool {
        if block.header.block_num == 0 {
            result is Ok
        } else {
            match previous_state_root {
                None => error::verdict(result) == Err::<(), error::ErrorView>(missing_root(block)),
                Some(root) => self.judges(block, root, error::verdict(result)),
            }
        }
    }

    fn validate_block(
        &self,
        block: &BlockPair,
        previous_state_root: Option<&[u8]>,
    ) -> (result: Result<(), ValidationError>) {
        if block.header.block_num == 0 {
            return Ok(());
        }
        let state_root = match previous_state_root {
            Some(state_root) => state_root,
            None => {
                return Err(missing_root_error(block));
            },
        };
        let view = self.state_view_factory.create_permission_verifier(state_root);
        assert(self.opens(state_root@, view));
        match view {
            Err(failure) => Err(unknown_state_error(block, &failure)),
            Ok(permissions) => check_signers(&permissions, block),
        }
    }
}

} // verus!
