//! What the checks before the execution of a block ask, and what they make of
//! the answers.

use vstd::prelude::*;

use crate::block::{Batch, BlockPair, Transaction};
use crate::block_laws;
use crate::duplicates::DuplicatesAndDependenciesValidation;
use crate::error;
use crate::error::{ChainCommitStateError, ServiceError, ValidationError};
use crate::permission;
use crate::permission::PermissionValidation;
use crate::processor::BlockValidation;
use crate::rules;
use crate::rules::OnChainRulesValidation;
use crate::service::{BlockManager, PermissionVerifier, SettingsView, StateViewFactory};
use crate::text;

verus! {

/// Whether the error says that the block is invalid, in these words.
pub open spec fn is_failure(error: ValidationError, words: Seq<char>) -> bool {
    error matches ValidationError::BlockValidationFailure(reason) && reason@ == words
}

/// Whether the error says that the block could not be judged, in these words.
pub open spec fn is_trouble(error: ValidationError, words: Seq<char>) -> bool {
    error matches ValidationError::BlockValidationError(reason) && reason@ == words
}

/// Whether the error is what becomes of a refusal by the chain: the block is
/// invalid for a duplicate or a missing dependency, which is named, and could not
/// be judged otherwise.
pub open spec fn conveys(error: ValidationError, refused: ChainCommitStateError) -> bool {
    match refused {
        ChainCommitStateError::DuplicateBatch(id) => is_failure(
            error,
            "Validation failure, duplicate batch "@ + id@,
        ),
        ChainCommitStateError::DuplicateTransaction(id) => is_failure(
            error,
            "Validation failure, duplicate transaction "@ + id@,
        ),
        ChainCommitStateError::MissingDependency(id) => is_failure(
            error,
            "Validation failure, missing dependency "@ + id@,
        ),
        ChainCommitStateError::Error(reason) => is_trouble(error, reason@),
    }
}

/// A refusal by the chain is conveyed as it is.
pub proof fn law_refusal_is_conveyed(refused: ChainCommitStateError, error: ValidationError)
    requires
        call_ensures(
            <ValidationError as From<ChainCommitStateError>>::from,
            (refused,),
            error,
        ),
    ensures
        conveys(error, refused),
{
}

/// The bytes of the root that a validation is given, if it is given one.
pub open spec fn given_root(root: Option<&[u8]>) -> Option<Seq<u8>> {
    if root is Some {
        Some(root->0@)
    } else {
        None
    }
}

/// Whether the chain may answer so about duplicates of the batches of the block,
/// all of them, on the branch that it extends.
pub open spec fn batches_checked<BM: BlockManager>(
    block_manager: BM,
    block: &BlockPair,
    answer: Result<(), ChainCommitStateError>,
) -> bool {
    exists|ids: Vec<&String>|
        block_laws::lists_batches(ids@, block.block.batches@) && #[trigger] call_ensures(
            BM::validate_no_duplicate_batches,
            (&block_manager, &block.header.previous_block_id, &ids),
            answer,
        )
}

/// Whether the chain may answer so about duplicates of the transactions of the
/// block, all of them, on the branch that it extends.
pub open spec fn transactions_checked<BM: BlockManager>(
    block_manager: BM,
    block: &BlockPair,
    answer: Result<(), ChainCommitStateError>,
) -> bool {
    exists|ids: Vec<&String>|
        block_laws::lists_transactions(ids@, block.block.batches@) && #[trigger] call_ensures(
            BM::validate_no_duplicate_transactions,
            (&block_manager, &block.header.previous_block_id, &ids),
            answer,
        )
}

/// Whether the chain may answer so about what the transactions of the block, all
/// of them, depend on, on the branch that it extends.
pub open spec fn dependencies_checked<BM: BlockManager>(
    block_manager: BM,
    block: &BlockPair,
    answer: Result<(), ChainCommitStateError>,
) -> bool {
    exists|refs: Vec<&Transaction>|
        block_laws::refers_to_transactions(refs@, block.block.batches@) && #[trigger] call_ensures(
            BM::validate_transaction_dependencies,
            (&block_manager, &block.header.previous_block_id, &refs),
            answer,
        )
}

/// Whether the check of duplicates and dependencies may come to this: a block
/// passes only if the chain raises nothing against its batches, its transactions
/// and their dependencies, and a refused block is refused for the first thing that
/// the chain raised, in this order.
pub open spec fn duplicates_came_to<BM: BlockManager>(
    block_manager: BM,
    block: &BlockPair,
    result: Result<(), ValidationError>,
) -> bool {
    exists|batches: Result<(), ChainCommitStateError>| #[trigger]
        batches_checked(block_manager, block, batches) && match batches {
            Err(refused) => result matches Err(error) && conveys(error, refused),
            Ok(()) => exists|transactions: Result<(), ChainCommitStateError>| #[trigger]
                transactions_checked(block_manager, block, transactions) && match transactions {
                    Err(refused) => result matches Err(error) && conveys(error, refused),
                    Ok(()) => exists|dependencies: Result<(), ChainCommitStateError>| #[trigger]
                        dependencies_checked(block_manager, block, dependencies)
                            && match dependencies {
                            Err(refused) => result matches Err(error) && conveys(error, refused),
                            Ok(()) => result is Ok,
                        },
                },
        }
}

/// The chain is asked about every batch and every transaction of the block, and
/// decides.
pub proof fn law_chain_decides_on_everything<BM: BlockManager>(
    validation: DuplicatesAndDependenciesValidation<BM>,
    block: &BlockPair,
    root: Option<Seq<u8>>,
    result: Result<(), ValidationError>,
)
    requires
        validation.permits(block, root, result),
    ensures
        duplicates_came_to(validation.block_manager, block, result),
{
    let manager = validation.block_manager;
    block_laws::law_transactions_are_those_of_the_batches(block.block.batches@);
    assert forall|answer: Result<(), ChainCommitStateError>| #[trigger]
        validation.batches_answer(block, answer) implies batches_checked(
        manager,
        block,
        answer,
    ) by {}
    assert forall|answer: Result<(), ChainCommitStateError>| #[trigger]
        validation.transactions_answer(block, answer) implies transactions_checked(
        manager,
        block,
        answer,
    ) by {}
    assert forall|answer: Result<(), ChainCommitStateError>| #[trigger]
        validation.dependencies_answer(block, answer) implies dependencies_checked(
        manager,
        block,
        answer,
    ) by {}
}

/// A block is validated by asking the chain about everything that it holds.
pub proof fn law_chain_is_asked_about_everything<BM: BlockManager>(
    validation: &DuplicatesAndDependenciesValidation<BM>,
    block: &BlockPair,
    previous_state_root: Option<&[u8]>,
    result: Result<(), ValidationError>,
)
    requires
        call_ensures(
            <DuplicatesAndDependenciesValidation<BM> as BlockValidation>::validate_block,
            (validation, block, previous_state_root),
            result,
        ),
    ensures
        duplicates_came_to(validation.block_manager, block, result),
{
    law_chain_decides_on_everything(
        *validation,
        block,
        given_root(previous_state_root),
        result,
    );
}

/// The answer of the rules decides, whatever the block.
pub proof fn law_rules_decide(block: &BlockPair, obeyed: bool, result: Result<(), ValidationError>)
    requires
        call_ensures(rules::judge_rules, (block, obeyed), result),
    ensures
        obeyed <==> result is Ok,
        result matches Err(error) ==> is_failure(
            error,
            "Block "@ + block.block.header_signature@ + " failed validation rules"@,
        ),
{
}

/// Whether the factory may open these settings of the state with this root.
pub open spec fn settings_opened<VF: StateViewFactory>(
    view_factory: VF,
    root: Seq<u8>,
    view: Result<VF::Settings, ServiceError>,
) -> bool {
    exists|state_root: &[u8]|
        state_root@ == root && #[trigger] call_ensures(
            VF::create_settings_view,
            (&view_factory, state_root),
            view,
        )
}

/// Whether the settings may say this of the batches of the block and their
/// signer.
pub open spec fn rules_answer<S: SettingsView>(
    settings: S,
    block: &BlockPair,
    obeyed: bool,
) -> bool {
    call_ensures(
        S::enforce_validation_rules,
        (&settings, &block.header.signer_public_key, &block.block.batches),
        obeyed,
    )
}

/// Whether the rules may come to this. Every block but the first is put to those
/// in the state that it starts from: it passes only if they say that it obeys them,
/// it is invalid only if they say that it does not, and it is not judged only if
/// there are none to be had.
pub open spec fn rules_come_to<VF: StateViewFactory>(
    view_factory: VF,
    block: &BlockPair,
    root: Option<Seq<u8>>,
    result: Result<(), ValidationError>,
) -> bool {
    &&& block.header.block_num == 0 ==> result is Ok
    &&& block.header.block_num != 0 && root is None ==> {
        &&& result matches Err(error)
        &&& is_trouble(
            error,
            "During check of on-chain rules for block "@ + block.block.header_signature@
                + ", block num was "@ + text::decimal(block.header.block_num as nat)
                + ", but missing a previous state root"@,
        )
    }
    &&& block.header.block_num != 0 && root is Some ==> match result {
        Ok(()) => exists|settings: VF::Settings| #[trigger]
            rules_answer(settings, block, true) && settings_opened(
                view_factory,
                root->0,
                Ok(settings),
            ),
        Err(ValidationError::BlockValidationFailure(reason)) => {
            &&& reason@ == "Block "@ + block.block.header_signature@
                + " failed validation rules"@
            &&& exists|settings: VF::Settings| #[trigger]
                rules_answer(settings, block, false) && settings_opened(
                    view_factory,
                    root->0,
                    Ok(settings),
                )
        },
        Err(ValidationError::BlockValidationError(reason)) => exists|failure: ServiceError|
             #[trigger]
            settings_opened(view_factory, root->0, Err(failure))
                && reason@ == "During validate_on_chain_rules, error creating settings view: "@
                + failure.debug@,
    }
}

/// The rules in the state that a block starts from decide on it.
pub proof fn law_rules_decide_on_later_blocks<VF: StateViewFactory>(
    validation: OnChainRulesValidation<VF>,
    block: &BlockPair,
    root: Option<Seq<u8>>,
    result: Result<(), ValidationError>,
)
    requires
        validation.permits(block, root, result),
    ensures
        rules_come_to(validation.view_factory, block, root, result),
{
    if block.header.block_num != 0 && root is Some {
        let from = root->0;
        let verdict = error::verdict(result);
        let view = choose|view: Result<VF::Settings, ServiceError>| #[trigger]
            validation.opens(from, view) && match view {
                Err(failure) => verdict == Err::<(), error::ErrorView>(
                    rules::unreadable_settings(failure),
                ),
                Ok(settings) => rules::decided_by(settings, block, verdict),
            };
        assert(settings_opened(validation.view_factory, from, view));
        match view {
            Ok(settings) => {
                let obeyed = choose|obeyed: bool| #[trigger]
                    call_ensures(
                        VF::Settings::enforce_validation_rules,
                        (&settings, &block.header.signer_public_key, &block.block.batches),
                        obeyed,
                    ) && verdict == rules::rules_verdict(block, obeyed);
                assert(rules_answer(settings, block, obeyed));
            },
            Err(_) => {},
        }
    }
}

/// A block is validated by the rules in the state that it starts from.
pub proof fn law_rules_are_enforced<VF: StateViewFactory>(
    validation: &OnChainRulesValidation<VF>,
    block: &BlockPair,
    previous_state_root: Option<&[u8]>,
    result: Result<(), ValidationError>,
)
    requires
        call_ensures(
            <OnChainRulesValidation<VF> as BlockValidation>::validate_block,
            (validation, block, previous_state_root),
            result,
        ),
    ensures
        rules_come_to(
            validation.view_factory,
            block,
            given_root(previous_state_root),
            result,
        ),
{
    law_rules_decide_on_later_blocks(*validation, block, given_root(previous_state_root), result);
}

/// What the permissions say of the signer of a batch decides on the batch,
/// whatever the block and the batch.
pub proof fn law_permissions_decide(
    block: &BlockPair,
    batch: &Batch,
    answer: Result<bool, ServiceError>,
    result: Result<(), ValidationError>,
)
    requires
        call_ensures(permission::judge_signer, (block, batch, answer), result),
    ensures
        match answer {
            Ok(authorized) => {
                &&& authorized <==> result is Ok
                &&& result matches Err(error) ==> is_failure(error, unauthorized(block, batch))
            },
            Err(failure) => result matches Err(error) && is_trouble(
                error,
                unreadable_permissions(block, failure),
            ),
        },
{
}

/// The words for a signer who is not authorized.
pub open spec fn unauthorized(block: &BlockPair, batch: &Batch) -> Seq<char> {
    "Block "@ + block.block.header_signature@ + " failed permission verification: batch "@
        + batch.header_signature@ + " signer is not authorized"@
}

/// The words for permissions that cannot be read.
pub open spec fn unreadable_permissions(block: &BlockPair, failure: ServiceError) -> Seq<char> {
    "During permission check of block ("@ + block.block.header_signature@ + ", "@ + text::decimal(
        block.header.block_num as nat,
    ) + "), unable to read permissions: "@ + failure.display@
}

/// Whether the factory may open these permissions of the state with this root.
pub open spec fn permissions_opened<VF: StateViewFactory>(
    state_view_factory: VF,
    root: Seq<u8>,
    view: Result<VF::Permissions, ServiceError>,
) -> bool {
    exists|state_root: &[u8]|
        state_root@ == root && #[trigger] call_ensures(
            VF::create_permission_verifier,
            (&state_view_factory, state_root),
            view,
        )
}

/// Whether the permissions may authorize the signers of the batches of the block
/// before the one at `end`, each of them.
pub open spec fn all_authorized<P: PermissionVerifier>(
    permissions: P,
    block: &BlockPair,
    end: int,
) -> bool {
    forall|i: int|
        0 <= i < end ==> call_ensures(
            P::is_batch_signer_authorized,
            (&permissions, &#[trigger] block.block.batches@[i]),
            Ok(true),
        )
}

/// Whether the permissions may give this answer on the signer of the batch at
/// `at`.
pub open spec fn signer_answer<P: PermissionVerifier>(
    permissions: P,
    block: &BlockPair,
    at: int,
    answer: Result<bool, ServiceError>,
) -> bool {
    0 <= at < block.block.batches@.len() && call_ensures(
        P::is_batch_signer_authorized,
        (&permissions, &block.block.batches@[at]),
        answer,
    )
}

/// Whether the permissions may refuse the block so: all the batches before one of
/// them pass, and that one is refused for what is said of its signer.
pub open spec fn refused_by<P: PermissionVerifier>(
    permissions: P,
    block: &BlockPair,
    error: ValidationError,
) -> bool {
    exists|at: int, answer: Result<bool, ServiceError>| #[trigger]
        signer_answer(permissions, block, at, answer) && all_authorized(permissions, block, at)
            && match answer {
            Ok(authorized) => !authorized && is_failure(
                error,
                unauthorized(block, &block.block.batches@[at]),
            ),
            Err(failure) => is_trouble(error, unreadable_permissions(block, failure)),
        }
}

/// The verdict of the permissions, from the batch at `next` on, follows from what
/// they say of one signer after the other.
proof fn lemma_signers<P: PermissionVerifier>(
    permissions: P,
    block: &BlockPair,
    next: nat,
    result: Result<(), ValidationError>,
)
    requires
        next <= block.block.batches@.len(),
        all_authorized(permissions, block, next as int),
        permission::decided_by(permissions, block, next, error::verdict(result)),
    ensures
        match result {
            Ok(()) => all_authorized(permissions, block, block.block.batches@.len() as int),
            Err(error) => refused_by(permissions, block, error),
        },
    decreases block.block.batches@.len() - next,
{
    if next < block.block.batches@.len() {
        let batch = &block.block.batches@[next as int];
        let verdict = error::verdict(result);
        let answer = choose|answer: Result<bool, ServiceError>| #[trigger]
            call_ensures(P::is_batch_signer_authorized, (&permissions, batch), answer) && if (
            permission::signer_verdict(block, batch, answer) is Ok) {
                permission::decided_by(permissions, block, next + 1, verdict)
            } else {
                verdict == permission::signer_verdict(block, batch, answer)
            };
        assert(signer_answer(permissions, block, next as int, answer));
        if permission::signer_verdict(block, batch, answer) is Ok {
            assert(answer == Ok::<bool, ServiceError>(true));
            lemma_signers(permissions, block, next + 1, result);
        }
    }
}

/// Whether the permissions may come to this. Every block but the first needs the
/// signers of all its batches authorized, by those in the state that it starts
/// from: it passes only if each of them is, and it is refused only for the first who
/// is not or of whom nothing can be told.
pub open spec fn permissions_come_to<VF: StateViewFactory>(
    state_view_factory: VF,
    block: &BlockPair,
    root: Option<Seq<u8>>,
    result: Result<(), ValidationError>,
) -> bool {
    &&& block.header.block_num == 0 ==> result is Ok
    &&& block.header.block_num != 0 && root is None ==> {
        &&& result matches Err(error)
        &&& is_trouble(
            error,
            "During permission check of block "@ + block.block.header_signature@
                + " block_num is "@ + text::decimal(block.header.block_num as nat)
                + " but missing aprevious state root"@,
        )
    }
    &&& block.header.block_num != 0 && root is Some ==> match result {
        Ok(()) => exists|permissions: VF::Permissions| #[trigger]
            all_authorized(permissions, block, block.block.batches@.len() as int)
                && permissions_opened(
                state_view_factory,
                root->0,
                Ok(permissions),
            ),
        Err(error) => {
            ||| exists|permissions: VF::Permissions| #[trigger]
                refused_by(permissions, block, error) && permissions_opened(
                    state_view_factory,
                    root->0,
                    Ok(permissions),
                )
            ||| exists|failure: ServiceError| #[trigger]
                permissions_opened(
                    state_view_factory,
                    root->0,
                    Err(failure),
                ) && is_trouble(
                    error,
                    "During permission check of block ("@ + block.block.header_signature@
                        + ", "@ + text::decimal(block.header.block_num as nat)
                        + ") state root was not found in state: "@ + failure.display@,
                )
        },
    }
}

/// The permissions in the state that a block starts from decide on it.
pub proof fn law_permissions_decide_on_every_signer<VF: StateViewFactory>(
    validation: PermissionValidation<VF>,
    block: &BlockPair,
    root: Option<Seq<u8>>,
    result: Result<(), ValidationError>,
)
    requires
        validation.permits(block, root, result),
    ensures
        permissions_come_to(validation.state_view_factory, block, root, result),
{
    if block.header.block_num != 0 && root is Some {
        let from = root->0;
        let verdict = error::verdict(result);
        let view = choose|view: Result<VF::Permissions, ServiceError>| #[trigger]
            validation.opens(from, view) && match view {
                Err(failure) => verdict == Err::<(), error::ErrorView>(
                    permission::unknown_state(block, failure),
                ),
                Ok(permissions) => permission::decided_by(permissions, block, 0, verdict),
            };
        assert(permissions_opened(validation.state_view_factory, from, view));
        match view {
            Ok(permissions) => {
                lemma_signers(permissions, block, 0, result);
            },
            Err(_) => {},
        }
    }
}

/// A block is validated by the permissions in the state that it starts from.
pub proof fn law_every_signer_needs_permission<VF: StateViewFactory>(
    validation: &PermissionValidation<VF>,
    block: &BlockPair,
    previous_state_root: Option<&[u8]>,
    result: Result<(), ValidationError>,
)
    requires
        call_ensures(
            <PermissionValidation<VF> as BlockValidation>::validate_block,
            (validation, block, previous_state_root),
            result,
        ),
    ensures
        permissions_come_to(
            validation.state_view_factory,
            block,
            given_root(previous_state_root),
            result,
        ),
{
    law_permissions_decide_on_every_signer(*validation, block, given_root(previous_state_root), result);
}

} // verus!
