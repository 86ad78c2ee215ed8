//! What holds of validation as a whole.

use vstd::prelude::*;

use crate::batches;
use crate::batches::BatchesInBlockValidation;
use crate::block::BlockPair;
use crate::duplicates::DuplicatesAndDependenciesValidation;
use crate::error;
use crate::error::{ChainCommitStateError, ServiceError, ValidationError};
use crate::permission;
use crate::permission::PermissionValidation;
use crate::processor;
use crate::processor::BlockValidation;
use crate::result;
use crate::result::{BlockStatus, BlockValidationResult, TxnExecutionResult};
use crate::rules;
use crate::rules::OnChainRulesValidation;
use crate::service::{
    BlockManager, BlockScheduler, ExecutionPlatform, ExecutionResults, PermissionVerifier,
    Scheduler, StateViewFactory,
};
use crate::store;
use crate::store::BlockStatusStore;
use crate::store_laws;
use crate::validator;
use crate::validator::BlockValidator;

verus! {

/// A block is found valid only if every validation, from the one at `next` on,
/// lets it pass, and the validation of its state finds it so.
pub proof fn law_valid_only_if_all_pass<
    V: BlockValidation<ReturnValue = ()>,
    SBV: BlockValidation<ReturnValue = BlockValidationResult>,
>(
    validations: Seq<V>,
    state_validation: SBV,
    block: &BlockPair,
    root: Option<Seq<u8>>,
    next: nat,
    result: Result<BlockValidationResult, ValidationError>,
)
    requires
        processor::validated(validations, state_validation, block, root, next, result),
        result is Ok,
    ensures
        forall|i: int|
            next <= i < validations.len() ==> processor::may_let_pass(
                #[trigger] validations[i],
                block,
                root,
            ),
        state_validation.permits(block, root, result),
    decreases validations.len() - next,
{
    if next < validations.len() {
        law_valid_only_if_all_pass(
            validations,
            state_validation,
            block,
            root,
            next + 1,
            result,
        );
    }
}

/// An error is that of the first validation, from the one at `next` on, that did
/// not let the block pass, or that of the validation of its state.
pub proof fn law_error_is_that_of_the_first_refusal<
    V: BlockValidation<ReturnValue = ()>,
    SBV: BlockValidation<ReturnValue = BlockValidationResult>,
>(
    validations: Seq<V>,
    state_validation: SBV,
    block: &BlockPair,
    root: Option<Seq<u8>>,
    next: nat,
    refused: ValidationError,
)
    requires
        next <= validations.len(),
        processor::validated(validations, state_validation, block, root, next, Err(refused)),
    ensures
        exists|at: int|
            {
                &&& next <= at <= validations.len()
                &&& forall|i: int|
                    next <= i < at ==> processor::may_let_pass(
                        #[trigger] validations[i],
                        block,
                        root,
                    )
                &&& #[trigger] refuses_at(validations, state_validation, block, root, at, refused)
            },
    decreases validations.len() - next,
{
    if next < validations.len() {
        let outcome = choose|outcome: Result<(), ValidationError>| #[trigger]
            validations[next as int].permits(block, root, outcome) && match outcome {
                Ok(()) => processor::validated(
                    validations,
                    state_validation,
                    block,
                    root,
                    next + 1,
                    Err(refused),
                ),
                Err(error) => Err::<BlockValidationResult, ValidationError>(refused) == Err::<
                    BlockValidationResult,
                    ValidationError,
                >(error),
            };
        if outcome is Ok {
            law_error_is_that_of_the_first_refusal(
                validations,
                state_validation,
                block,
                root,
                next + 1,
                refused,
            );
            let at = choose|at: int|
                {
                    &&& next + 1 <= at <= validations.len()
                    &&& forall|i: int|
                        next + 1 <= i < at ==> processor::may_let_pass(
                            #[trigger] validations[i],
                            block,
                            root,
                        )
                    &&& #[trigger] refuses_at(
                        validations,
                        state_validation,
                        block,
                        root,
                        at,
                        refused,
                    )
                };
            assert(processor::may_let_pass(validations[next as int], block, root));
            assert(refuses_at(validations, state_validation, block, root, at, refused));
        } else {
            assert(refuses_at(validations, state_validation, block, root, next as int, refused));
        }
    } else {
        assert(refuses_at(validations, state_validation, block, root, next as int, refused));
    }
}

/// Whether the validation at `at`, or the one of the state behind the last, may
/// refuse the block with this error.
pub open spec fn refuses_at<
    V: BlockValidation<ReturnValue = ()>,
    SBV: BlockValidation<ReturnValue = BlockValidationResult>,
>(
    validations: Seq<V>,
    state_validation: SBV,
    block: &BlockPair,
    root: Option<Seq<u8>>,
    at: int,
    refused: ValidationError,
) -> bool {
    if at < validations.len() {
        validations[at].permits(block, root, Err(refused))
    } else {
        state_validation.permits(block, root, Err(refused))
    }
}

/// A block that a validation never lets pass is never found valid.
pub proof fn law_one_refusal_is_enough<
    V: BlockValidation<ReturnValue = ()>,
    SBV: BlockValidation<ReturnValue = BlockValidationResult>,
>(
    validations: Seq<V>,
    state_validation: SBV,
    block: &BlockPair,
    root: Option<Seq<u8>>,
    at: int,
    result: Result<BlockValidationResult, ValidationError>,
)
    requires
        processor::validated(validations, state_validation, block, root, 0, result),
        0 <= at < validations.len(),
        !processor::may_let_pass(validations[at], block, root),
    ensures
        result is Err,
{
    if result is Ok {
        law_valid_only_if_all_pass(validations, state_validation, block, root, 0, result);
    }
}

/// The first block of a chain is subject to neither rules nor permissions.
pub proof fn law_first_block_needs_no_rules<VF: StateViewFactory>(
    rules_validation: OnChainRulesValidation<VF>,
    permission_validation: PermissionValidation<VF>,
    block: &BlockPair,
    root: Option<Seq<u8>>,
    result: Result<(), ValidationError>,
)
    requires
        block.header.block_num == 0,
    ensures
        rules_validation.permits(block, root, result) <==> result is Ok,
        permission_validation.permits(block, root, result) <==> result is Ok,
{
}

/// A later block without a previous state is not judged, by the rules or by the
/// permissions.
pub proof fn law_later_block_needs_a_state<VF: StateViewFactory>(
    rules_validation: OnChainRulesValidation<VF>,
    permission_validation: PermissionValidation<VF>,
    block: &BlockPair,
    result: Result<(), ValidationError>,
)
    requires
        block.header.block_num != 0,
        rules_validation.permits(block, None, result) || permission_validation.permits(
            block,
            None,
            result,
        ),
    ensures
        result matches Err(error) && error@ is BlockValidationError,
{
}

/// The permissions let a block pass only if they authorize the signer of every
/// one of its batches, from the one at `next` on.
pub proof fn law_every_signer_is_authorized<P: PermissionVerifier>(
    permissions: P,
    block: &BlockPair,
    next: nat,
)
    requires
        permission::decided_by(permissions, block, next, Ok(())),
    ensures
        forall|i: int|
            next <= i < block.block.batches@.len() ==> call_ensures(
                P::is_batch_signer_authorized,
                (&permissions, &#[trigger] block.block.batches@[i]),
                Ok(true),
            ),
    decreases block.block.batches@.len() - next,
{
    if next < block.block.batches@.len() {
        let batch = &block.block.batches@[next as int];
        let answer = choose|answer: Result<bool, ServiceError>| #[trigger]
            call_ensures(P::is_batch_signer_authorized, (&permissions, batch), answer) && if (
            permission::signer_verdict(block, batch, answer) is Ok) {
                permission::decided_by(permissions, block, next + 1, Ok(()))
            } else {
                Ok::<(), error::ErrorView>(()) == permission::signer_verdict(block, batch, answer)
            };
        assert(answer == Ok::<bool, ServiceError>(true));
        law_every_signer_is_authorized(permissions, block, next + 1);
    }
}

/// The chain lets a block pass only if it refuses neither its batches nor its
/// transactions nor what they depend on.
pub proof fn law_no_duplicate_passes<BM: BlockManager>(
    validation: DuplicatesAndDependenciesValidation<BM>,
    block: &BlockPair,
    root: Option<Seq<u8>>,
    result: Result<(), ValidationError>,
)
    requires
        validation.permits(block, root, result),
        result is Ok,
    ensures
        exists|batches: Result<(), ChainCommitStateError>|
            batches is Ok && #[trigger] validation.batches_answer(block, batches),
        exists|transactions: Result<(), ChainCommitStateError>|
            transactions is Ok && #[trigger] validation.transactions_answer(block, transactions),
        exists|dependencies: Result<(), ChainCommitStateError>|
            dependencies is Ok && #[trigger] validation.dependencies_answer(block, dependencies),
{
}

/// A batch is named as invalid for the first of its transactions that was.
pub proof fn law_first_invalid_transaction_is_named(reports: Seq<result::TxnReport>)
    ensures
        match batches::first_invalid(reports) {
            None => forall|i: int| 0 <= i < reports.len() ==> (#[trigger] reports[i]).is_valid,
            Some(invalid) => exists|i: int|
                {
                    &&& 0 <= i < reports.len()
                    &&& #[trigger] reports[i] == invalid
                    &&& !invalid.is_valid
                    &&& forall|j: int| 0 <= j < i ==> (#[trigger] reports[j]).is_valid
                },
        },
    decreases reports.len(),
{
    if reports.len() > 0 {
        let earlier = reports.drop_last();
        law_first_invalid_transaction_is_named(earlier);
        match batches::first_invalid(earlier) {
            Some(invalid) => {
                let i = choose|i: int|
                    {
                        &&& 0 <= i < earlier.len()
                        &&& #[trigger] earlier[i] == invalid
                        &&& !invalid.is_valid
                        &&& forall|j: int| 0 <= j < i ==> (#[trigger] earlier[j]).is_valid
                    };
                assert(reports[i] == invalid);
                assert forall|j: int| 0 <= j < i implies (#[trigger] reports[j]).is_valid by {
                    assert(earlier[j] == reports[j]);
                }
            },
            None => {
                let last = reports.len() - 1;
                assert forall|j: int| 0 <= j < last implies (#[trigger] reports[j]).is_valid by {
                    assert(earlier[j] == reports[j]);
                }
                assert(reports[last] == reports.last());
            },
        }
    }
}

/// The gathered reports are valid, all of them.
proof fn lemma_all_reports_valid(
    block: &BlockPair,
    batch_results: Seq<(String, Option<Vec<TxnExecutionResult>>)>,
)
    ensures
        batches::all_reports(block, batch_results) matches Ok(reports) ==> forall|i: int|
            0 <= i < reports.len() ==> (#[trigger] reports[i]).is_valid,
    decreases batch_results.len(),
{
    if batch_results.len() > 0 {
        lemma_all_reports_valid(block, batch_results.drop_last());
        match batch_results.last().1 {
            Some(results) => {
                law_first_invalid_transaction_is_named(result::reports(results@));
            },
            None => {},
        }
    }
}

/// What a block is reported as when it is found valid: the report is on that
/// block, says that it is valid, holds no invalid transaction, and counts its
/// transactions.
pub open spec fn is_sound(block: &BlockPair, report: result::BlockReport) -> bool {
    &&& report.block_id == block.id()
    &&& report.status == BlockStatus::Valid
    &&& report.num_transactions == report.execution_results.len() as u64
    &&& forall|i: int|
        0 <= i < report.execution_results.len() ==> (
        #[trigger] report.execution_results[i]).is_valid
}

/// An execution makes a block valid only with the state that the block claims,
/// with results for each batch, and with every transaction valid.
pub proof fn law_executed_block_is_sound(block: &BlockPair, results: ExecutionResults)
    ensures
        batches::judgement(block, results) matches Ok(report) ==> {
            &&& is_sound(block, report)
            &&& results.ending_state_hash matches Some(hash)
            &&& hash@ == block.header.state_root_hash@
            &&& batches::all_reports(block, results.batch_results@) == Ok::<
                Seq<result::TxnReport>,
                error::ErrorView,
            >(report.execution_results)
        },
        // What an execution did is always judged.
        batches::judgement(block, results) matches Err(error) ==> error is BlockValidationFailure,
{
    lemma_all_reports_valid(block, results.batch_results@);
    lemma_all_reports_fail(block, results.batch_results@);
}

proof fn lemma_all_reports_fail(
    block: &BlockPair,
    batch_results: Seq<(String, Option<Vec<TxnExecutionResult>>)>,
)
    ensures
        batches::all_reports(block, batch_results) matches Err(error)
            ==> error is BlockValidationFailure,
    decreases batch_results.len(),
{
    if batch_results.len() > 0 {
        lemma_all_reports_fail(block, batch_results.drop_last());
    }
}

/// However a run goes from the batch at `next` on, a block that it finds valid is
/// reported soundly.
pub proof fn law_run_is_sound<S: Scheduler>(
    run: S,
    block: &BlockPair,
    next: nat,
    report: result::BlockReport,
)
    requires
        batches::scheduled(run, block, next, Ok(report)),
    ensures
        is_sound(block, report),
    decreases block.block.batches@.len() - next,
{
    let judged = Ok::<result::BlockReport, error::ErrorView>(report);
    if next < block.block.batches@.len() {
        let added = choose|added: Result<S, ServiceError>| #[trigger]
            call_ensures(
                S::add_batch,
                (
                    run,
                    &block.block.batches@[next as int],
                    batches::expected_after(block, next),
                    false,
                ),
                added,
            ) && match added {
                Err(failed) => judged == Err::<result::BlockReport, error::ErrorView>(
                    batches::add_failure(block, next, failed),
                ),
                Ok(longer) => batches::scheduled(longer, block, next + 1, judged),
            };
        law_run_is_sound(added->Ok_0, block, next + 1, report);
    } else {
        let finalized = choose|finalized: Result<S, ServiceError>| #[trigger]
            call_ensures(S::finalize, (run, false), finalized) && match finalized {
                Err(failed) => judged == Err::<result::BlockReport, error::ErrorView>(
                    error::ErrorView::BlockValidationError(
                        "During call to scheduler.finalize: "@ + failed.debug@,
                    ),
                ),
                Ok(last) => exists|completed: Result<Option<ExecutionResults>, ServiceError>|
                     #[trigger]
                    call_ensures(S::complete, (last, true), completed) && judged
                        == batches::completion(block, completed),
            };
        let last = finalized->Ok_0;
        let completed = choose|completed: Result<Option<ExecutionResults>, ServiceError>|
             #[trigger]
            call_ensures(S::complete, (last, true), completed) && judged == batches::completion(
                block,
                completed,
            );
        law_executed_block_is_sound(block, completed->Ok_0->0);
    }
}

/// The execution finds a block valid only in a sound report.
pub proof fn law_execution_is_sound<TEP: ExecutionPlatform>(
    validation: BatchesInBlockValidation<TEP>,
    block: &BlockPair,
    root: Option<Seq<u8>>,
    valid: BlockValidationResult,
)
    requires
        validation.permits(block, root, Ok(valid)),
    ensures
        is_sound(block, valid@),
{
    let judged = batches::outcome(Ok(valid));
    let from = batches::starting_root::<TEP>(root);
    let run = choose|run: Result<TEP::Run, ServiceError>| #[trigger]
        validation.starts(from, run) && match run {
            Err(failed) => judged == Err::<result::BlockReport, error::ErrorView>(
                batches::create_failure(block, failed),
            ),
            Ok(started) => batches::scheduled(started, block, 0, judged),
        };
    law_run_is_sound(run->Ok_0, block, 0, valid@);
}

/// A block that the validator finds valid is reported soundly.
pub proof fn law_valid_block_is_sound<
    TEP: ExecutionPlatform + Clone,
    BM: BlockManager + Clone,
    VF: StateViewFactory + Clone,
    BS: BlockScheduler<BM, ST>,
    ST: BlockStatusStore + Clone,
    Tx: Clone,
    Rx,
>(
    validator: BlockValidator<TEP, BM, VF, BS, ST, Tx, Rx>,
    block: &BlockPair,
    valid: BlockValidationResult,
)
    requires
        validator.permits(block, Ok(valid)),
    ensures
        is_sound(block, valid@),
{
    let processor = choose|processor| #[trigger]
        validator.sets_up(processor) && processor.permits(block, Ok(valid));
    let root = choose|root: Option<Seq<u8>>| #[trigger]
        processor.may_find(block, root) && processor::validated(
            processor.validations@,
            processor.state_validation,
            block,
            root,
            0,
            Ok(valid),
        );
    law_valid_only_if_all_pass(
        processor.validations@,
        processor.state_validation,
        block,
        root,
        0,
        Ok(valid),
    );
    law_execution_is_sound(processor.state_validation, block, root, valid);
}

/// Once a block has been validated with success, the store gives back the
/// report that the validation came to, which is sound, and knows the block as
/// valid; when it has not, the store is as it was.
pub proof fn law_validated_block_is_known_as_valid<
    TEP: ExecutionPlatform + Clone,
    BM: BlockManager + Clone,
    VF: StateViewFactory + Clone,
    BS: BlockScheduler<BM, ST>,
    ST: BlockStatusStore + Clone,
    Tx: Clone,
    Rx,
>(
    validator: BlockValidator<TEP, BM, VF, BS, ST, Tx, Rx>,
    block: &BlockPair,
    outcome: Result<BlockValidationResult, ValidationError>,
    before: Seq<result::BlockReport>,
    result: Result<(), ValidationError>,
    after: Seq<result::BlockReport>,
)
    requires
        validator.permits(block, outcome),
        validator::recorded(outcome, before, result, after),
    ensures
        result is Ok <==> outcome is Ok,
        outcome matches Ok(valid) ==> store::report_on(after, block.id()) == Some(valid@)
            && is_sound(block, valid@) && store::status_in(after, block.id())
            == BlockStatus::Valid,
        result is Err ==> after == before,
{
    match outcome {
        Ok(valid) => {
            law_valid_block_is_sound(validator, block, valid);
            store_laws::law_inserted_is_found(before, valid@);
        },
        Err(_) => {},
    }
}

/// Every block with a batch can be validated.
pub proof fn law_block_with_batches_is_accepted<
    TEP: ExecutionPlatform + Clone,
    BM: BlockManager + Clone,
    VF: StateViewFactory + Clone,
    BS: BlockScheduler<BM, ST>,
    ST: BlockStatusStore + Clone,
    Tx: Clone,
    Rx,
>(validator: BlockValidator<TEP, BM, VF, BS, ST, Tx, Rx>, block: &BlockPair)
    requires
        block.block.batches@.len() > 0,
    ensures
        validator.accepts(block),
{
}

/// Where no run can be started on the state that a block starts from, the block
/// is accepted, even without batches, and comes to the error of the start.
pub proof fn law_block_is_unjudged_without_a_run<TEP: ExecutionPlatform>(
    validation: BatchesInBlockValidation<TEP>,
    block: &BlockPair,
    root: Option<Seq<u8>>,
    result: Result<BlockValidationResult, ValidationError>,
)
    requires
        validation.never_starts(batches::starting_root::<TEP>(root)),
        validation.permits(block, root, result),
    ensures
        validation.accepts(block, root),
        exists|failed: ServiceError| #[trigger]
            validation.starts(batches::starting_root::<TEP>(root), Err(failed))
                && batches::outcome(result) == Err::<result::BlockReport, error::ErrorView>(
                batches::create_failure(block, failed),
            ),
{
    let judged = batches::outcome(result);
    let from = batches::starting_root::<TEP>(root);
    let run = choose|run: Result<TEP::Run, ServiceError>| #[trigger]
        validation.starts(from, run) && match run {
            Err(failed) => judged == Err::<result::BlockReport, error::ErrorView>(
                batches::create_failure(block, failed),
            ),
            Ok(started) => batches::scheduled(started, block, 0, judged),
        };
    assert(run is Err);
}

/// The rotation is fair: of any round of deliveries, as many as there are
/// channels, every channel gets exactly one.
pub proof fn law_rotation_is_fair(count: nat, index: nat, channel: int)
    requires
        index < count,
        0 <= channel < count,
    ensures
        exists|i: nat| i < count && #[trigger] validator::slot(count, index, i) == channel,
        forall|i: nat, j: nat|
            i < count && j < count && #[trigger] validator::slot(count, index, i) == channel
                && #[trigger] validator::slot(count, index, j) == channel ==> i == j,
{
    let n = count as int;
    let i: nat = if channel >= index {
        (channel - index) as nat
    } else {
        (channel + count - index) as nat
    };
    assert forall|k: nat| k < count implies #[trigger] validator::slot(count, index, k) == if index
        + k < count {
        (index + k) as int
    } else {
        index + k - count
    } by {
        let x = (index + k) as int;
        if x < n {
            vstd::arithmetic::div_mod::lemma_fundamental_div_mod_converse(x, n, 0, x);
        } else {
            vstd::arithmetic::div_mod::lemma_fundamental_div_mod_converse(x, n, 1, x - n);
        }
    }
    assert(validator::slot(count, index, i) == channel);
}

/// A refusal by the chain makes a block invalid, unless the chain could not
/// tell.
pub proof fn law_refusal_is_failure_unless_error(refused: ChainCommitStateError)
    ensures
        error::refusal(refused) is BlockValidationError <==> refused is Error,
{
}

} // verus!
