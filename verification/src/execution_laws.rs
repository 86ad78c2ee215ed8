//! What the execution of a block takes, and what is made of it.

use vstd::prelude::*;

use crate::batches;
use crate::batches::BatchesInBlockValidation;
use crate::block::BlockPair;
use crate::check_laws::{given_root, is_failure, is_trouble};
use crate::error;
use crate::error::{ServiceError, ValidationError};
use crate::processor::BlockValidation;
use crate::result;
use crate::result::{BlockStatus, BlockValidationResult, TxnExecutionResult};
use crate::sequences;
use crate::service::{ExecutionPlatform, ExecutionResults, Scheduler};
use crate::text;

verus! {

/// All that is reported on a transaction.
pub open spec fn whole_report(txn: TxnExecutionResult) -> (Seq<char>, bool, Seq<u8>) {
    (txn.signature@, txn.is_valid, txn.receipt@)
}

/// All that is reported on each of the transactions.
pub open spec fn whole_reports(txns: Seq<TxnExecutionResult>) -> Seq<(Seq<char>, bool, Seq<u8>)> {
    Seq::new(txns.len(), |i: int| whole_report(txns[i]))
}

/// All that is reported on each of the transactions of each batch.
pub open spec fn reports_by_batch(
    batch_results: Seq<(String, Option<Vec<TxnExecutionResult>>)>,
) -> Seq<Seq<(Seq<char>, bool, Seq<u8>)>> {
    Seq::new(batch_results.len(), |i: int| whole_reports(batch_results[i].1->0@))
}

/// Whether there are results for the batch, and all its transactions are valid.
pub open spec fn is_in_order(batch_result: (String, Option<Vec<TxnExecutionResult>>)) -> bool {
    &&& batch_result.1 is Some
    &&& forall|j: int|
        0 <= j < batch_result.1->0@.len() ==> (#[trigger] batch_result.1->0@[j]).is_valid
}

/// Whether the transaction at `j` is the first invalid one.
pub open spec fn is_first_invalid(txns: Seq<TxnExecutionResult>, j: int) -> bool {
    &&& 0 <= j < txns.len()
    &&& !txns[j].is_valid
    &&& forall|k: int| 0 <= k < j ==> (#[trigger] txns[k]).is_valid
}

/// Whether these words say what is wrong with the batch: it has no results, or
/// its first invalid transaction.
pub open spec fn is_fault_of(
    batch_result: (String, Option<Vec<TxnExecutionResult>>),
    words: Seq<char>,
) -> bool {
    match batch_result.1 {
        None => words == "batch "@ + batch_result.0@ + " did not have transaction results"@,
        Some(txns) => exists|j: int| #[trigger]
            is_first_invalid(txns@, j) && words == "batch "@ + batch_result.0@
                + " was invalid due to transaction "@ + txns@[j].signature@,
    }
}

/// The words for a block that failed validation.
pub open spec fn failed_validation(block: &BlockPair, reason: Seq<char>) -> Seq<char> {
    "Block "@ + block.block.header_signature@ + " failed validation: "@ + reason
}

/// Whether these words say what is wrong with the first of the batches that is
/// not in order, the one at `at`.
pub open spec fn is_first_fault(
    batch_results: Seq<(String, Option<Vec<TxnExecutionResult>>)>,
    at: int,
    words: Seq<char>,
) -> bool {
    &&& 0 <= at < batch_results.len()
    &&& is_fault_of(batch_results[at], words)
    &&& forall|i: int| 0 <= i < at ==> is_in_order(#[trigger] batch_results[i])
}

/// Whether this is how a block is to be judged by the results of its execution. It
/// is valid only if the state is the one that it claims, and every batch has
/// results, all of them valid; they are reported whole, in order and without
/// another. It is refused only for another state or none, or else for the first
/// batch that is not in order.
pub open spec fn judged_by(
    block: &BlockPair,
    results: ExecutionResults,
    result: Result<BlockValidationResult, ValidationError>,
) -> bool {
    match result {
        Ok(valid) => {
            &&& results.ending_state_hash is Some
            &&& results.ending_state_hash->0@ == block.header.state_root_hash@
            &&& forall|i: int|
                0 <= i < results.batch_results@.len() ==> is_in_order(
                    #[trigger] results.batch_results@[i],
                )
            &&& sequences::holds_all(
                whole_reports(valid.execution_results@),
                reports_by_batch(results.batch_results@),
            )
            &&& valid.num_transactions == valid.execution_results@.len()
            &&& valid.block_id@ == block.block.header_signature@
            &&& valid.status == BlockStatus::Valid
        },
        Err(error) => match results.ending_state_hash {
            None => is_failure(
                error,
                failed_validation(block, "no ending state hash was produced"@),
            ),
            Some(actual) => if actual@ != block.header.state_root_hash@ {
                is_failure(
                    error,
                    failed_validation(
                        block,
                        "expected state hash "@ + text::hexadecimal(block.header.state_root_hash@)
                            + ", validation found state hash "@ + text::hexadecimal(actual@),
                    ),
                )
            } else {
                exists|at: int, words: Seq<char>| #[trigger]
                    is_first_fault(results.batch_results@, at, words) && is_failure(
                        error,
                        failed_validation(block, words),
                    )
            },
        },
    }
}

/// Whether this is how a block is to be judged by how its execution ended.
pub open spec fn judged_after(
    block: &BlockPair,
    completed: Result<Option<ExecutionResults>, ServiceError>,
    result: Result<BlockValidationResult, ValidationError>,
) -> bool {
    match completed {
        Ok(Some(results)) => judged_by(block, results, result),
        Ok(None) => result matches Err(error) && is_failure(
            error,
            failed_validation(block, "no execution results produced"@),
        ),
        Err(failed) => result matches Err(error) && is_trouble(
            error,
            "During call to scheduler.complete: "@ + failed.debug@,
        ),
    }
}

/// What is carried of a transaction is all that is reported on it.
spec fn carried(reports: Seq<result::TxnReport>) -> Seq<(Seq<char>, bool, Seq<u8>)> {
    Seq::new(reports.len(), |i: int| (reports[i].signature, reports[i].is_valid, reports[i].receipt))
}

/// The first invalid report is that of the first invalid transaction.
proof fn lemma_first_invalid(txns: Seq<TxnExecutionResult>)
    ensures
        match batches::first_invalid(result::reports(txns)) {
            None => forall|j: int| 0 <= j < txns.len() ==> (#[trigger] txns[j]).is_valid,
            Some(invalid) => exists|j: int| #[trigger]
                is_first_invalid(txns, j) && invalid.signature == txns[j].signature@,
        },
    decreases txns.len(),
{
    if txns.len() > 0 {
        let earlier = txns.drop_last();
        let last = txns.len() - 1;
        lemma_first_invalid(earlier);
        assert(result::reports(txns).drop_last() =~= result::reports(earlier));
        assert(forall|j: int| 0 <= j < last ==> earlier[j] == #[trigger] txns[j]);
        match batches::first_invalid(result::reports(earlier)) {
            Some(invalid) => {
                let j = choose|j: int| #[trigger]
                    is_first_invalid(earlier, j) && invalid.signature == earlier[j].signature@;
                assert forall|k: int| 0 <= k < j implies (#[trigger] txns[k]).is_valid by {
                    assert(earlier[k].is_valid);
                }
                assert(is_first_invalid(txns, j));
            },
            None => {
                assert forall|k: int| 0 <= k < last implies (#[trigger] txns[k]).is_valid by {
                    assert(earlier[k].is_valid);
                }
                if !txns[last].is_valid {
                    assert(is_first_invalid(txns, last));
                }
            },
        }
    }
}

/// What is gathered from the batches, or the first fault among them.
proof fn lemma_gathered(
    block: &BlockPair,
    batch_results: Seq<(String, Option<Vec<TxnExecutionResult>>)>,
)
    ensures
        match batches::all_reports(block, batch_results) {
            Ok(reports) => {
                &&& forall|i: int|
                    0 <= i < batch_results.len() ==> is_in_order(#[trigger] batch_results[i])
                &&& sequences::holds_all(carried(reports), reports_by_batch(batch_results))
            },
            Err(error) => exists|at: int, words: Seq<char>| #[trigger]
                is_first_fault(batch_results, at, words) && error
                    == error::ErrorView::BlockValidationFailure(failed_validation(block, words)),
        },
    decreases batch_results.len(),
{
    if batch_results.len() == 0 {
        assert(batches::all_reports(block, batch_results) == Ok::<
            Seq<result::TxnReport>,
            error::ErrorView,
        >(Seq::empty()));
    } else {
        let earlier = batch_results.drop_last();
        let last = batch_results.len() - 1;
        lemma_gathered(block, earlier);
        assert(forall|i: int| 0 <= i < last ==> earlier[i] == #[trigger] batch_results[i]);
        match batches::all_reports(block, earlier) {
            Err(error) => {
                let (at, words) = choose|at: int, words: Seq<char>| #[trigger]
                    is_first_fault(earlier, at, words) && error
                        == error::ErrorView::BlockValidationFailure(
                        failed_validation(block, words),
                    );
                assert(is_first_fault(batch_results, at, words)) by {
                    assert forall|i: int| 0 <= i < at implies is_in_order(
                        #[trigger] batch_results[i],
                    ) by {
                        assert(is_in_order(earlier[i]));
                    }
                }
            },
            Ok(reports) => {
                assert forall|i: int| 0 <= i < last implies is_in_order(
                    #[trigger] batch_results[i],
                ) by {
                    assert(is_in_order(earlier[i]));
                }
                let batch_result = batch_results[last];
                match batch_result.1 {
                    None => {
                        let words = "batch "@ + batch_result.0@
                            + " did not have transaction results"@;
                        assert(is_first_fault(batch_results, last, words));
                    },
                    Some(txns) => {
                        lemma_first_invalid(txns@);
                        match batches::first_invalid(result::reports(txns@)) {
                            Some(invalid) => {
                                let words = "batch "@ + batch_result.0@
                                    + " was invalid due to transaction "@ + invalid.signature;
                                assert(is_fault_of(batch_result, words));
                                assert(is_first_fault(batch_results, last, words));
                            },
                            None => {
                                let added = result::reports(txns@);
                                assert(is_in_order(batch_result));
                                assert(reports_by_batch(batch_results).drop_last()
                                    =~= reports_by_batch(earlier));
                                sequences::lemma_holds_all_step(
                                    carried(reports),
                                    reports_by_batch(batch_results),
                                );
                                assert(carried(reports + added) =~= carried(reports)
                                    + reports_by_batch(batch_results).last());
                            },
                        }
                    },
                }
            },
        }
    }
}

/// A judgement with this content is the right one.
proof fn lemma_judged(
    block: &BlockPair,
    completed: Result<Option<ExecutionResults>, ServiceError>,
    result: Result<BlockValidationResult, ValidationError>,
)
    requires
        batches::outcome(result) == batches::completion(block, completed),
    ensures
        judged_after(block, completed, result),
{
    match completed {
        Ok(Some(results)) => {
            lemma_gathered(block, results.batch_results@);
            match result {
                Ok(valid) => {
                    assert(carried(valid@.execution_results) =~= whole_reports(
                        valid.execution_results@,
                    ));
                    assert(valid.execution_results.len() == valid.execution_results@.len());
                },
                Err(_) => {},
            }
        },
        _ => {},
    }
}

/// A block is judged by what its execution produced, whatever that is.
pub proof fn law_execution_is_judged(
    block: &BlockPair,
    completed: Result<Option<ExecutionResults>, ServiceError>,
    result: Result<BlockValidationResult, ValidationError>,
)
    requires
        call_ensures(batches::judge_execution, (block, completed), result),
    ensures
        judged_after(block, completed, result),
{
    lemma_judged(block, completed, result);
}

/// Whether the executor may start this run on the state with this root.
pub open spec fn run_started<TEP: ExecutionPlatform>(
    transaction_executor: TEP,
    root: Seq<u8>,
    run: Result<TEP::Run, ServiceError>,
) -> bool {
    exists|state_root: &[u8]|
        state_root@ == root && #[trigger] call_ensures(
            TEP::create_scheduler,
            (&transaction_executor, state_root),
            run,
        )
}

/// Whether the run may answer so when it is given the batch at `k` of the block. A
/// batch is never required, and only the last one comes with a state to end in,
/// the one that the block claims.
pub open spec fn batch_added<S: Scheduler>(
    run: S,
    block: &BlockPair,
    k: int,
    added: Result<S, ServiceError>,
) -> bool {
    call_ensures(
        S::add_batch,
        (
            run,
            &block.block.batches@[k],
            if k == block.block.batches@.len() - 1 {
                Some(&block.header.state_root_hash)
            } else {
                None
            },
            false,
        ),
        added,
    )
}

/// Whether each of these runs is the one before it, with the next batch of the
/// block added.
pub open spec fn adds_batches<S: Scheduler>(runs: Seq<S>, block: &BlockPair) -> bool {
    &&& 0 < runs.len() <= block.block.batches@.len() + 1
    &&& forall|k: int, next: int|
        0 <= k && next == k + 1 && next < runs.len() ==> batch_added(
            #[trigger] runs[k],
            block,
            k,
            Ok(#[trigger] runs[next]),
        )
}

/// Whether a run with all the batches may come to this: it is finalized, without
/// dropping what is not complete, and waited for, and the block is judged by how it
/// ended.
pub open spec fn ran_to_the_end<S: Scheduler>(
    run: S,
    block: &BlockPair,
    result: Result<BlockValidationResult, ValidationError>,
) -> bool {
    exists|finalized: Result<S, ServiceError>| #[trigger]
        call_ensures(S::finalize, (run, false), finalized) && match finalized {
            Err(failed) => result matches Err(error) && is_trouble(
                error,
                "During call to scheduler.finalize: "@ + failed.debug@,
            ),
            Ok(last) => exists|completed: Result<Option<ExecutionResults>, ServiceError>| #[trigger]
                call_ensures(S::complete, (last, true), completed) && judged_after(
                    block,
                    completed,
                    result,
                ),
        }
}

/// Whether these runs may come to this: with all the batches added they end, and
/// before that the next batch could not be added.
pub open spec fn runs_come_to<S: Scheduler>(
    runs: Seq<S>,
    block: &BlockPair,
    result: Result<BlockValidationResult, ValidationError>,
) -> bool {
    let at = runs.len() - 1;
    &&& adds_batches(runs, block)
    &&& if at == block.block.batches@.len() {
        ran_to_the_end(runs[at], block, result)
    } else {
        exists|failed: ServiceError| #[trigger]
            batch_added(runs[at], block, at, Err(failed)) && {
                &&& result matches Err(error)
                &&& is_trouble(
                    error,
                    (if at == block.block.batches@.len() - 1 {
                        "While adding the last batch to the schedule: "@
                    } else {
                        "While adding a batch to the schedule: "@
                    }) + failed.debug@,
                )
            }
    }
}

/// Wherever a run has got to, it comes to what its remaining steps bring about.
proof fn lemma_runs<S: Scheduler>(
    runs: Seq<S>,
    block: &BlockPair,
    next: nat,
    result: Result<BlockValidationResult, ValidationError>,
)
    requires
        runs.len() == next + 1,
        adds_batches(runs, block),
        batches::scheduled(runs.last(), block, next, batches::outcome(result)),
    ensures
        exists|all: Seq<S>| all[0] == runs[0] && #[trigger] runs_come_to(all, block, result),
    decreases block.block.batches@.len() - next,
{
    let judged = batches::outcome(result);
    let run = runs.last();
    if next < block.block.batches@.len() {
        let added = choose|added: Result<S, ServiceError>| #[trigger]
            call_ensures(
                S::add_batch,
                (
                    run,
                    &block.block.batches@[next as int],
                    batches::expected_after(block, next),
                    false,
                ),
                added,
            ) && match added {
                Err(failed) => judged == Err::<result::BlockReport, error::ErrorView>(
                    batches::add_failure(block, next, failed),
                ),
                Ok(longer) => batches::scheduled(longer, block, next + 1, judged),
            };
        assert(batch_added(run, block, next as int, added));
        match added {
            Ok(longer) => {
                let more = runs.push(longer);
                assert forall|k: int, after: int|
                    0 <= k && after == k + 1 && after < more.len() implies batch_added(
                    #[trigger] more[k],
                    block,
                    k,
                    Ok(#[trigger] more[after]),
                ) by {
                    if after < runs.len() {
                        assert(more[k] == runs[k] && more[after] == runs[after]);
                    }
                }
                lemma_runs(more, block, next + 1, result);
            },
            Err(_) => {
                assert(runs_come_to(runs, block, result));
            },
        }
    } else {
        let finalized = choose|finalized: Result<S, ServiceError>| #[trigger]
            call_ensures(S::finalize, (run, false), finalized) && match finalized {
                Err(failed) => judged == Err::<result::BlockReport, error::ErrorView>(
                    error::ErrorView::BlockValidationError(
                        "During call to scheduler.finalize: "@ + failed.debug@,
                    ),
                ),
                Ok(last) => exists|completed: Result<Option<ExecutionResults>, ServiceError>|
                     #[trigger]
                    call_ensures(S::complete, (last, true), completed) && judged
                        == batches::completion(block, completed),
            };
        match finalized {
            Ok(last) => {
                let completed = choose|completed: Result<Option<ExecutionResults>, ServiceError>|
                     #[trigger]
                    call_ensures(S::complete, (last, true), completed) && judged
                        == batches::completion(block, completed);
                lemma_judged(block, completed, result);
            },
            Err(_) => {},
        }
        assert(ran_to_the_end(run, block, result));
        assert(runs_come_to(runs, block, result));
    }
}

/// Whether executing the block on the state with this root may come to this.
pub open spec fn execution_comes_to<TEP: ExecutionPlatform>(
    transaction_executor: TEP,
    block: &BlockPair,
    root: Seq<u8>,
    result: Result<BlockValidationResult, ValidationError>,
) -> bool {
    ||| exists|failed: ServiceError| #[trigger]
        run_started(transaction_executor, root, Err(failed)) && {
            &&& result matches Err(error)
            &&& is_trouble(
                error,
                "Error during validation of block "@ + block.block.header_signature@
                    + " batches: "@ + failed.debug@,
            )
        }
    ||| exists|runs: Seq<TEP::Run>| #[trigger]
        runs_come_to(runs, block, result) && run_started(transaction_executor, root, Ok(runs[0]))
}

/// All the batches of a block are executed, in order, on the state that the block
/// starts from, or on the null state if there is none, and the block is judged by
/// what comes of it; if the execution does not get that far, it is not judged.
pub proof fn law_execution_decides<TEP: ExecutionPlatform>(
    validation: BatchesInBlockValidation<TEP>,
    block: &BlockPair,
    root: Option<Seq<u8>>,
    result: Result<BlockValidationResult, ValidationError>,
)
    requires
        validation.permits(block, root, result),
    ensures
        execution_comes_to(
            validation.transaction_executor,
            block,
            match root {
                Some(bytes) => bytes,
                None => TEP::NULL_STATE_HASH@,
            },
            result,
        ),
{
    let from = match root {
        Some(bytes) => bytes,
        None => TEP::NULL_STATE_HASH@,
    };
    let judged = batches::outcome(result);
    let run = choose|run: Result<TEP::Run, ServiceError>| #[trigger]
        validation.starts(from, run) && match run {
            Err(failed) => judged == Err::<result::BlockReport, error::ErrorView>(
                batches::create_failure(block, failed),
            ),
            Ok(started) => batches::scheduled(started, block, 0, judged),
        };
    assert(run_started(validation.transaction_executor, from, run));
    match run {
        Ok(started) => {
            lemma_runs(seq![started], block, 0, result);
        },
        Err(_) => {},
    }
}

/// A block is validated by executing all its batches on the state that it starts
/// from.
pub proof fn law_all_batches_are_executed<TEP: ExecutionPlatform>(
    validation: &BatchesInBlockValidation<TEP>,
    block: &BlockPair,
    previous_state_root: Option<&[u8]>,
    result: Result<BlockValidationResult, ValidationError>,
)
    requires
        call_ensures(
            <BatchesInBlockValidation<TEP> as BlockValidation>::validate_block,
            (validation, block, previous_state_root),
            result,
        ),
    ensures
        execution_comes_to(
            validation.transaction_executor,
            block,
            match previous_state_root {
                Some(bytes) => bytes@,
                None => TEP::NULL_STATE_HASH@,
            },
            result,
        ),
{
    law_execution_decides(*validation, block, given_root(previous_state_root), result);
}

} // verus!
