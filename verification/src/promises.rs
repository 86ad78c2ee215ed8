//! What is promised of validation, in terms of what is asked, what is answered and
//! what comes of it.

use vstd::prelude::*;

use crate::batches;
use crate::batches::BatchesInBlockValidation;
use crate::block;
use crate::block::{Batch, BlockPair, Transaction};
use crate::block_laws;
use crate::check_laws;
use crate::duplicates::DuplicatesAndDependenciesValidation;
use crate::error::{ChainCommitStateError, ServiceError, ValidationError};
use crate::execution_laws;
use crate::permission::PermissionValidation;
use crate::processor::{BlockValidation, BlockValidationProcessor};
use crate::processor_laws;
use crate::result::{BlockStatus, BlockValidationResult, TxnExecutionResult};
use crate::rules;
use crate::rules::OnChainRulesValidation;
use crate::sequences;
use crate::service::{
    BlockManager, ExecutionPlatform, ExecutionResults, PermissionVerifier, Scheduler, SettingsView,
    StateViewFactory,
};
use crate::text;

verus! {

/// An execution makes a block valid only if it ends in the state that the block
/// claims, every batch has results, and every transaction in every batch is valid.
/// The report is on the block, and it is made of the reports on all those
/// transactions, one batch after the other, and counts them.
pub proof fn law_valid_only_with_every_transaction_valid(
    block: &BlockPair,
    results: ExecutionResults,
    valid: BlockValidationResult,
)
    requires
        call_ensures(batches::judge_execution, (block, Ok(Some(results))), Ok(valid)),
    ensures
        results.ending_state_hash is Some,
        results.ending_state_hash->0@ == block.header.state_root_hash@,
        forall|i: int|
            0 <= i < results.batch_results@.len() ==> (#[trigger] results.batch_results@[i]).1 is Some,
        forall|i: int, j: int|
            0 <= i < results.batch_results@.len() && 0 <= j < results.batch_results@[i].1->0@.len()
                ==> (#[trigger] results.batch_results@[i].1->0@[j]).is_valid,
        valid.execution_results@.map_values(
            |t: TxnExecutionResult| (t.signature@, t.is_valid, t.receipt@),
        ) == results.batch_results@.map_values(
            |b: (String, Option<Vec<TxnExecutionResult>>)|
                b.1->0@.map_values(
                    |t: TxnExecutionResult| (t.signature@, t.is_valid, t.receipt@),
                ),
        ).flatten(),
        valid.num_transactions == valid.execution_results@.len(),
        valid.block_id@ == block.block.header_signature@,
        valid.status == BlockStatus::Valid,
{
    let completed: Result<Option<ExecutionResults>, ServiceError> = Ok(Some(results));
    execution_laws::law_execution_is_judged(block, completed, Ok(valid));
    let parts = execution_laws::reports_by_batch(results.batch_results@);
    let whole = execution_laws::whole_reports(valid.execution_results@);
    sequences::lemma_holds_all_is_concatenation(whole, parts);
    assert(whole =~= valid.execution_results@.map_values(
        |t: TxnExecutionResult| (t.signature@, t.is_valid, t.receipt@),
    ));
    let mapped = results.batch_results@.map_values(
        |b: (String, Option<Vec<TxnExecutionResult>>)|
            b.1->0@.map_values(|t: TxnExecutionResult| (t.signature@, t.is_valid, t.receipt@)),
    );
    assert forall|i: int| 0 <= i < parts.len() implies parts[i] == mapped[i] by {
        assert(parts[i] =~= mapped[i]);
    }
    assert(parts =~= mapped);
    assert forall|i: int, j: int|
        0 <= i < results.batch_results@.len() && 0 <= j
            < results.batch_results@[i].1->0@.len() implies (
    #[trigger] results.batch_results@[i].1->0@[j]).is_valid by {
        assert(execution_laws::is_in_order(results.batch_results@[i]));
    }
}

/// An execution that ends in the state that the block claims, with results for every
/// batch, all of them valid, makes the block valid.
pub proof fn law_faultless_execution_makes_valid(
    block: &BlockPair,
    results: ExecutionResults,
    result: Result<BlockValidationResult, ValidationError>,
)
    requires
        call_ensures(batches::judge_execution, (block, Ok(Some(results))), result),
        results.ending_state_hash is Some,
        results.ending_state_hash->0@ == block.header.state_root_hash@,
        forall|i: int|
            0 <= i < results.batch_results@.len() ==> (#[trigger] results.batch_results@[i]).1 is Some,
        forall|i: int, j: int|
            0 <= i < results.batch_results@.len() && 0 <= j < results.batch_results@[i].1->0@.len()
                ==> (#[trigger] results.batch_results@[i].1->0@[j]).is_valid,
    ensures
        result is Ok,
{
    let completed: Result<Option<ExecutionResults>, ServiceError> = Ok(Some(results));
    execution_laws::law_execution_is_judged(block, completed, result);
    match result {
        Ok(_) => {},
        Err(error) => {
            let (at, words) = choose|at: int, words: Seq<char>| #[trigger]
                execution_laws::is_first_fault(results.batch_results@, at, words)
                    && check_laws::is_failure(
                    error,
                    execution_laws::failed_validation(block, words),
                );
            let txns = results.batch_results@[at].1->0@;
            let j = choose|j: int| #[trigger]
                execution_laws::is_first_invalid(txns, j) && words == "batch "@
                    + results.batch_results@[at].0@ + " was invalid due to transaction "@
                    + txns[j].signature@;
            assert(results.batch_results@[at].1->0@[j].is_valid);
        },
    }
}

/// An execution that does not end in the state that the block claims makes the block
/// invalid, and says which state it ended in.
pub proof fn law_other_state_makes_invalid(
    block: &BlockPair,
    results: ExecutionResults,
    result: Result<BlockValidationResult, ValidationError>,
)
    requires
        call_ensures(batches::judge_execution, (block, Ok(Some(results))), result),
        results.ending_state_hash matches Some(hash) ==> hash@ != block.header.state_root_hash@,
    ensures
        result matches Err(ValidationError::BlockValidationFailure(reason)) && reason@ == "Block "@
            + block.block.header_signature@ + " failed validation: "@ + match results.ending_state_hash {
            Some(hash) => "expected state hash "@ + text::hexadecimal(block.header.state_root_hash@)
                + ", validation found state hash "@ + text::hexadecimal(hash@),
            None => "no ending state hash was produced"@,
        },
{
    let completed: Result<Option<ExecutionResults>, ServiceError> = Ok(Some(results));
    execution_laws::law_execution_is_judged(block, completed, result);
}

/// The first batch that has no results, behind batches that are all valid, makes the
/// block invalid and is named.
pub proof fn law_batch_without_results_is_named(
    block: &BlockPair,
    results: ExecutionResults,
    at: int,
    result: Result<BlockValidationResult, ValidationError>,
)
    requires
        call_ensures(batches::judge_execution, (block, Ok(Some(results))), result),
        results.ending_state_hash is Some,
        results.ending_state_hash->0@ == block.header.state_root_hash@,
        0 <= at < results.batch_results@.len(),
        results.batch_results@[at].1 is None,
        forall|i: int| 0 <= i < at ==> (#[trigger] results.batch_results@[i]).1 is Some,
        forall|i: int, j: int|
            0 <= i < at && 0 <= j < results.batch_results@[i].1->0@.len() ==> (
            #[trigger] results.batch_results@[i].1->0@[j]).is_valid,
    ensures
        result matches Err(ValidationError::BlockValidationFailure(reason)) && reason@ == "Block "@
            + block.block.header_signature@ + " failed validation: "@ + ("batch "@
            + results.batch_results@[at].0@ + " did not have transaction results"@),
{
    let completed: Result<Option<ExecutionResults>, ServiceError> = Ok(Some(results));
    execution_laws::law_execution_is_judged(block, completed, result);
    lemma_fault_is_the_first(results, at, -1);
    if result is Ok {
        assert(execution_laws::is_in_order(results.batch_results@[at]));
    }
}

/// The first invalid transaction of all, behind batches and transactions that are all
/// valid, makes the block invalid and is named, with its batch.
pub proof fn law_invalid_transaction_is_named(
    block: &BlockPair,
    results: ExecutionResults,
    at: int,
    bad: int,
    result: Result<BlockValidationResult, ValidationError>,
)
    requires
        call_ensures(batches::judge_execution, (block, Ok(Some(results))), result),
        results.ending_state_hash is Some,
        results.ending_state_hash->0@ == block.header.state_root_hash@,
        0 <= at < results.batch_results@.len(),
        results.batch_results@[at].1 is Some,
        0 <= bad < results.batch_results@[at].1->0@.len(),
        !results.batch_results@[at].1->0@[bad].is_valid,
        forall|k: int| 0 <= k < bad ==> (#[trigger] results.batch_results@[at].1->0@[k]).is_valid,
        forall|i: int| 0 <= i < at ==> (#[trigger] results.batch_results@[i]).1 is Some,
        forall|i: int, j: int|
            0 <= i < at && 0 <= j < results.batch_results@[i].1->0@.len() ==> (
            #[trigger] results.batch_results@[i].1->0@[j]).is_valid,
    ensures
        result matches Err(ValidationError::BlockValidationFailure(reason)) && reason@ == "Block "@
            + block.block.header_signature@ + " failed validation: "@ + ("batch "@
            + results.batch_results@[at].0@ + " was invalid due to transaction "@
            + results.batch_results@[at].1->0@[bad].signature@),
{
    let completed: Result<Option<ExecutionResults>, ServiceError> = Ok(Some(results));
    execution_laws::law_execution_is_judged(block, completed, result);
    lemma_fault_is_the_first(results, at, bad);
    if result is Ok {
        assert(execution_laws::is_in_order(results.batch_results@[at]));
    }
}

/// What is said to be wrong with the batches is wrong with the first that is at
/// fault.
proof fn lemma_fault_is_the_first(results: ExecutionResults, at: int, bad: int)
    requires
        0 <= at < results.batch_results@.len(),
        forall|i: int| 0 <= i < at ==> (#[trigger] results.batch_results@[i]).1 is Some,
        forall|i: int, j: int|
            0 <= i < at && 0 <= j < results.batch_results@[i].1->0@.len() ==> (
            #[trigger] results.batch_results@[i].1->0@[j]).is_valid,
        results.batch_results@[at].1 matches Some(txns) ==> execution_laws::is_first_invalid(
            txns@,
            bad,
        ),
    ensures
        forall|k: int, words: Seq<char>| #[trigger]
            execution_laws::is_first_fault(results.batch_results@, k, words) ==> k == at
                && words == match results.batch_results@[at].1 {
                None => "batch "@ + results.batch_results@[at].0@
                    + " did not have transaction results"@,
                Some(txns) => "batch "@ + results.batch_results@[at].0@
                    + " was invalid due to transaction "@ + txns@[bad].signature@,
            },
{
    let all = results.batch_results@;
    assert forall|k: int, words: Seq<char>| #[trigger]
        execution_laws::is_first_fault(all, k, words) implies k == at && words == match all[at].1 {
        None => "batch "@ + all[at].0@ + " did not have transaction results"@,
        Some(txns) => "batch "@ + all[at].0@ + " was invalid due to transaction "@
            + txns@[bad].signature@,
    } by {
        if k < at {
            let txns = all[k].1->0@;
            let j = choose|j: int| #[trigger]
                execution_laws::is_first_invalid(txns, j) && words == "batch "@ + all[k].0@
                    + " was invalid due to transaction "@ + txns[j].signature@;
            assert(results.batch_results@[k].1->0@[j].is_valid);
        } else if at < k {
            assert(execution_laws::is_in_order(all[at]));
        } else if all[at].1 is Some {
            let txns = all[at].1->0@;
            let j = choose|j: int| #[trigger]
                execution_laws::is_first_invalid(txns, j) && words == "batch "@ + all[at].0@
                    + " was invalid due to transaction "@ + txns[j].signature@;
            if j < bad {
                assert(txns[j].is_valid);
            } else if bad < j {
                assert(txns[bad].is_valid);
            }
        }
    }
}

/// An execution without results makes the block invalid, and one that ended in
/// trouble leaves it unjudged.
pub proof fn law_execution_without_results(
    block: &BlockPair,
    completed: Result<Option<ExecutionResults>, ServiceError>,
    result: Result<BlockValidationResult, ValidationError>,
)
    requires
        call_ensures(batches::judge_execution, (block, completed), result),
        completed matches Ok(found) ==> found is None,
    ensures
        match completed {
            Ok(_) => result matches Err(ValidationError::BlockValidationFailure(reason)) && reason@
                == "Block "@ + block.block.header_signature@ + " failed validation: "@
                + "no execution results produced"@,
            Err(failed) => result matches Err(ValidationError::BlockValidationError(reason))
                && reason@ == "During call to scheduler.complete: "@ + failed.debug@,
        },
{
    execution_laws::law_execution_is_judged(block, completed, result);
}

/// A block is found valid only by a run that was started on the state that the block
/// starts from, or on the null state if there is none, that was given every batch of
/// the block, in order, the last one with the state that the block claims, and that
/// was finalized, waited for, and found without fault.
pub proof fn law_valid_only_if_every_batch_was_run<TEP: ExecutionPlatform>(
    validation: &BatchesInBlockValidation<TEP>,
    block: &BlockPair,
    previous_state_root: Option<&[u8]>,
    valid: BlockValidationResult,
)
    requires
        call_ensures(
            <BatchesInBlockValidation<TEP> as BlockValidation>::validate_block,
            (validation, block, previous_state_root),
            Ok(valid),
        ),
    ensures
        exists|
            state_root: &[u8],
            runs: Seq<TEP::Run>,
            last: TEP::Run,
            results: ExecutionResults,
        |
            #![trigger
                call_ensures(
                    TEP::create_scheduler,
                    (&validation.transaction_executor, state_root),
                    Ok(runs[0]),
                ),
                call_ensures(TEP::Run::complete, (last, true), Ok(Some(results)))]
            {
                &&& state_root@ == match previous_state_root {
                    Some(root) => root@,
                    None => TEP::NULL_STATE_HASH@,
                }
                &&& call_ensures(
                    TEP::create_scheduler,
                    (&validation.transaction_executor, state_root),
                    Ok(runs[0]),
                )
                &&& runs.len() == block.block.batches@.len() + 1
                &&& forall|k: int, next: int|
                    0 <= k < block.block.batches@.len() && next == k + 1 ==> call_ensures(
                        TEP::Run::add_batch,
                        (
                            #[trigger] runs[k],
                            &block.block.batches@[k],
                            if next == block.block.batches@.len() {
                                Some(&block.header.state_root_hash)
                            } else {
                                None
                            },
                            false,
                        ),
                        Ok(#[trigger] runs[next]),
                    )
                &&& call_ensures(
                    TEP::Run::finalize,
                    (runs[block.block.batches@.len() as int], false),
                    Ok(last),
                )
                &&& call_ensures(TEP::Run::complete, (last, true), Ok(Some(results)))
                &&& results.ending_state_hash is Some
                &&& results.ending_state_hash->0@ == block.header.state_root_hash@
                &&& forall|i: int|
                    0 <= i < results.batch_results@.len() ==> (
                    #[trigger] results.batch_results@[i]).1 is Some
                &&& forall|i: int, j: int|
                    0 <= i < results.batch_results@.len() && 0 <= j
                        < results.batch_results@[i].1->0@.len() ==> (
                    #[trigger] results.batch_results@[i].1->0@[j]).is_valid
            },
{
    let result: Result<BlockValidationResult, ValidationError> = Ok(valid);
    execution_laws::law_all_batches_are_executed(validation, block, previous_state_root, result);
    let root = match previous_state_root {
        Some(root) => root@,
        None => TEP::NULL_STATE_HASH@,
    };
    let executor = validation.transaction_executor;
    let runs = choose|runs: Seq<TEP::Run>| #[trigger]
        execution_laws::runs_come_to(runs, block, result) && execution_laws::run_started(
            executor,
            root,
            Ok(runs[0]),
        );
    let state_root = choose|state_root: &[u8]|
        state_root@ == root && #[trigger] call_ensures(
            TEP::create_scheduler,
            (&executor, state_root),
            Ok(runs[0]),
        );
    let count = block.block.batches@.len() as int;
    let finalized = choose|finalized: Result<TEP::Run, ServiceError>| #[trigger]
        call_ensures(TEP::Run::finalize, (runs[count], false), finalized) && match finalized {
            Err(failed) => result matches Err(error) && check_laws::is_trouble(
                error,
                "During call to scheduler.finalize: "@ + failed.debug@,
            ),
            Ok(last) => exists|completed: Result<Option<ExecutionResults>, ServiceError>| #[trigger]
                call_ensures(TEP::Run::complete, (last, true), completed)
                    && execution_laws::judged_after(block, completed, result),
        };
    let last = finalized->Ok_0;
    let completed = choose|completed: Result<Option<ExecutionResults>, ServiceError>| #[trigger]
        call_ensures(TEP::Run::complete, (last, true), completed) && execution_laws::judged_after(
            block,
            completed,
            result,
        );
    let results = completed->Ok_0->0;
    assert(call_ensures(TEP::Run::complete, (last, true), Ok(Some(results))));
    assert forall|k: int, next: int| 0 <= k < count && next == k + 1 implies call_ensures(
        TEP::Run::add_batch,
        (
            #[trigger] runs[k],
            &block.block.batches@[k],
            if next == block.block.batches@.len() {
                Some(&block.header.state_root_hash)
            } else {
                None
            },
            false,
        ),
        Ok(#[trigger] runs[next]),
    ) by {
        assert(execution_laws::batch_added(runs[k], block, k, Ok(runs[next])));
    }
    assert forall|i: int, j: int|
        0 <= i < results.batch_results@.len() && 0 <= j
            < results.batch_results@[i].1->0@.len() implies (
    #[trigger] results.batch_results@[i].1->0@[j]).is_valid by {
        assert(execution_laws::is_in_order(results.batch_results@[i]));
    }
}

/// All validations are given the root in the header of the previous block, if that
/// block is found, whatever block it is, and none if it is not. A block is valid only
/// if each of them, the one at any `i`, lets it pass on that root, and the
/// validation of the state finds it
/// so on that root; and a refusal is that of one of them on that root.
pub proof fn law_found_root_is_given_to_all<
    BM: BlockManager,
    V: BlockValidation<ReturnValue = ()>,
    SBV: BlockValidation<ReturnValue = BlockValidationResult>,
>(
    processor: &BlockValidationProcessor<BM, V, SBV>,
    block: &BlockPair,
    root: Option<Seq<u8>>,
    i: int,
    result: Result<BlockValidationResult, ValidationError>,
)
    requires
        call_ensures(
            BlockValidationProcessor::<BM, V, SBV>::validate_block,
            (processor, block),
            result,
        ),
        forall|ids: Vec<&String>, found: Vec<Option<BlockPair>>| #[trigger]
            call_ensures(BM::get, (&processor.block_manager, &ids), found) && ids@.len() == 1
                && *ids@[0] == block.header.previous_block_id ==> if found@.len() > 0 {
                match found@[0] {
                    Some(pair) => root == Some(pair.header.state_root_hash@),
                    None => root is None,
                }
            } else {
                root is None
            },
    ensures
        result is Ok ==> {
            &&& processor.state_validation.permits(block, root, result)
            &&& 0 <= i < processor.validations@.len() ==> exists|
                outcome: Result<(), ValidationError>,
            |
                outcome is Ok && #[trigger] processor.validations@[i].permits(block, root, outcome)
        },
        result matches Err(refused) ==> {
            ||| processor.state_validation.permits(block, root, result)
            ||| exists|at: int|
                0 <= at < processor.validations@.len() && #[trigger] processor.validations@[at].permits(
                    block,
                    root,
                    Err(refused),
                )
        },
{
    processor_laws::law_validations_share_the_root(processor, block, result);
    let (given, at) = choose|given: Option<Seq<u8>>, at: int|
        processor_laws::looked_up(processor.block_manager, block, given)
            && #[trigger] processor_laws::decided_at(
            processor.validations@,
            processor.state_validation,
            block,
            given,
            at,
            result,
        );
    assert(given == root);
    if 0 <= i < at {
        assert(processor_laws::lets_pass(processor.validations@[i], block, root));
    }
}

/// The transactions that are gathered from batches are those of the first, then those
/// of the second, and so on, all of them and no others.
pub proof fn law_transactions_are_concatenated(batches: &Vec<Batch>, refs: Vec<&Transaction>)
    requires
        call_ensures(block::transactions, (batches,), refs),
    ensures
        refs@.map_values(|t: &Transaction| *t) == batches@.map_values(
            |b: Batch| b.transactions@,
        ).flatten(),
{
    block_laws::law_every_transaction_is_gathered(batches, refs);
    lemma_all_transactions(batches@);
    let all = choose|all: Seq<Transaction>|
        {
            &&& #[trigger] sequences::holds_all(all, block_laws::by_batch(batches@))
            &&& refs@.len() == all.len()
            &&& forall|k: int| 0 <= k < all.len() ==> *refs@[k] == #[trigger] all[k]
        };
    sequences::lemma_holds_all_is_concatenation(all, block_laws::by_batch(batches@));
    assert(refs@.map_values(|t: &Transaction| *t) =~= all);
}

proof fn lemma_all_transactions(batches: Seq<Batch>)
    ensures
        block_laws::by_batch(batches) == batches.map_values(|b: Batch| b.transactions@),
{
    assert(block_laws::by_batch(batches) =~= batches.map_values(|b: Batch| b.transactions@));
}

/// The transaction identifiers that are gathered from batches are those of the
/// transactions of the first, then of the second, and so on, all of them and no others.
pub proof fn law_transaction_ids_are_concatenated(batches: &Vec<Batch>, ids: Vec<&String>)
    requires
        call_ensures(block::transaction_ids, (batches,), ids),
    ensures
        ids@.map_values(|id: &String| *id) == batches@.map_values(
            |b: Batch| b.transactions@,
        ).flatten().map_values(|t: Transaction| t.header_signature),
{
    block_laws::law_every_transaction_id_is_gathered(batches, ids);
    lemma_all_transactions(batches@);
    lemma_transaction_ids(ids@, batches@);
}

proof fn lemma_transaction_ids(ids: Seq<&String>, batches: Seq<Batch>)
    requires
        block_laws::lists_transactions(ids, batches),
    ensures
        ids.map_values(|id: &String| *id) == batches.map_values(
            |b: Batch| b.transactions@,
        ).flatten().map_values(|t: Transaction| t.header_signature),
{
    lemma_all_transactions(batches);
    let all = choose|all: Seq<Transaction>|
        {
            &&& #[trigger] sequences::holds_all(all, block_laws::by_batch(batches))
            &&& ids.len() == all.len()
            &&& forall|k: int| 0 <= k < all.len() ==> *ids[k] == (#[trigger] all[k]).header_signature
        };
    sequences::lemma_holds_all_is_concatenation(all, block_laws::by_batch(batches));
    assert(ids.map_values(|id: &String| *id) =~= all.map_values(
        |t: Transaction| t.header_signature,
    ));
}

proof fn lemma_transaction_refs(refs: Seq<&Transaction>, batches: Seq<Batch>)
    requires
        block_laws::refers_to_transactions(refs, batches),
    ensures
        refs.map_values(|t: &Transaction| *t) == batches.map_values(
            |b: Batch| b.transactions@,
        ).flatten(),
{
    lemma_all_transactions(batches);
    let all = choose|all: Seq<Transaction>|
        {
            &&& #[trigger] sequences::holds_all(all, block_laws::by_batch(batches))
            &&& refs.len() == all.len()
            &&& forall|k: int| 0 <= k < all.len() ==> *refs[k] == #[trigger] all[k]
        };
    sequences::lemma_holds_all_is_concatenation(all, block_laws::by_batch(batches));
    assert(refs.map_values(|t: &Transaction| *t) =~= all);
}

/// The batch identifiers that are gathered are those of all the batches, in order.
pub proof fn law_batch_ids_are_listed(batches: &Vec<Batch>, ids: Vec<&String>)
    requires
        call_ensures(block::batch_ids, (batches,), ids),
    ensures
        ids@.map_values(|id: &String| *id) == batches@.map_values(|b: Batch| b.header_signature),
{
    block_laws::law_every_batch_id_is_gathered(batches, ids);
    assert(ids@.map_values(|id: &String| *id) =~= batches@.map_values(
        |b: Batch| b.header_signature,
    ));
}

/// A block passes only if the chain, asked on the branch that the block extends,
/// refuses neither all of its batches, nor all of its transactions, nor what all of its
/// transactions depend on.
pub proof fn law_passes_only_if_the_chain_refuses_nothing<BM: BlockManager>(
    validation: &DuplicatesAndDependenciesValidation<BM>,
    block: &BlockPair,
    previous_state_root: Option<&[u8]>,
    result: Result<(), ValidationError>,
)
    requires
        call_ensures(
            <DuplicatesAndDependenciesValidation<BM> as BlockValidation>::validate_block,
            (validation, block, previous_state_root),
            result,
        ),
        result is Ok,
    ensures
        exists|ids: Vec<&String>, answer: Result<(), ChainCommitStateError>|
            {
                &&& #[trigger] call_ensures(
                    BM::validate_no_duplicate_batches,
                    (&validation.block_manager, &block.header.previous_block_id, &ids),
                    answer,
                )
                &&& answer is Ok
                &&& ids@.map_values(|id: &String| *id) == block.block.batches@.map_values(
                    |b: Batch| b.header_signature,
                )
            },
        exists|ids: Vec<&String>, answer: Result<(), ChainCommitStateError>|
            {
                &&& #[trigger] call_ensures(
                    BM::validate_no_duplicate_transactions,
                    (&validation.block_manager, &block.header.previous_block_id, &ids),
                    answer,
                )
                &&& answer is Ok
                &&& ids@.map_values(|id: &String| *id) == block.block.batches@.map_values(
                    |b: Batch| b.transactions@,
                ).flatten().map_values(|t: Transaction| t.header_signature)
            },
        exists|refs: Vec<&Transaction>, answer: Result<(), ChainCommitStateError>|
            {
                &&& #[trigger] call_ensures(
                    BM::validate_transaction_dependencies,
                    (&validation.block_manager, &block.header.previous_block_id, &refs),
                    answer,
                )
                &&& answer is Ok
                &&& refs@.map_values(|t: &Transaction| *t) == block.block.batches@.map_values(
                    |b: Batch| b.transactions@,
                ).flatten()
            },
{
    let manager = validation.block_manager;
    check_laws::law_chain_is_asked_about_everything(
        validation,
        block,
        previous_state_root,
        result,
    );
    let batches = choose|answer: Result<(), ChainCommitStateError>|
        answer is Ok && #[trigger] check_laws::batches_checked(manager, block, answer);
    let ids = choose|ids: Vec<&String>|
        block_laws::lists_batches(ids@, block.block.batches@) && #[trigger] call_ensures(
            BM::validate_no_duplicate_batches,
            (&manager, &block.header.previous_block_id, &ids),
            batches,
        );
    assert(ids@.map_values(|id: &String| *id) =~= block.block.batches@.map_values(
        |b: Batch| b.header_signature,
    ));
    let transactions = choose|answer: Result<(), ChainCommitStateError>|
        answer is Ok && #[trigger] check_laws::transactions_checked(manager, block, answer);
    let txn_ids = choose|ids: Vec<&String>|
        block_laws::lists_transactions(ids@, block.block.batches@) && #[trigger] call_ensures(
            BM::validate_no_duplicate_transactions,
            (&manager, &block.header.previous_block_id, &ids),
            transactions,
        );
    lemma_transaction_ids(txn_ids@, block.block.batches@);
    let dependencies = choose|answer: Result<(), ChainCommitStateError>|
        answer is Ok && #[trigger] check_laws::dependencies_checked(manager, block, answer);
    let refs = choose|refs: Vec<&Transaction>|
        block_laws::refers_to_transactions(refs@, block.block.batches@) && #[trigger] call_ensures(
            BM::validate_transaction_dependencies,
            (&manager, &block.header.previous_block_id, &refs),
            dependencies,
        );
    lemma_transaction_refs(refs@, block.block.batches@);
}

/// A block that the chain never refuses anything of passes.
pub proof fn law_passes_if_the_chain_refuses_nothing<BM: BlockManager>(
    validation: &DuplicatesAndDependenciesValidation<BM>,
    block: &BlockPair,
    previous_state_root: Option<&[u8]>,
    result: Result<(), ValidationError>,
)
    requires
        call_ensures(
            <DuplicatesAndDependenciesValidation<BM> as BlockValidation>::validate_block,
            (validation, block, previous_state_root),
            result,
        ),
        forall|ids: Vec<&String>, answer: Result<(), ChainCommitStateError>| #[trigger]
            call_ensures(
                BM::validate_no_duplicate_batches,
                (&validation.block_manager, &block.header.previous_block_id, &ids),
                answer,
            ) ==> answer is Ok,
        forall|ids: Vec<&String>, answer: Result<(), ChainCommitStateError>| #[trigger]
            call_ensures(
                BM::validate_no_duplicate_transactions,
                (&validation.block_manager, &block.header.previous_block_id, &ids),
                answer,
            ) ==> answer is Ok,
        forall|refs: Vec<&Transaction>, answer: Result<(), ChainCommitStateError>| #[trigger]
            call_ensures(
                BM::validate_transaction_dependencies,
                (&validation.block_manager, &block.header.previous_block_id, &refs),
                answer,
            ) ==> answer is Ok,
    ensures
        result is Ok,
{
    check_laws::law_chain_is_asked_about_everything(
        validation,
        block,
        previous_state_root,
        result,
    );
}

/// A duplicate or a missing dependency makes a block invalid and is named; any other
/// trouble of the chain is passed on and leaves the block unjudged.
pub proof fn law_refusal_names_what_is_refused(
    refused: ChainCommitStateError,
    error: ValidationError,
)
    requires
        call_ensures(
            <ValidationError as From<ChainCommitStateError>>::from,
            (refused,),
            error,
        ),
    ensures
        match refused {
            ChainCommitStateError::DuplicateBatch(id) => error
                matches ValidationError::BlockValidationFailure(reason) && reason@
                == "Validation failure, duplicate batch "@ + id@,
            ChainCommitStateError::DuplicateTransaction(id) => error
                matches ValidationError::BlockValidationFailure(reason) && reason@
                == "Validation failure, duplicate transaction "@ + id@,
            ChainCommitStateError::MissingDependency(id) => error
                matches ValidationError::BlockValidationFailure(reason) && reason@
                == "Validation failure, missing dependency "@ + id@,
            ChainCommitStateError::Error(trouble) => error
                matches ValidationError::BlockValidationError(reason) && reason@ == trouble@,
        },
{
    check_laws::law_refusal_is_conveyed(refused, error);
}

/// A block that is not the first passes only if permissions in the state that it
/// starts from authorize the signer of every one of its batches, from the first on.
pub proof fn law_passes_only_if_every_signer_is_authorized<VF: StateViewFactory>(
    validation: &PermissionValidation<VF>,
    block: &BlockPair,
    root: &[u8],
    result: Result<(), ValidationError>,
)
    requires
        block.header.block_num != 0,
        call_ensures(
            <PermissionValidation<VF> as BlockValidation>::validate_block,
            (validation, block, Some(root)),
            result,
        ),
        result is Ok,
    ensures
        exists|state_root: &[u8], permissions: VF::Permissions|
            {
                &&& state_root@ == root@
                &&& #[trigger] call_ensures(
                    VF::create_permission_verifier,
                    (&validation.state_view_factory, state_root),
                    Ok(permissions),
                )
                &&& forall|i: int|
                    0 <= i < block.block.batches@.len() ==> call_ensures(
                        VF::Permissions::is_batch_signer_authorized,
                        (&permissions, &#[trigger] block.block.batches@[i]),
                        Ok(true),
                    )
            },
{
    let factory = validation.state_view_factory;
    check_laws::law_every_signer_needs_permission(validation, block, Some(root), result);
    let permissions = choose|permissions: VF::Permissions| #[trigger]
        check_laws::all_authorized(permissions, block, block.block.batches@.len() as int)
            && check_laws::permissions_opened(factory, root@, Ok(permissions));
    let state_root = choose|state_root: &[u8]|
        state_root@ == root@ && #[trigger] call_ensures(
            VF::create_permission_verifier,
            (&factory, state_root),
            Ok(permissions),
        );
}

/// A block whose signers are always authorized, by permissions that can always be
/// opened, passes; the first block of a chain passes whatever the permissions say.
pub proof fn law_passes_if_every_signer_is_authorized<VF: StateViewFactory>(
    validation: &PermissionValidation<VF>,
    block: &BlockPair,
    root: Option<&[u8]>,
    result: Result<(), ValidationError>,
)
    requires
        call_ensures(
            <PermissionValidation<VF> as BlockValidation>::validate_block,
            (validation, block, root),
            result,
        ),
        block.header.block_num == 0 || root is Some,
        block.header.block_num != 0 ==> forall|
            state_root: &[u8],
            view: Result<VF::Permissions, ServiceError>,
        | #[trigger]
            call_ensures(
                VF::create_permission_verifier,
                (&validation.state_view_factory, state_root),
                view,
            ) ==> view is Ok,
        block.header.block_num != 0 ==> forall|
            permissions: VF::Permissions,
            i: int,
            answer: Result<bool, ServiceError>,
        |
            0 <= i < block.block.batches@.len() && #[trigger] call_ensures(
                VF::Permissions::is_batch_signer_authorized,
                (&permissions, &block.block.batches@[i]),
                answer,
            ) ==> answer == Ok::<bool, ServiceError>(true),
    ensures
        result is Ok,
{
    check_laws::law_every_signer_needs_permission(validation, block, root, result);
    if block.header.block_num != 0 && result is Err {
        let factory = validation.state_view_factory;
        let error = result->Err_0;
        assert forall|view: Result<VF::Permissions, ServiceError>| #[trigger]
            check_laws::permissions_opened(factory, root->0@, view) implies view is Ok by {}
        let permissions = choose|permissions: VF::Permissions| #[trigger]
            check_laws::refused_by(permissions, block, error) && check_laws::permissions_opened(
                factory,
                root->0@,
                Ok(permissions),
            );
        let (at, answer) = choose|at: int, answer: Result<bool, ServiceError>| #[trigger]
            check_laws::signer_answer(permissions, block, at, answer)
                && check_laws::all_authorized(permissions, block, at) && match answer {
                Ok(authorized) => !authorized && check_laws::is_failure(
                    error,
                    check_laws::unauthorized(block, &block.block.batches@[at]),
                ),
                Err(failure) => check_laws::is_trouble(
                    error,
                    check_laws::unreadable_permissions(block, failure),
                ),
            };
        assert(answer == Ok::<bool, ServiceError>(true));
    }
}

/// The first signer who is never authorized, behind others who always are, makes a
/// block that is not the first invalid, and the batch is named.
pub proof fn law_unauthorized_signer_makes_invalid<VF: StateViewFactory>(
    validation: &PermissionValidation<VF>,
    block: &BlockPair,
    root: &[u8],
    at: int,
    result: Result<(), ValidationError>,
)
    requires
        block.header.block_num != 0,
        call_ensures(
            <PermissionValidation<VF> as BlockValidation>::validate_block,
            (validation, block, Some(root)),
            result,
        ),
        0 <= at < block.block.batches@.len(),
        forall|state_root: &[u8], view: Result<VF::Permissions, ServiceError>| #[trigger]
            call_ensures(
                VF::create_permission_verifier,
                (&validation.state_view_factory, state_root),
                view,
            ) ==> view is Ok,
        forall|permissions: VF::Permissions, i: int, answer: Result<bool, ServiceError>|
            0 <= i < at && #[trigger] call_ensures(
                VF::Permissions::is_batch_signer_authorized,
                (&permissions, &block.block.batches@[i]),
                answer,
            ) ==> answer == Ok::<bool, ServiceError>(true),
        forall|permissions: VF::Permissions, answer: Result<bool, ServiceError>| #[trigger]
            call_ensures(
                VF::Permissions::is_batch_signer_authorized,
                (&permissions, &block.block.batches@[at]),
                answer,
            ) ==> answer == Ok::<bool, ServiceError>(false),
    ensures
        result matches Err(ValidationError::BlockValidationFailure(reason)) && reason@ == "Block "@
            + block.block.header_signature@ + " failed permission verification: batch "@
            + block.block.batches@[at].header_signature@ + " signer is not authorized"@,
{
    let factory = validation.state_view_factory;
    check_laws::law_every_signer_needs_permission(validation, block, Some(root), result);
    assert forall|view: Result<VF::Permissions, ServiceError>| #[trigger]
        check_laws::permissions_opened(factory, root@, view) implies view is Ok by {}
    match result {
        Ok(()) => {
            let permissions = choose|permissions: VF::Permissions| #[trigger]
                check_laws::all_authorized(permissions, block, block.block.batches@.len() as int)
                    && check_laws::permissions_opened(factory, root@, Ok(permissions));
            assert(call_ensures(
                VF::Permissions::is_batch_signer_authorized,
                (&permissions, &block.block.batches@[at]),
                Ok(true),
            ));
        },
        Err(error) => {
            let permissions = choose|permissions: VF::Permissions| #[trigger]
                check_laws::refused_by(permissions, block, error)
                    && check_laws::permissions_opened(factory, root@, Ok(permissions));
            let (k, answer) = choose|k: int, answer: Result<bool, ServiceError>| #[trigger]
                check_laws::signer_answer(permissions, block, k, answer)
                    && check_laws::all_authorized(permissions, block, k) && match answer {
                    Ok(authorized) => !authorized && check_laws::is_failure(
                        error,
                        check_laws::unauthorized(block, &block.block.batches@[k]),
                    ),
                    Err(failure) => check_laws::is_trouble(
                        error,
                        check_laws::unreadable_permissions(block, failure),
                    ),
                };
            if k < at {
                assert(answer == Ok::<bool, ServiceError>(true));
            } else if at < k {
                assert(call_ensures(
                    VF::Permissions::is_batch_signer_authorized,
                    (&permissions, &block.block.batches@[at]),
                    Ok(true),
                ));
            }
        },
    }
}

/// The answer of the rules decides, whatever the block: one that breaks them is
/// invalid, and one that obeys them passes.
pub proof fn law_broken_rules_make_invalid(
    block: &BlockPair,
    obeyed: bool,
    result: Result<(), ValidationError>,
)
    requires
        call_ensures(rules::judge_rules, (block, obeyed), result),
    ensures
        obeyed ==> result is Ok,
        !obeyed ==> (result matches Err(ValidationError::BlockValidationFailure(reason)) && reason@
            == "Block "@ + block.block.header_signature@ + " failed validation rules"@),
{
    check_laws::law_rules_decide(block, obeyed, result);
}

/// A block that is not the first passes only if settings of the state that it starts
/// from say that its batches and their signer obey the rules.
pub proof fn law_passes_only_if_the_rules_are_obeyed<VF: StateViewFactory>(
    validation: &OnChainRulesValidation<VF>,
    block: &BlockPair,
    root: &[u8],
    result: Result<(), ValidationError>,
)
    requires
        block.header.block_num != 0,
        call_ensures(
            <OnChainRulesValidation<VF> as BlockValidation>::validate_block,
            (validation, block, Some(root)),
            result,
        ),
        result is Ok,
    ensures
        exists|state_root: &[u8], settings: VF::Settings|
            {
                &&& state_root@ == root@
                &&& #[trigger] call_ensures(
                    VF::create_settings_view,
                    (&validation.view_factory, state_root),
                    Ok(settings),
                )
                &&& call_ensures(
                    VF::Settings::enforce_validation_rules,
                    (&settings, &block.header.signer_public_key, &block.block.batches),
                    true,
                )
            },
{
    let factory = validation.view_factory;
    check_laws::law_rules_are_enforced(validation, block, Some(root), result);
    let settings = choose|settings: VF::Settings| #[trigger]
        check_laws::rules_answer(settings, block, true) && check_laws::settings_opened(
            factory,
            root@,
            Ok(settings),
        );
    let state_root = choose|state_root: &[u8]|
        state_root@ == root@ && #[trigger] call_ensures(
            VF::create_settings_view,
            (&factory, state_root),
            Ok(settings),
        );
}

/// Where the rules can always be read and always give the same answer, that answer
/// decides on every block but the first, which passes whatever they say.
pub proof fn law_passes_if_and_only_if_the_rules_say_so<VF: StateViewFactory>(
    validation: &OnChainRulesValidation<VF>,
    block: &BlockPair,
    root: Option<&[u8]>,
    obeyed: bool,
    result: Result<(), ValidationError>,
)
    requires
        call_ensures(
            <OnChainRulesValidation<VF> as BlockValidation>::validate_block,
            (validation, block, root),
            result,
        ),
        block.header.block_num == 0 || root is Some,
        block.header.block_num != 0 ==> forall|
            state_root: &[u8],
            view: Result<VF::Settings, ServiceError>,
        | #[trigger]
            call_ensures(
                VF::create_settings_view,
                (&validation.view_factory, state_root),
                view,
            ) ==> view is Ok,
        block.header.block_num != 0 ==> forall|settings: VF::Settings, answer: bool| #[trigger]
            call_ensures(
                VF::Settings::enforce_validation_rules,
                (&settings, &block.header.signer_public_key, &block.block.batches),
                answer,
            ) ==> answer == obeyed,
    ensures
        block.header.block_num == 0 ==> result is Ok,
        block.header.block_num != 0 && obeyed ==> result is Ok,
        block.header.block_num != 0 && !obeyed ==> (result matches Err(
            ValidationError::BlockValidationFailure(reason),
        ) && reason@ == "Block "@ + block.block.header_signature@ + " failed validation rules"@),
{
    check_laws::law_rules_are_enforced(validation, block, root, result);
    let factory = validation.view_factory;
    if block.header.block_num != 0 {
        assert forall|view: Result<VF::Settings, ServiceError>| #[trigger]
            check_laws::settings_opened(factory, root->0@, view) implies view is Ok by {}
    }
}

} // verus!
