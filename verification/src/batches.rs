//! The batches of a block, executed.

use vstd::prelude::*;

use crate::block::BlockPair;
use crate::error;
use crate::error::{ServiceError, ValidationError};
use crate::processor::BlockValidation;
use crate::result;
use crate::result::{BlockStatus, BlockValidationResult, TxnExecutionResult};
use crate::service::{ExecutionPlatform, ExecutionResults, Scheduler};
use crate::text;
use crate::text::hex_encode;

verus! {

/// Validates that all the batches are valid and that the transactions produce
/// the state that the block claims.
pub struct BatchesInBlockValidation<TEP: ExecutionPlatform> {
    pub transaction_executor: TEP,
}

/// What the validation of a state came to.
pub open spec fn outcome(result: Result<BlockValidationResult, ValidationError>) -> Result<
    result::BlockReport,
    error::ErrorView,
> {
    match result {
        Ok(valid) => Ok(valid@),
        Err(error) => Err(error@),
    }
}

/// The block is invalid, for this reason.
pub open spec fn failure(block: &BlockPair, reason: Seq<char>) -> error::ErrorView {
    error::ErrorView::BlockValidationFailure(
        "Block "@ + block.id() + " failed validation: "@ + reason,
    )
}

/// The first report of a transaction that was not valid.
pub open spec fn first_invalid(reports: Seq<result::TxnReport>) -> Option<result::TxnReport>
    decreases reports.len(),
{
    if reports.len() == 0 {
        None
    } else if first_invalid(reports.drop_last()) is Some {
        first_invalid(reports.drop_last())
    } else if !reports.last().is_valid {
        Some(reports.last())
    } else {
        None
    }
}

/// The reports on the transactions of one batch, if there are any and all of
/// them are valid.
pub open spec fn batch_reports(
    block: &BlockPair,
    batch_result: (String, Option<Vec<TxnExecutionResult>>),
) -> Result<Seq<result::TxnReport>, error::ErrorView> {
    match batch_result.1 {
        None => Err(
            failure(
                block,
                "batch "@ + batch_result.0@ + " did not have transaction results"@,
            ),
        ),
        Some(results) => match first_invalid(result::reports(results@)) {
            Some(invalid) => Err(
                failure(
                    block,
                    "batch "@ + batch_result.0@ + " was invalid due to transaction "@
                        + invalid.signature,
                ),
            ),
            None => Ok(result::reports(results@)),
        },
    }
}

/// The reports on the transactions of all the batches, in order, unless one of
/// the batches is at fault: the first such batch decides.
pub open spec fn all_reports(
    block: &BlockPair,
    batch_results: Seq<(String, Option<Vec<TxnExecutionResult>>)>,
) -> Result<Seq<result::TxnReport>, error::ErrorView>
    decreases batch_results.len(),
{
    if batch_results.len() == 0 {
        Ok(Seq::empty())
    } else {
        match all_reports(block, batch_results.drop_last()) {
            Err(error) => Err(error),
            Ok(earlier) => match batch_reports(block, batch_results.last()) {
                Err(error) => Err(error),
                Ok(last) => Ok(earlier + last),
            },
        }
    }
}

/// The judgement on a block, by what its execution produced: the state has to
/// be the one that the block claims, and every transaction valid.
pub open spec fn judgement(block: &BlockPair, results: ExecutionResults) -> Result<
    result::BlockReport,
    error::ErrorView,
> {
    match results.ending_state_hash {
        None => Err(failure(block, "no ending state hash was produced"@)),
        Some(actual) => if actual@ != block.header.state_root_hash@ {
            Err(
                failure(
                    block,
                    "expected state hash "@ + text::hexadecimal(block.header.state_root_hash@)
                        + ", validation found state hash "@ + text::hexadecimal(actual@),
                ),
            )
        } else {
            match all_reports(block, results.batch_results@) {
                Err(error) => Err(error),
                Ok(reports) => Ok(
                    result::BlockReport {
                        block_id: block.id(),
                        execution_results: reports,
                        num_transactions: reports.len() as u64,
                        status: BlockStatus::Valid,
                    },
                ),
            }
        },
    }
}

/// The judgement on a block, by how its execution ended.
pub open spec fn completion(
    block: &BlockPair,
    completed: Result<Option<ExecutionResults>, ServiceError>,
) -> Result<result::BlockReport, error::ErrorView> {
    match completed {
        Err(failed) => Err(
            error::ErrorView::BlockValidationError(
                "During call to scheduler.complete: "@ + failed.debug@,
            ),
        ),
        Ok(None) => Err(failure(block, "no execution results produced"@)),
        Ok(Some(results)) => judgement(block, results),
    }
}

fn failure_error(block: &BlockPair, reason: String) -> (error: ValidationError)
    ensures
        error@ == failure(block, reason@),
{
    let mut text = "Block ".to_owned();
    text.append(block.block.header_signature.as_str());
    text.append(" failed validation: ");
    text.append(reason.as_str());
    ValidationError::BlockValidationFailure(text)
}

fn service_error(reason: &str, failed: &ServiceError) -> (error: ValidationError)
    ensures
        error@ == error::ErrorView::BlockValidationError(reason@ + failed.debug@),
{
    let mut text = reason.to_owned();
    text.append(failed.debug.as_str());
    ValidationError::BlockValidationError(text)
}

/// Looks for the first result of a transaction that was not valid.
fn find_invalid(results: &Vec<TxnExecutionResult>) -> (found: Option<&TxnExecutionResult>)
    ensures
        match found {
            Some(invalid) => first_invalid(result::reports(results@)) == Some(invalid@),
            None => first_invalid(result::reports(results@)) is None,
        },
{
    let ghost reports = result::reports(results@);
    let mut i: usize = 0;
    while i < results.len()
        invariant
            i <= results@.len(),
            reports == result::reports(results@),
            first_invalid(reports.take(i as int)) is None,
        decreases results@.len() - i,
    {
        assert(reports.take(i + 1).drop_last() =~= reports.take(i as int));
        if !results[i].is_valid {
            proof {
                lemma_first_invalid_prefix(reports, i + 1);
            }
            return Some(&results[i]);
        }
        i += 1;
    }
    assert(reports.take(i as int) =~= reports);
    None
}

/// An invalid report in a prefix is the first one of the whole.
proof fn lemma_first_invalid_prefix(reports: Seq<result::TxnReport>, n: int)
    requires
        0 <= n <= reports.len(),
        first_invalid(reports.take(n)) is Some,
    ensures
        first_invalid(reports) == first_invalid(reports.take(n)),
    decreases reports.len(),
{
    if n == reports.len() {
        assert(reports.take(n) =~= reports);
    } else {
        assert(reports.drop_last().take(n) =~= reports.take(n));
        lemma_first_invalid_prefix(reports.drop_last(), n);
    }
}

/// An error in a prefix of the batches is the error of the whole.
proof fn lemma_all_reports_prefix(
    block: &BlockPair,
    batch_results: Seq<(String, Option<Vec<TxnExecutionResult>>)>,
    n: int,
)
    requires
        0 <= n <= batch_results.len(),
        all_reports(block, batch_results.take(n)) is Err,
    ensures
        all_reports(block, batch_results) == all_reports(block, batch_results.take(n)),
    decreases batch_results.len(),
{
    if n == batch_results.len() {
        assert(batch_results.take(n) =~= batch_results);
    } else {
        assert(batch_results.drop_last().take(n) =~= batch_results.take(n));
        lemma_all_reports_prefix(block, batch_results.drop_last(), n);
    }
}

/// Gathers the results of all the batches.
fn collect_results(
    block: &BlockPair,
    batch_results: Vec<(String, Option<Vec<TxnExecutionResult>>)>,
) -> (collected: Result<Vec<TxnExecutionResult>, ValidationError>)
    ensures
        match collected {
            Ok(results) => all_reports(block, batch_results@) == Ok::<
                Seq<result::TxnReport>,
                error::ErrorView,
            >(result::reports(results@)),
            Err(error) => all_reports(block, batch_results@) == Err::<
                Seq<result::TxnReport>,
                error::ErrorView,
            >(error@),
        },
{
    let ghost all = batch_results@;
    let mut remaining = batch_results;
    let mut results: Vec<TxnExecutionResult> = Vec::new();
    let mut i: usize = 0;
    assert(result::reports(results@) =~= Seq::empty());
    while i < remaining.len()
        invariant
            i <= remaining@.len(),
            all == batch_results@,
            remaining@.len() == all.len(),
            forall|j: int| i <= j < all.len() ==> remaining@[j] == #[trigger] all[j],
            all_reports(block, all.take(i as int)) == Ok::<
                Seq<result::TxnReport>,
                error::ErrorView,
            >(result::reports(results@)),
        decreases remaining@.len() - i,
    {
        assert(all.take(i + 1).drop_last() =~= all.take(i as int));
        assert(all.take(i + 1).last() == all[i as int]);
        assert(remaining@[i as int] == all[i as int]);
        let taken = remaining[i].1.take();
        let batch_id = &remaining[i].0;
        match taken {
            None => {
                let mut reason = "batch ".to_owned();
                reason.append(batch_id.as_str());
                reason.append(" did not have transaction results");
                proof {
                    lemma_all_reports_prefix(block, all, i + 1);
                }
                return Err(failure_error(block, reason));
            },
            Some(batch) => {
                match find_invalid(&batch) {
                    Some(invalid) => {
                        let mut reason = "batch ".to_owned();
                        reason.append(batch_id.as_str());
                        reason.append(" was invalid due to transaction ");
                        reason.append(invalid.signature.as_str());
                        proof {
                            lemma_all_reports_prefix(block, all, i + 1);
                        }
                        return Err(failure_error(block, reason));
                    },
                    None => {},
                }
                let mut batch = batch;
                let ghost earlier = results@;
                let ghost added = batch@;
                results.append(&mut batch);
                assert(result::reports(results@) =~= result::reports(earlier) + result::reports(
                    added,
                ));
            },
        }
        i += 1;
    }
    assert(all.take(i as int) =~= all);
    Ok(results)
}

/// Judges a block by how its execution ended.
pub fn judge_execution(
    block: &BlockPair,
    completed: Result<Option<ExecutionResults>, ServiceError>,
) -> (result: Result<BlockValidationResult, ValidationError>)
    ensures
        outcome(result) == completion(block, completed),
{
    let results = match completed {
        Err(failed) => {
            return Err(service_error("During call to scheduler.complete: ", &failed));
        },
        Ok(None) => {
            return Err(failure_error(block, "no execution results produced".to_owned()));
        },
        Ok(Some(results)) => results,
    };
    let expected = &block.header.state_root_hash;
    match &results.ending_state_hash {
        Some(actual) => {
            if !(*actual == *expected) {
                assert(actual@ != expected@);
                let mut reason = "expected state hash ".to_owned();
                reason.append(hex_encode(expected.as_slice()).as_str());
                reason.append(", validation found state hash ");
                reason.append(hex_encode(actual.as_slice()).as_str());
                return Err(failure_error(block, reason));
            }
            assert(actual@ =~= expected@);
        },
        None => {
            return Err(failure_error(block, "no ending state hash was produced".to_owned()));
        },
    }
    match collect_results(block, results.batch_results) {
        Err(error) => Err(error),
        Ok(execution_results) => {
            let num_transactions = execution_results.len() as u64;
            Ok(
                BlockValidationResult {
                    block_id: block.block.header_signature.clone(),
                    execution_results,
                    num_transactions,
                    status: BlockStatus::Valid,
                },
            )
        },
    }
}

/// The state root that is expected once the batch at `index` has been executed:
/// only the last batch has one, the root that the block claims.
pub open spec fn expected_after(block: &BlockPair, index: nat) -> Option<&Vec<u8>> {
    if index + 1 < block.block.batches@.len() {
        None
    } else {
        Some(&block.header.state_root_hash)
    }
}

/// A batch could not be added.
pub open spec fn add_failure(block: &BlockPair, index: nat, failed: ServiceError) -> error::ErrorView {
    error::ErrorView::BlockValidationError(
        (if index + 1 < block.block.batches@.len() {
            "While adding a batch to the schedule: "@
        } else {
            "While adding the last batch to the schedule: "@
        }) + failed.debug@,
    )
}

/// No batch could be executed on the given state.
pub open spec fn create_failure(block: &BlockPair, failed: ServiceError) -> error::ErrorView {
    error::ErrorView::BlockValidationError(
        "Error during validation of block "@ + block.id() + " batches: "@ + failed.debug@,
    )
}

/// Whether a run that holds all the batches may bring about this judgement: it
/// is finalized without dropping anything, and then waited for.
pub open spec fn finished<S: Scheduler>(
    run: S,
    block: &BlockPair,
    judged: Result<result::BlockReport, error::ErrorView>,
) -> bool {
    exists|finalized: Result<S, ServiceError>| #[trigger]
        call_ensures(S::finalize, (run, false), finalized) && match finalized {
            Err(failed) => judged == Err::<result::BlockReport, error::ErrorView>(
                error::ErrorView::BlockValidationError(
                    "During call to scheduler.finalize: "@ + failed.debug@,
                ),
            ),
            Ok(last) => exists|completed: Result<Option<ExecutionResults>, ServiceError>| #[trigger]
                call_ensures(S::complete, (last, true), completed) && judged == completion(
                    block,
                    completed,
                ),
        }
}

/// Whether a run that holds the batches before `next` may bring about this
/// judgement: the other batches are added in order, none of them as required,
/// and the first that cannot be added ends the run.
pub open spec fn scheduled<S: Scheduler>(
    run: S,
    block: &BlockPair,
    next: nat,
    judged: Result<result::BlockReport, error::ErrorView>,
) -> bool
    decreases block.block.batches@.len() - next,
{
    if next < block.block.batches@.len() {
        exists|added: Result<S, ServiceError>| #[trigger]
            call_ensures(
                S::add_batch,
                (run, &block.block.batches@[next as int], expected_after(block, next), false),
                added,
            ) && match added {
                Err(failed) => judged == Err::<result::BlockReport, error::ErrorView>(
                    add_failure(block, next, failed),
                ),
                Ok(longer) => scheduled(longer, block, next + 1, judged),
            }
    } else {
        finished(run, block, judged)
    }
}

/// Runs the batches of the block.
fn execute<S: Scheduler>(run: S, block: &BlockPair) -> (result: Result<
    BlockValidationResult,
    ValidationError,
>)
    requires
        block.block.batches@.len() > 0,
    ensures
        scheduled(run, block, 0, outcome(result)),
{
    let batches = &block.block.batches;
    let greatest_batch_index: usize = batches.len() - 1;
    let mut current = run;
    let mut index: usize = 0;
    while index < batches.len()
        invariant
            index <= batches@.len(),
            batches == &block.block.batches,
            greatest_batch_index == batches@.len() - 1,
            forall|judged: Result<result::BlockReport, error::ErrorView>|
                scheduled(current, block, index as nat, judged) ==> #[trigger] scheduled(
                    run,
                    block,
                    0,
                    judged,
                ),
        decreases batches@.len() - index,
    {
        let batch = &batches[index];
        let ghost before = current;
        let expected: Option<&Vec<u8>> = if index < greatest_batch_index {
            None
        } else {
            Some(&block.header.state_root_hash)
        };
        assert(expected == expected_after(block, index as nat));
        let added = current.add_batch(batch, expected, false);
        assert(call_ensures(
            S::add_batch,
            (before, &block.block.batches@[index as int], expected_after(block, index as nat), false),
            added,
        ));
        match added {
            Ok(longer) => {
                current = longer;
            },
            Err(failed) => {
                let result: Result<BlockValidationResult, ValidationError> = Err(
                    if index < greatest_batch_index {
                        service_error("While adding a batch to the schedule: ", &failed)
                    } else {
                        service_error("While adding the last batch to the schedule: ", &failed)
                    },
                );
                assert(scheduled(before, block, index as nat, outcome(result)));
                return result;
            },
        }
        index += 1;
    }
    match current.finalize(false) {
        Err(failed) => Err(service_error("During call to scheduler.finalize: ", &failed)),
        Ok(last) => {
            let completed = last.complete(true);
            judge_execution(block, completed)
        },
    }
}

/// The root of the state that a block is executed on: that of the previous
/// block's state, or else the one fixed root of the null state.
pub open spec fn starting_root<TEP: ExecutionPlatform>(previous_state_root: Option<Seq<u8>>) -> Seq<
    u8,
> {
    match previous_state_root {
        Some(root) => root,
        None => TEP::NULL_STATE_HASH@,
    }
}

impl<TEP: ExecutionPlatform> BatchesInBlockValidation<TEP> {
    pub fn new(transaction_executor: TEP) -> (validation: Self)
        ensures
            validation.transaction_executor == transaction_executor,
    {
        BatchesInBlockValidation { transaction_executor }
    }

    /// Whether the executor may start this run on the state with this root.
    pub open spec fn starts(&self, root: Seq<u8>, run: Result<TEP::Run, ServiceError>) -> bool {
        exists|state_root: &[u8]|
            state_root@ == root && #[trigger] call_ensures(
                TEP::create_scheduler,
                (&self.transaction_executor, state_root),
                run,
            )
    }

    /// Whether the executor starts no run at all on the state with this root.
    pub open spec fn never_starts(&self, root: Seq<u8>) -> bool {
        forall|run: Result<TEP::Run, ServiceError>| #[trigger]
            self.starts(root, run) ==> run is Err
    }

    /// Whether executing the block on the state with this root may bring about
    /// this judgement.
    pub open spec fn judges(
        &self,
        block: &BlockPair,
        root: Seq<u8>,
        judged: Result<result::BlockReport, error::ErrorView>,
    ) -> bool {
        exists|run: Result<TEP::Run, ServiceError>| #[trigger]
            self.starts(root, run) && match run {
                Err(failed) => judged == Err::<result::BlockReport, error::ErrorView>(
                    create_failure(block, failed),
                ),
                Ok(started) => scheduled(started, block, 0, judged),
            }
    }
}

impl<TEP: ExecutionPlatform> BlockValidation for BatchesInBlockValidation<TEP> {
    type ReturnValue = BlockValidationResult;

    /// There is a last batch, to compare the state after, or no run is ever
    /// started that would have to add one.
    open spec fn accepts(
        &self,
        block: &BlockPair,
        previous_state_root: Option<Seq<u8>>,
    ) -> bool {
        block.block.batches@.len() > 0 || self.never_starts(
            starting_root::<TEP>(previous_state_root),
        )
    }

    /// The block is executed on the state that it starts from, or on the null
    /// state if there is none.
    open spec fn permits(
        &self,
        block: &BlockPair,
        previous_state_root: Option<Seq<u8>>,
        result: Result<BlockValidationResult, ValidationError>,
    ) -> bool {
        self.judges(block, starting_root::<TEP>(previous_state_root), outcome(result))
    }

    fn validate_block(
        &self,
        block: &BlockPair,
        previous_state_root: Option<&[u8]>,
    ) -> (result: Result<BlockValidationResult, ValidationError>) {
        let state_root: &[u8] = match previous_state_root {
            Some(state_root) => state_root,
            None => TEP::NULL_STATE_HASH,
        };
        let run = self.transaction_executor.create_scheduler(state_root);
        assert(self.starts(state_root@, run));
        match run {
            Err(failed) => {
                let mut reason = "Error during validation of block ".to_owned();
                reason.append(block.block.header_signature.as_str());
                reason.append(" batches: ");
                reason.append(failed.debug.as_str());
                Err(ValidationError::BlockValidationError(reason))
            },
            Ok(started) => execute(started, block),
        }
    }
}

} // verus!
