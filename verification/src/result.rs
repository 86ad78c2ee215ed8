//! What the validation of a block yields.

use vstd::prelude::*;

verus! {

/// What is known of a block.
#[derive(Clone, Copy, Debug, PartialEq, Eq, Structural)]
pub enum BlockStatus {
    Unknown,
    Invalid,
    Valid,
}

/// The executor's report on one transaction.
#[derive(Debug)]
pub struct TxnExecutionResult {
    /// Signature of the transaction's header, by which it is identified.
    pub signature: String,
    pub is_valid: bool,
    /// The rest of the report (state changes, events, data and errors), in the
    /// executor's own encoding. It is carried along and never read.
    pub receipt: Vec<u8>,
}

/// Mathematical content of a [`TxnExecutionResult`].
pub struct TxnReport {
    pub signature: Seq<char>,
    pub is_valid: bool,
    pub receipt: Seq<u8>,
}

impl View for TxnExecutionResult {
    type V = TxnReport;

    open spec fn view(&self) -> TxnReport {
        TxnReport {
            signature: self.signature@,
            is_valid: self.is_valid,
            receipt: self.receipt@,
        }
    }
}

impl Clone for TxnExecutionResult {
    fn clone(&self) -> (res: Self)
        ensures
            res@ == self@,
    {
        let receipt = self.receipt.clone();
        assert(receipt@ =~= self.receipt@);
        TxnExecutionResult {
            signature: self.signature.clone(),
            is_valid: self.is_valid,
            receipt,
        }
    }
}

/// The reports of a sequence of execution results, in order.
pub open spec fn reports(results: Seq<TxnExecutionResult>) -> Seq<TxnReport> {
    Seq::new(results.len(), |i: int| results[i]@)
}

/// The outcome of validating one block.
#[derive(Debug)]
pub struct BlockValidationResult {
    pub block_id: String,
    pub execution_results: Vec<TxnExecutionResult>,
    pub num_transactions: u64,
    pub status: BlockStatus,
}

/// Mathematical content of a [`BlockValidationResult`].
pub struct BlockReport {
    pub block_id: Seq<char>,
    pub execution_results: Seq<TxnReport>,
    pub num_transactions: u64,
    pub status: BlockStatus,
}

impl View for BlockValidationResult {
    type V = BlockReport;

    open spec fn view(&self) -> BlockReport {
        BlockReport {
            block_id: self.block_id@,
            execution_results: reports(self.execution_results@),
            num_transactions: self.num_transactions,
            status: self.status,
        }
    }
}

impl BlockValidationResult {
    pub fn new(
        block_id: String,
        execution_results: Vec<TxnExecutionResult>,
        num_transactions: u64,
        status: BlockStatus,
    ) -> (res: Self)
        ensures
            res.block_id == block_id,
            res.execution_results == execution_results,
            res.num_transactions == num_transactions,
            res.status == status,
    {
        BlockValidationResult { block_id, execution_results, num_transactions, status }
    }

    /// Whether this is a result for the block named `block_id`.
    pub fn is_for(&self, block_id: &String) -> (res: bool)
        ensures
            res == (self@.block_id == block_id@),
    {
        self.block_id == *block_id
    }
}

impl Clone for BlockValidationResult {
    fn clone(&self) -> (res: Self)
        ensures
            res@ == self@,
    {
        let execution_results = self.execution_results.clone();
        assert(reports(execution_results@) =~= reports(self.execution_results@)) by {
            assert forall|i: int| 0 <= i < execution_results@.len() implies
                (#[trigger] execution_results@[i])@ == self.execution_results@[i]@ by {
                assert(cloned(self.execution_results[i], execution_results[i]));
            }
        }
        BlockValidationResult {
            block_id: self.block_id.clone(),
            execution_results,
            num_transactions: self.num_transactions,
            status: self.status,
        }
    }
}

/// A copy of a report on a transaction is the same report, whole.
pub proof fn law_copied_report_is_whole(txn: &TxnExecutionResult, copy: TxnExecutionResult)
    requires
        call_ensures(<TxnExecutionResult as Clone>::clone, (txn,), copy),
    ensures
        copy.signature@ == txn.signature@,
        copy.is_valid == txn.is_valid,
        copy.receipt@ == txn.receipt@,
{
}

/// A copy of a result is the same result, whole.
pub proof fn law_copied_result_is_whole(
    result: &BlockValidationResult,
    copy: BlockValidationResult,
)
    requires
        call_ensures(<BlockValidationResult as Clone>::clone, (result,), copy),
    ensures
        copy.block_id@ == result.block_id@,
        copy.num_transactions == result.num_transactions,
        copy.status == result.status,
        copy.execution_results@.len() == result.execution_results@.len(),
        forall|i: int|
            0 <= i < result.execution_results@.len() ==> {
                &&& (#[trigger] copy.execution_results@[i]).signature@
                    == result.execution_results@[i].signature@
                &&& copy.execution_results@[i].is_valid == result.execution_results@[i].is_valid
                &&& copy.execution_results@[i].receipt@ == result.execution_results@[i].receipt@
            },
{
    assert(copy@.execution_results.len() == copy.execution_results@.len());
    assert(result@.execution_results.len() == result.execution_results@.len());
    assert forall|i: int| 0 <= i < result.execution_results@.len() implies {
        &&& (#[trigger] copy.execution_results@[i]).signature@
            == result.execution_results@[i].signature@
        &&& copy.execution_results@[i].is_valid == result.execution_results@[i].is_valid
        &&& copy.execution_results@[i].receipt@ == result.execution_results@[i].receipt@
    } by {
        assert(copy@.execution_results[i] == copy.execution_results@[i]@);
        assert(result@.execution_results[i] == result.execution_results@[i]@);
    }
}

/// A result is for the block whose identifier it carries, and for no other.
pub proof fn law_result_is_for_its_block(
    result: &BlockValidationResult,
    block_id: &String,
    is_for: bool,
)
    requires
        call_ensures(BlockValidationResult::is_for, (result, block_id), is_for),
    ensures
        is_for <==> result.block_id@ == block_id@,
{
}

/// A new result is made of what it was given.
pub proof fn law_new_result_is_as_given(
    block_id: String,
    execution_results: Vec<TxnExecutionResult>,
    num_transactions: u64,
    status: BlockStatus,
    result: BlockValidationResult,
)
    requires
        call_ensures(
            BlockValidationResult::new,
            (block_id, execution_results, num_transactions, status),
            result,
        ),
    ensures
        result.block_id == block_id,
        result.execution_results == execution_results,
        result.num_transactions == num_transactions,
        result.status == status,
{
}

} // verus!
