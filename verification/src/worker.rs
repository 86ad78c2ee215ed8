//! The decisions of a thread that validates blocks.
//!
//! The thread waits for a block, validates it, and passes the outcome on. What
//! it does next is decided here; the waiting and the sending are done by the
//! thread itself.

use vstd::prelude::*;

use crate::block::BlockPair;
use crate::error::ValidationError;
use crate::result;
use crate::result::{BlockStatus, BlockValidationResult};

verus! {

/// How long a thread waits for a block before it looks whether it is to exit,
/// in milliseconds.
pub const BLOCKVALIDATION_QUEUE_RECV_TIMEOUT: u64 = 100;

/// A block to validate.
pub struct Job<R> {
    pub block: BlockPair,
    /// Where the result is expected.
    pub reply_to: R,
}

/// How the waiting for a block ended.
pub enum Received<R> {
    /// Nothing came in time.
    Timeout,
    /// Nothing can come any more.
    Disconnected,
    /// A block came.
    Job(Job<R>),
}

/// What to do after the waiting.
pub enum Next<R> {
    /// Wait again.
    Wait,
    /// End the thread.
    Stop,
    /// Validate the block.
    Validate(Job<R>),
}

/// What follows the waiting. A request to exit is heeded whenever the waiting
/// ends, even if a block came: that block is dropped.
pub open spec fn next_step<R>(received: Received<R>, exit: bool) -> Next<R> {
    match received {
        Received::Timeout => if exit {
            Next::Stop
        } else {
            Next::Wait
        },
        Received::Disconnected => Next::Stop,
        Received::Job(job) => if exit {
            Next::Stop
        } else {
            Next::Validate(job)
        },
    }
}

/// Decides what to do after the waiting.
pub fn after_receive<R>(received: Received<R>, exit: bool) -> (next: Next<R>)
    ensures
        next == next_step(received, exit),
{
    match received {
        Received::Timeout => {
            if exit {
                Next::Stop
            } else {
                Next::Wait
            }
        },
        Received::Disconnected => Next::Stop,
        Received::Job(job) => {
            if exit {
                Next::Stop
            } else {
                Next::Validate(job)
            }
        },
    }
}

/// What to do with a validated block.
pub enum Delivery<R> {
    /// Answer with this result.
    Respond { to: R, result: BlockValidationResult },
    /// Queue the block again.
    Retry(Job<R>),
}

/// The report on a block that was found invalid.
pub open spec fn invalid_report(block_id: Seq<char>) -> result::BlockReport {
    result::BlockReport {
        block_id,
        execution_results: Seq::empty(),
        num_transactions: 0,
        status: BlockStatus::Invalid,
    }
}

/// Whether this is the delivery of a job whose validation came to `outcome`: a
/// valid block is answered with its result, an invalid one with the report that
/// it is, and one that could not be judged is tried again as it came.
pub open spec fn delivers<R>(
    job: Job<R>,
    outcome: Result<BlockValidationResult, ValidationError>,
    delivery: Delivery<R>,
) -> bool {
    match outcome {
        Ok(valid) => delivery == (Delivery::Respond { to: job.reply_to, result: valid }),
        Err(ValidationError::BlockValidationFailure(_)) => {
            &&& delivery matches Delivery::Respond { to, result }
            &&& to == job.reply_to
            &&& result@ == invalid_report(job.block.id())
        },
        Err(ValidationError::BlockValidationError(_)) => delivery == Delivery::Retry(job),
    }
}

/// Decides what to do with a validated block.
pub fn after_validation<R>(
    job: Job<R>,
    outcome: Result<BlockValidationResult, ValidationError>,
) -> (delivery: Delivery<R>)
    ensures
        delivers(job, outcome, delivery),
{
    match outcome {
        Ok(valid) => Delivery::Respond { to: job.reply_to, result: valid },
        Err(ValidationError::BlockValidationFailure(_)) => {
            let execution_results = Vec::new();
            assert(result::reports(execution_results@) =~= Seq::empty());
            Delivery::Respond {
                to: job.reply_to,
                result: BlockValidationResult {
                    block_id: job.block.block.header_signature,
                    execution_results,
                    num_transactions: 0,
                    status: BlockStatus::Invalid,
                },
            }
        },
        Err(ValidationError::BlockValidationError(_)) => Delivery::Retry(job),
    }
}

/// Whether the threads are to exit once an attempt to send has ended: they are
/// when they were before, and when the attempt failed.
pub fn after_send(exit: bool, sent: bool) -> (exit_now: bool)
    ensures
        exit_now == (exit || !sent),
{
    exit || !sent
}

/// Once the threads are to exit, none of them validates another block.
pub proof fn law_exit_is_heeded<R>(received: Received<R>)
    ensures
        next_step(received, true) is Stop,
{
}

/// While the threads are to go on, and blocks can come, a thread validates the
/// block that came and waits again if none did.
pub proof fn law_thread_goes_on<R>(received: Received<R>)
    requires
        !(received is Disconnected),
    ensures
        match received {
            Received::Job(job) => next_step(received, false) == Next::Validate(job),
            _ => next_step(received, false) is Wait,
        },
{
}

/// A validated block is answered if and only if it was judged, and it is tried
/// again otherwise. The answer goes to whoever waits for it, and says of a block
/// that was not found valid that it is invalid.
pub proof fn law_only_judged_blocks_are_answered<R>(
    job: Job<R>,
    outcome: Result<BlockValidationResult, ValidationError>,
    delivery: Delivery<R>,
)
    requires
        delivers(job, outcome, delivery),
    ensures
        delivery is Retry <==> (outcome matches Err(error) && error@ is BlockValidationError),
        delivery matches Delivery::Retry(again) ==> again == job,
        delivery matches Delivery::Respond { to, result } ==> {
            &&& to == job.reply_to
            &&& outcome is Err ==> result@.status == BlockStatus::Invalid && result@.block_id
                == job.block.id()
            &&& outcome matches Ok(valid) ==> result == valid
        },
{
}

/// A thread validates a block if and only if it was given one and need not exit, and
/// then that very block; it waits again if and only if nothing came in time and it
/// need not exit.
pub proof fn law_thread_decides_by_what_came<R>(received: Received<R>, exit: bool, next: Next<R>)
    requires
        call_ensures(after_receive::<R>, (received, exit), next),
    ensures
        next matches Next::Validate(job) ==> !exit && received == Received::Job(job),
        next is Validate <==> !exit && received is Job,
        next is Wait <==> !exit && received is Timeout,
{
}

/// A valid block is answered with its result; an invalid one with a report on that
/// block that says so and holds nothing else; and one that could not be judged is
/// tried again, as it came. An answer goes to whoever waits for it.
pub proof fn law_outcome_is_delivered<R>(
    job: Job<R>,
    outcome: Result<BlockValidationResult, ValidationError>,
    delivery: Delivery<R>,
)
    requires
        call_ensures(after_validation::<R>, (job, outcome), delivery),
    ensures
        match outcome {
            Ok(valid) => delivery == (Delivery::Respond { to: job.reply_to, result: valid }),
            Err(ValidationError::BlockValidationFailure(_)) => {
                &&& delivery matches Delivery::Respond { to, result }
                &&& to == job.reply_to
                &&& result.block_id@ == job.block.block.header_signature@
                &&& result.execution_results@.len() == 0
                &&& result.num_transactions == 0
                &&& result.status == BlockStatus::Invalid
            },
            Err(ValidationError::BlockValidationError(_)) => delivery == Delivery::Retry(job),
        },
{
    match delivery {
        Delivery::Respond { to, result } => {
            assert(result@.execution_results.len() == result.execution_results@.len());
        },
        Delivery::Retry(_) => {},
    }
}

/// The threads are to exit once something could not be sent, and stay so.
pub proof fn law_failure_to_send_is_final(exit: bool, sent: bool, exit_now: bool)
    requires
        call_ensures(after_send, (exit, sent), exit_now),
    ensures
        !sent ==> exit_now,
        exit ==> exit_now,
        exit_now ==> exit || !sent,
{
}

} // verus!
