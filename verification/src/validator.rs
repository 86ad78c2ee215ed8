//! The validator of blocks: what it puts blocks through, and to which of its
//! threads it hands them.

use vstd::prelude::*;

use crate::batches::BatchesInBlockValidation;
use crate::block::BlockPair;
use crate::duplicates::DuplicatesAndDependenciesValidation;
use crate::error::ValidationError;
use crate::permission::PermissionValidation;
use crate::processor::{BlockValidation, BlockValidationProcessor};
use crate::result::{BlockReport, BlockValidationResult};
use crate::rules::OnChainRulesValidation;
use crate::service::{BlockManager, BlockScheduler, ExecutionPlatform, StateViewFactory};
use crate::store;
use crate::store::{BlockStatusStore, BlockValidationResultStore};

verus! {

/// One more than the threads that validate blocks.
pub const BLOCK_VALIDATOR_THREAD_NUM: u64 = 2;

/// The validations that every block is put through before it is executed.
pub enum StandardValidation<BM: BlockManager, VF: StateViewFactory> {
    DuplicatesAndDependencies(DuplicatesAndDependenciesValidation<BM>),
    OnChainRules(OnChainRulesValidation<VF>),
    Permission(PermissionValidation<VF>),
}

impl<BM: BlockManager, VF: StateViewFactory> BlockValidation for StandardValidation<BM, VF> {
    type ReturnValue = ();

    open spec fn accepts(
        &self,
        block: &BlockPair,
        previous_state_root: Option<Seq<u8>>,
    ) -> bool {
        true
    }

    open spec fn permits(
        &self,
        block: &BlockPair,
        previous_state_root: Option<Seq<u8>>,
        result: Result<(), ValidationError>,
    ) -> bool {
        match *self {
            StandardValidation::DuplicatesAndDependencies(validation) => validation.permits(
                block,
                previous_state_root,
                result,
            ),
            StandardValidation::OnChainRules(validation) => validation.permits(
                block,
                previous_state_root,
                result,
            ),
            StandardValidation::Permission(validation) => validation.permits(
                block,
                previous_state_root,
                result,
            ),
        }
    }

    fn validate_block(
        &self,
        block: &BlockPair,
        previous_state_root: Option<&[u8]>,
    ) -> (result: Result<(), ValidationError>) {
        match self {
            StandardValidation::DuplicatesAndDependencies(validation) => validation.validate_block(
                block,
                previous_state_root,
            ),
            StandardValidation::OnChainRules(validation) => validation.validate_block(
                block,
                previous_state_root,
            ),
            StandardValidation::Permission(validation) => validation.validate_block(
                block,
                previous_state_root,
            ),
        }
    }
}

/// Validates blocks, one at a time or on threads of its own. A thread is
/// reached through a channel: `Tx` puts blocks into it and `Rx` takes them out.
/// `ST` is a handle on the store that results go to.
pub struct BlockValidator<
    TEP: ExecutionPlatform,
    BM: BlockManager,
    VF: StateViewFactory,
    BS: BlockScheduler<BM, ST>,
    ST: BlockStatusStore,
    Tx,
    Rx,
> {
    pub channels: Vec<(Tx, Option<Rx>)>,
    pub block_scheduler: BS,
    pub block_status_store: ST,
    pub block_manager: BM,
    pub transaction_executor: TEP,
    pub view_factory: VF,
}

/// Whether the scheduler may have been made of a handle on the blocks and one on
/// the store.
pub open spec fn schedules_by<
    BM: BlockManager + Clone,
    ST: BlockStatusStore + Clone,
    BS: BlockScheduler<BM, ST>,
>(block_manager: BM, block_status_store: ST, scheduler: BS) -> bool {
    exists|blocks: BM, statuses: ST|
        {
            &&& vstd::pervasive::strictly_cloned(block_manager, blocks)
            &&& vstd::pervasive::strictly_cloned(block_status_store, statuses)
            &&& #[trigger] call_ensures(BS::new, (blocks, statuses), scheduler)
        }
}

/// Whether `sender` is a handle on the channel at `slot`.
pub open spec fn reaches<Tx: Clone, Rx>(
    channels: Seq<(Tx, Option<Rx>)>,
    slot: int,
    sender: Tx,
) -> bool {
    0 <= slot < channels.len() && vstd::pervasive::strictly_cloned(channels[slot].0, sender)
}

/// Whether the blocks are handed out in order, to one channel after the other,
/// the first of them to the channel at `index`.
pub open spec fn handed_out<Tx: Clone, Rx>(
    channels: Seq<(Tx, Option<Rx>)>,
    index: nat,
    blocks: Seq<BlockPair>,
    deliveries: Seq<(Tx, BlockPair)>,
) -> bool {
    &&& deliveries.len() == blocks.len()
    &&& forall|i: int|
        0 <= i < blocks.len() ==> (#[trigger] deliveries[i]).1 == blocks[i] && reaches(
            channels,
            slot(channels.len(), index, i as nat),
            deliveries[i].0,
        )
}

/// The channel that comes `steps` after the one at `index`, in rotation over
/// `count` channels.
pub open spec fn slot(count: nat, index: nat, steps: nat) -> int {
    (index + steps) as int % count as int
}

/// One step of the rotation.
proof fn lemma_slot_step(count: nat, index: nat, steps: nat)
    requires
        count > 0,
    ensures
        0 <= slot(count, index, steps) < count,
        slot(count, index, steps + 1) == if slot(count, index, steps) + 1 == count {
            0
        } else {
            slot(count, index, steps) + 1
        },
{
    let n = count as int;
    let x = (index + steps) as int;
    vstd::arithmetic::div_mod::lemma_fundamental_div_mod(x, n);
    vstd::arithmetic::div_mod::lemma_mod_bound(x, n);
    let q = x / n;
    let r = x % n;
    assert(n * (q + 1) == n * q + n) by (nonlinear_arith);
    if r + 1 == n {
        assert(x + 1 == (q + 1) * n + 0) by (nonlinear_arith)
            requires
                x == n * q + r,
                r + 1 == n,
        ;
        vstd::arithmetic::div_mod::lemma_fundamental_div_mod_converse(x + 1, n, q + 1, 0);
    } else {
        assert(x + 1 == q * n + (r + 1)) by (nonlinear_arith)
            requires
                x == n * q + r,
        ;
        vstd::arithmetic::div_mod::lemma_fundamental_div_mod_converse(x + 1, n, q, r + 1);
    }
}

impl<
    TEP: ExecutionPlatform + Clone,
    BM: BlockManager + Clone,
    VF: StateViewFactory + Clone,
    BS: BlockScheduler<BM, ST>,
    ST: BlockStatusStore + Clone,
    Tx: Clone,
    Rx,
> BlockValidator<TEP, BM, VF, BS, ST, Tx, Rx> {
    /// A validator with a channel for each of its threads. Its scheduler gets
    /// handles on the same blocks and on the same store.
    pub fn new<F: Fn() -> (Tx, Rx)>(
        block_manager: BM,
        transaction_executor: TEP,
        block_status_store: ST,
        view_factory: VF,
        open_channel: F,
    ) -> (validator: Self)
        requires
            open_channel.requires(()),
        ensures
            validator.block_manager == block_manager,
            validator.transaction_executor == transaction_executor,
            validator.block_status_store == block_status_store,
            validator.view_factory == view_factory,
            schedules_by(block_manager, block_status_store, validator.block_scheduler),
            validator.channels@.len() == BLOCK_VALIDATOR_THREAD_NUM - 1,
            forall|i: int|
                0 <= i < validator.channels@.len() ==> {
                    let channel = #[trigger] validator.channels@[i];
                    channel.1 is Some && open_channel.ensures((), (channel.0, channel.1->0))
                },
    {
        let mut channels: Vec<(Tx, Option<Rx>)> = Vec::new();
        let mut thread: u64 = 1;
        while thread < BLOCK_VALIDATOR_THREAD_NUM
            invariant
                open_channel.requires(()),
                1 <= thread <= BLOCK_VALIDATOR_THREAD_NUM,
                channels@.len() == thread - 1,
                forall|i: int|
                    0 <= i < channels@.len() ==> {
                        let channel = #[trigger] channels@[i];
                        channel.1 is Some && open_channel.ensures((), (channel.0, channel.1->0))
                    },
            decreases BLOCK_VALIDATOR_THREAD_NUM - thread,
        {
            let (tx, rx) = open_channel();
            channels.push((tx, Some(rx)));
            thread += 1;
        }
        let block_scheduler = BS::new(block_manager.clone(), block_status_store.clone());
        BlockValidator {
            channels,
            block_scheduler,
            block_status_store,
            block_manager,
            transaction_executor,
            view_factory,
        }
    }

    /// Takes the receivers, each with a handle on its own channel, to be served
    /// by a thread. This can be done once.
    pub fn start(&mut self) -> (ends: Vec<(Rx, Tx)>)
        requires
            forall|i: int| 0 <= i < old(self).channels@.len() ==> (#[trigger] old(
                self,
            ).channels@[i]).1 is Some,
        ensures
            ends@.len() == old(self).channels@.len(),
            forall|i: int|
                0 <= i < ends@.len() ==> (#[trigger] ends@[i]).0 == old(self).channels@[i].1->0
                    && reaches(old(self).channels@, i, ends@[i].1),
            final(self).channels@.len() == old(self).channels@.len(),
            forall|i: int|
                0 <= i < old(self).channels@.len() ==> (#[trigger] final(self).channels@[i]).0
                    == old(self).channels@[i].0 && final(self).channels@[i].1 is None,
            final(self).block_scheduler == old(self).block_scheduler,
            final(self).block_status_store == old(self).block_status_store,
            final(self).block_manager == old(self).block_manager,
            final(self).transaction_executor == old(self).transaction_executor,
            final(self).view_factory == old(self).view_factory,
    {
        let mut ends: Vec<(Rx, Tx)> = Vec::new();
        let mut i: usize = 0;
        while i < self.channels.len()
            invariant
                i <= self.channels@.len(),
                self.channels@.len() == old(self).channels@.len(),
                ends@.len() == i,
                forall|j: int| 0 <= j < old(self).channels@.len() ==> (#[trigger] old(
                    self,
                ).channels@[j]).1 is Some,
                forall|j: int|
                    i <= j < self.channels@.len() ==> #[trigger] self.channels@[j] == old(
                        self,
                    ).channels@[j],
                forall|j: int|
                    0 <= j < i ==> (#[trigger] self.channels@[j]).0 == old(self).channels@[j].0
                        && self.channels@[j].1 is None,
                forall|j: int|
                    0 <= j < i ==> (#[trigger] ends@[j]).0 == old(self).channels@[j].1->0
                        && reaches(old(self).channels@, j, ends@[j].1),
                self.block_scheduler == old(self).block_scheduler,
                self.block_status_store == old(self).block_status_store,
                self.block_manager == old(self).block_manager,
                self.transaction_executor == old(self).transaction_executor,
                self.view_factory == old(self).view_factory,
            decreases self.channels@.len() - i,
        {
            assert(self.channels@[i as int] == old(self).channels@[i as int]);
            let receiver = self.channels[i].1.take();
            let sender = self.channels[i].0.clone();
            match receiver {
                Some(receiver) => {
                    ends.push((receiver, sender));
                },
                None => {},
            }
            i += 1;
        }
        ends
    }

    /// A handle on the channel at `index`, and the index of the next channel.
    pub fn return_sender(&self, index: usize) -> (next: (Tx, usize))
        requires
            index < self.channels@.len(),
        ensures
            reaches(self.channels@, index as int, next.0),
            next.1 == slot(self.channels@.len(), index as nat, 1),
            next.1 < self.channels@.len(),
    {
        let sender = self.channels[index].0.clone();
        proof {
            lemma_slot_step(self.channels@.len(), index as nat, 0);
            vstd::arithmetic::div_mod::lemma_small_mod(index as nat, self.channels@.len());
        }
        if index >= self.channels.len() - 1 {
            (sender, 0)
        } else {
            (sender, index + 1)
        }
    }

    /// Hands the blocks out to the channels in rotation, from the one at `index`
    /// on. Gives back the deliveries, in order, and the index to go on from.
    pub fn hand_out(&self, blocks: Vec<BlockPair>, index: usize) -> (handed: (
        Vec<(Tx, BlockPair)>,
        usize,
    ))
        requires
            index < self.channels@.len(),
        ensures
            handed_out(self.channels@, index as nat, blocks@, handed.0@),
            handed.1 == slot(self.channels@.len(), index as nat, blocks@.len()),
            handed.1 < self.channels@.len(),
    {
        let mut deliveries: Vec<(Tx, BlockPair)> = Vec::new();
        let mut current: usize = index;
        proof {
            vstd::arithmetic::div_mod::lemma_small_mod(index as nat, self.channels@.len());
        }
        for block in it: blocks
            invariant
                index < self.channels@.len(),
                current == slot(self.channels@.len(), index as nat, it.index() as nat),
                current < self.channels@.len(),
                it.seq() == blocks@,
                handed_out(
                    self.channels@,
                    index as nat,
                    blocks@.take(it.index()),
                    deliveries@,
                ),
        {
            proof {
                let count = self.channels@.len();
                lemma_slot_step(count, index as nat, it.index() as nat);
                lemma_slot_step(count, current as nat, 0);
                vstd::arithmetic::div_mod::lemma_small_mod(current as nat, count);
            }
            let (sender, next) = self.return_sender(current);
            deliveries.push((sender, block));
            current = next;
        }
        (deliveries, current)
    }

    /// Takes in blocks. Those that the scheduler finds ready are handed out.
    pub fn submit_blocks_for_verification(&self, blocks: Vec<BlockPair>, index: usize) -> (handed: (
        Vec<(Tx, BlockPair)>,
        usize,
    ))
        requires
            index < self.channels@.len(),
        ensures
            exists|ready: Vec<BlockPair>|
                {
                    &&& #[trigger] call_ensures(
                        BS::schedule,
                        (&self.block_scheduler, blocks),
                        ready,
                    )
                    &&& handed_out(self.channels@, index as nat, ready@, handed.0@)
                    &&& handed.1 == slot(self.channels@.len(), index as nat, ready@.len())
                },
            handed.1 < self.channels@.len(),
    {
        let ready = self.block_scheduler.schedule(blocks);
        self.hand_out(ready, index)
    }

    /// Takes note that the block is done. Those that the scheduler had held back
    /// for it are handed out.
    pub fn process_pending(&self, block: &BlockPair, index: usize) -> (handed: (
        Vec<(Tx, BlockPair)>,
        usize,
    ))
        requires
            index < self.channels@.len(),
        ensures
            exists|ready: Vec<BlockPair>|
                {
                    &&& #[trigger] call_ensures(
                        BS::done,
                        (&self.block_scheduler, &block.block.header_signature),
                        ready,
                    )
                    &&& handed_out(self.channels@, index as nat, ready@, handed.0@)
                    &&& handed.1 == slot(self.channels@.len(), index as nat, ready@.len())
                },
            handed.1 < self.channels@.len(),
    {
        let ready = self.block_scheduler.done(&block.block.header_signature);
        self.hand_out(ready, index)
    }

    /// Whether the processor is made of handles on the validator's services: the
    /// three standard validations in their order, and the execution last.
    pub open spec fn sets_up(
        &self,
        processor: BlockValidationProcessor<
            BM,
            StandardValidation<BM, VF>,
            BatchesInBlockValidation<TEP>,
        >,
    ) -> bool {
        let validations = processor.validations@;
        &&& vstd::pervasive::strictly_cloned(self.block_manager, processor.block_manager)
        &&& validations.len() == 3
        &&& validations[0] matches StandardValidation::DuplicatesAndDependencies(duplicates)
            && vstd::pervasive::strictly_cloned(self.block_manager, duplicates.block_manager)
        &&& validations[1] matches StandardValidation::OnChainRules(rules)
            && vstd::pervasive::strictly_cloned(self.view_factory, rules.view_factory)
        &&& validations[2] matches StandardValidation::Permission(permission)
            && vstd::pervasive::strictly_cloned(self.view_factory, permission.state_view_factory)
        &&& vstd::pervasive::strictly_cloned(
            self.transaction_executor,
            processor.state_validation.transaction_executor,
        )
    }

    /// Whether a block can be validated.
    pub open spec fn accepts(&self, block: &BlockPair) -> bool {
        forall|processor| #[trigger] self.sets_up(processor) ==> processor.accepts(block)
    }

    /// Whether the validation of the block may come to this result.
    pub open spec fn permits(
        &self,
        block: &BlockPair,
        result: Result<BlockValidationResult, ValidationError>,
    ) -> bool {
        exists|processor| #[trigger] self.sets_up(processor) && processor.permits(block, result)
    }

    /// The processor that blocks are put through.
    pub fn processor(&self) -> (processor: BlockValidationProcessor<
        BM,
        StandardValidation<BM, VF>,
        BatchesInBlockValidation<TEP>,
    >)
        ensures
            self.sets_up(processor),
    {
        let mut validations: Vec<StandardValidation<BM, VF>> = Vec::new();
        validations.push(
            StandardValidation::DuplicatesAndDependencies(
                DuplicatesAndDependenciesValidation::new(self.block_manager.clone()),
            ),
        );
        validations.push(
            StandardValidation::OnChainRules(OnChainRulesValidation::new(self.view_factory.clone())),
        );
        validations.push(
            StandardValidation::Permission(PermissionValidation::new(self.view_factory.clone())),
        );
        let state_validation = BatchesInBlockValidation::new(self.transaction_executor.clone());
        BlockValidationProcessor::new(self.block_manager.clone(), validations, state_validation)
    }

    /// Validates the block. A result is remembered in the store; of a block that
    /// is not found valid, the store hears nothing.
    pub fn validate_block(
        &self,
        block: &BlockPair,
        block_status_store: &mut BlockValidationResultStore,
    ) -> (result: Result<(), ValidationError>)
        requires
            self.accepts(block),
        ensures
            exists|outcome: Result<BlockValidationResult, ValidationError>| #[trigger]
                self.permits(block, outcome) && recorded(
                    outcome,
                    old(block_status_store)@,
                    result,
                    final(block_status_store)@,
                ),
            old(block_status_store).wf() ==> final(block_status_store).wf(),
    {
        let outcome = self.processor().validate_block(block);
        assert(self.permits(block, outcome));
        record(outcome, block_status_store)
    }
}

/// Whether a store comes to hold `after`, and the caller hears `result`, when a
/// validation that came to `outcome` is recorded.
pub open spec fn recorded(
    outcome: Result<BlockValidationResult, ValidationError>,
    before: Seq<BlockReport>,
    result: Result<(), ValidationError>,
    after: Seq<BlockReport>,
) -> bool {
    match outcome {
        Ok(valid) => result is Ok && after == store::remembered(before, valid@),
        Err(error) => result == Err::<(), ValidationError>(error) && after == before,
    }
}

/// Remembers the result of a validation, if there is one, and passes on why
/// there is none.
pub fn record(
    outcome: Result<BlockValidationResult, ValidationError>,
    block_status_store: &mut BlockValidationResultStore,
) -> (result: Result<(), ValidationError>)
    ensures
        recorded(outcome, old(block_status_store)@, result, final(block_status_store)@),
        old(block_status_store).wf() ==> final(block_status_store).wf(),
{
    match outcome {
        Ok(valid) => {
            block_status_store.insert(valid);
            Ok(())
        },
        Err(error) => Err(error),
    }
}

impl<
    TEP: ExecutionPlatform + Clone,
    BM: BlockManager + Clone,
    VF: StateViewFactory + Clone,
    BS: BlockScheduler<BM, ST> + Clone,
    ST: BlockStatusStore + Clone,
    Tx: Clone,
    Rx,
> Clone for BlockValidator<TEP, BM, VF, BS, ST, Tx, Rx> {
    /// A second handle on the same channels and services. The receivers stay
    /// where they are.
    fn clone(&self) -> (copy: Self)
        ensures
            copy.channels@.len() == self.channels@.len(),
            forall|i: int|
                0 <= i < self.channels@.len() ==> reaches(
                    self.channels@,
                    i,
                    (#[trigger] copy.channels@[i]).0,
                ) && copy.channels@[i].1 is None,
            vstd::pervasive::strictly_cloned(self.block_scheduler, copy.block_scheduler),
            vstd::pervasive::strictly_cloned(self.block_status_store, copy.block_status_store),
            vstd::pervasive::strictly_cloned(self.block_manager, copy.block_manager),
            vstd::pervasive::strictly_cloned(self.transaction_executor, copy.transaction_executor),
            vstd::pervasive::strictly_cloned(self.view_factory, copy.view_factory),
    {
        let mut channels: Vec<(Tx, Option<Rx>)> = Vec::new();
        let mut i: usize = 0;
        while i < self.channels.len()
            invariant
                i <= self.channels@.len(),
                channels@.len() == i,
                forall|j: int|
                    0 <= j < i ==> reaches(self.channels@, j, (#[trigger] channels@[j]).0)
                        && channels@[j].1 is None,
            decreases self.channels@.len() - i,
        {
            channels.push((self.channels[i].0.clone(), None));
            i += 1;
        }
        BlockValidator {
            channels,
            block_scheduler: self.block_scheduler.clone(),
            block_status_store: self.block_status_store.clone(),
            block_manager: self.block_manager.clone(),
            transaction_executor: self.transaction_executor.clone(),
            view_factory: self.view_factory.clone(),
        }
    }
}

} // verus!
