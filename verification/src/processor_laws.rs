//! How the validations of a block come together.

use vstd::prelude::*;

use crate::batches::BatchesInBlockValidation;
use crate::block::BlockPair;
use crate::check_laws;
use crate::error::ValidationError;
use crate::execution_laws;
use crate::processor;
use crate::processor::{BlockValidation, BlockValidationProcessor};
use crate::result::{BlockReport, BlockValidationResult, TxnReport};
use crate::service::{BlockManager, BlockScheduler, ExecutionPlatform, StateViewFactory};
use crate::store::{
    BlockStatusStore, BlockValidationResultStore, BLOCK_VALIDATION_RESULT_CACHE_SIZE,
};
use crate::validator;
use crate::validator::{BlockValidator, StandardValidation};

verus! {

/// The root of the previous block's state is that of the block that was found, for
/// any block, and there is none only where none was found.
pub proof fn law_root_is_that_of_the_found_block(
    found: Vec<Option<BlockPair>>,
    root: Option<Vec<u8>>,
)
    requires
        call_ensures(processor::previous_state_root, (found,), root),
    ensures
        found@.len() == 0 ==> root is None,
        found@.len() > 0 ==> match found@[0] {
            Some(pair) => root is Some && root->0@ == pair.header.state_root_hash@,
            None => root is None,
        },
{
}

/// A new processor is made of what it was given.
pub proof fn law_new_processor_is_as_given<
    BM: BlockManager,
    V: BlockValidation<ReturnValue = ()>,
    SBV: BlockValidation<ReturnValue = BlockValidationResult>,
>(
    block_manager: BM,
    validations: Vec<V>,
    state_validation: SBV,
    processor: BlockValidationProcessor<BM, V, SBV>,
)
    requires
        call_ensures(
            BlockValidationProcessor::<BM, V, SBV>::new,
            (block_manager, validations, state_validation),
            processor,
        ),
    ensures
        processor.block_manager == block_manager,
        processor.validations@ == validations@,
        processor.state_validation == state_validation,
{
}

/// Whether the validations may come to this on a root: each of those before the
/// one at `at` lets the block pass, and that one, or else the one of the state
/// behind them all, has the last word.
pub open spec fn decided_at<
    V: BlockValidation<ReturnValue = ()>,
    SBV: BlockValidation<ReturnValue = BlockValidationResult>,
>(
    validations: Seq<V>,
    state_validation: SBV,
    block: &BlockPair,
    root: Option<Seq<u8>>,
    at: int,
    result: Result<BlockValidationResult, ValidationError>,
) -> bool {
    &&& 0 <= at <= validations.len()
    &&& forall|i: int| 0 <= i < at ==> lets_pass(#[trigger] validations[i], block, root)
    &&& if at < validations.len() {
        result is Err && validations[at].permits(block, root, Err(result->Err_0))
    } else {
        state_validation.permits(block, root, result)
    }
}

/// Whether the validation may let the block pass.
pub open spec fn lets_pass<V: BlockValidation<ReturnValue = ()>>(
    validation: V,
    block: &BlockPair,
    root: Option<Seq<u8>>,
) -> bool {
    exists|outcome: Result<(), ValidationError>|
        outcome is Ok && #[trigger] validation.permits(block, root, outcome)
}

proof fn lemma_decided<
    V: BlockValidation<ReturnValue = ()>,
    SBV: BlockValidation<ReturnValue = BlockValidationResult>,
>(
    validations: Seq<V>,
    state_validation: SBV,
    block: &BlockPair,
    root: Option<Seq<u8>>,
    next: nat,
    result: Result<BlockValidationResult, ValidationError>,
)
    requires
        next <= validations.len(),
        forall|i: int| 0 <= i < next ==> lets_pass(#[trigger] validations[i], block, root),
        processor::validated(validations, state_validation, block, root, next, result),
    ensures
        exists|at: int| #[trigger]
            decided_at(validations, state_validation, block, root, at, result),
    decreases validations.len() - next,
{
    if next < validations.len() {
        let outcome = choose|outcome: Result<(), ValidationError>| #[trigger]
            validations[next as int].permits(block, root, outcome) && match outcome {
                Ok(()) => processor::validated(
                    validations,
                    state_validation,
                    block,
                    root,
                    next + 1,
                    result,
                ),
                Err(error) => result == Err::<BlockValidationResult, ValidationError>(error),
            };
        if outcome is Ok {
            assert(lets_pass(validations[next as int], block, root));
            lemma_decided(validations, state_validation, block, root, next + 1, result);
        } else {
            assert(decided_at(validations, state_validation, block, root, next as int, result));
        }
    } else {
        assert(decided_at(validations, state_validation, block, root, next as int, result));
    }
}

/// Whether the manager may answer so, asked for the previous block alone, and
/// whether this is the root of that block's state: the root in the header of the
/// block that was found, and none only where none was found.
pub open spec fn looked_up<BM: BlockManager>(
    block_manager: BM,
    block: &BlockPair,
    root: Option<Seq<u8>>,
) -> bool {
    exists|ids: Vec<&String>, found: Vec<Option<BlockPair>>|
        {
            &&& #[trigger] call_ensures(BM::get, (&block_manager, &ids), found)
            &&& ids@.len() == 1
            &&& *ids@[0] == block.header.previous_block_id
            &&& if found@.len() > 0 && found@[0] is Some {
                root == Some(found@[0]->0.header.state_root_hash@)
            } else {
                root is None
            }
        }
}

/// All the validations of a block are given the root of the state after the
/// previous block, as it was found; the first that does not let the block pass
/// decides, or else the validation of the state.
pub proof fn law_validations_share_the_root<
    BM: BlockManager,
    V: BlockValidation<ReturnValue = ()>,
    SBV: BlockValidation<ReturnValue = BlockValidationResult>,
>(
    processor: &BlockValidationProcessor<BM, V, SBV>,
    block: &BlockPair,
    result: Result<BlockValidationResult, ValidationError>,
)
    requires
        call_ensures(
            BlockValidationProcessor::<BM, V, SBV>::validate_block,
            (processor, block),
            result,
        ),
    ensures
        exists|root: Option<Seq<u8>>, at: int|
            looked_up(processor.block_manager, block, root) && #[trigger] decided_at(
                processor.validations@,
                processor.state_validation,
                block,
                root,
                at,
                result,
            ),
{
    lemma_share_the_root(*processor, block, result);
}

proof fn lemma_share_the_root<
    BM: BlockManager,
    V: BlockValidation<ReturnValue = ()>,
    SBV: BlockValidation<ReturnValue = BlockValidationResult>,
>(
    processor: BlockValidationProcessor<BM, V, SBV>,
    block: &BlockPair,
    result: Result<BlockValidationResult, ValidationError>,
)
    requires
        processor.permits(block, result),
    ensures
        exists|root: Option<Seq<u8>>, at: int|
            looked_up(processor.block_manager, block, root) && #[trigger] decided_at(
                processor.validations@,
                processor.state_validation,
                block,
                root,
                at,
                result,
            ),
{
    let root = choose|root: Option<Seq<u8>>| #[trigger]
        processor.may_find(block, root) && processor::validated(
            processor.validations@,
            processor.state_validation,
            block,
            root,
            0,
            result,
        );
    let (ids, found) = choose|ids: Vec<&String>, found: Vec<Option<BlockPair>>|
        {
            &&& ids@ == seq![&block.header.previous_block_id]
            &&& #[trigger] call_ensures(BM::get, (&processor.block_manager, &ids), found)
            &&& root == processor::found_state_root(found@)
        };
    assert(looked_up(processor.block_manager, block, root));
    lemma_decided(processor.validations@, processor.state_validation, block, root, 0, result);
}

/// Whether these services may bring about this result. The block is put to the
/// chain, to the rules, to the permissions and to the executor, in this order, the
/// last three on the state after the previous block, as it was looked up; the first
/// refusal is the result.
pub open spec fn services_decide<
    BM: BlockManager,
    VF: StateViewFactory,
    TEP: ExecutionPlatform,
>(
    blocks: BM,
    chain: BM,
    settings: VF,
    permissions: VF,
    executor: TEP,
    block: &BlockPair,
    result: Result<BlockValidationResult, ValidationError>,
) -> bool {
    exists|root: Option<Seq<u8>>| #[trigger]
        looked_up(blocks, block, root) && {
            ||| result is Err && check_laws::duplicates_came_to(
                chain,
                block,
                Err(result->Err_0),
            )
            ||| {
                &&& check_laws::duplicates_came_to(chain, block, Ok(()))
                &&& {
                    ||| result is Err && check_laws::rules_come_to(
                        settings,
                        block,
                        root,
                        Err(result->Err_0),
                    )
                    ||| {
                        &&& check_laws::rules_come_to(settings, block, root, Ok(()))
                        &&& {
                            ||| result is Err && check_laws::permissions_come_to(
                                permissions,
                                block,
                                root,
                                Err(result->Err_0),
                            )
                            ||| {
                                &&& check_laws::permissions_come_to(
                                    permissions,
                                    block,
                                    root,
                                    Ok(()),
                                )
                                &&& execution_laws::execution_comes_to(
                                    executor,
                                    block,
                                    match root {
                                        Some(bytes) => bytes,
                                        None => TEP::NULL_STATE_HASH@,
                                    },
                                    result,
                                )
                            }
                        }
                    }
                }
            }
        }
}

/// Whether handles on the validator's services may bring about this result.
pub open spec fn validator_decides<
    TEP: ExecutionPlatform + Clone,
    BM: BlockManager + Clone,
    VF: StateViewFactory + Clone,
    BS: BlockScheduler<BM, ST>,
    ST: BlockStatusStore + Clone,
    Tx: Clone,
    Rx,
>(
    validator: BlockValidator<TEP, BM, VF, BS, ST, Tx, Rx>,
    block: &BlockPair,
    result: Result<BlockValidationResult, ValidationError>,
) -> bool {
    exists|blocks: BM, chain: BM, settings: VF, permissions: VF, executor: TEP|
        {
            &&& vstd::pervasive::strictly_cloned(validator.block_manager, blocks)
            &&& vstd::pervasive::strictly_cloned(validator.block_manager, chain)
            &&& vstd::pervasive::strictly_cloned(validator.view_factory, settings)
            &&& vstd::pervasive::strictly_cloned(validator.view_factory, permissions)
            &&& vstd::pervasive::strictly_cloned(validator.transaction_executor, executor)
            &&& #[trigger] services_decide(
                blocks,
                chain,
                settings,
                permissions,
                executor,
                block,
                result,
            )
        }
}

/// The validator's services decide on a block, in their order.
pub proof fn law_services_decide<
    TEP: ExecutionPlatform + Clone,
    BM: BlockManager + Clone,
    VF: StateViewFactory + Clone,
    BS: BlockScheduler<BM, ST>,
    ST: BlockStatusStore + Clone,
    Tx: Clone,
    Rx,
>(
    validator: BlockValidator<TEP, BM, VF, BS, ST, Tx, Rx>,
    block: &BlockPair,
    result: Result<BlockValidationResult, ValidationError>,
)
    requires
        validator.permits(block, result),
    ensures
        validator_decides(validator, block, result),
{
    let processor = choose|processor| #[trigger]
        validator.sets_up(processor) && processor.permits(block, result);
    lemma_share_the_root(processor, block, result);
    let (root, at) = choose|root: Option<Seq<u8>>, at: int|
        looked_up(processor.block_manager, block, root) && #[trigger] decided_at(
            processor.validations@,
            processor.state_validation,
            block,
            root,
            at,
            result,
        );
    let validations = processor.validations@;
    let duplicates = validations[0]->DuplicatesAndDependencies_0;
    let rules = validations[1]->OnChainRules_0;
    let permission = validations[2]->Permission_0;
    let execution = processor.state_validation;
    if at > 0 {
        assert(lets_pass(validations[0], block, root));
        check_laws::law_chain_decides_on_everything(duplicates, block, root, Ok(()));
    } else {
        check_laws::law_chain_decides_on_everything(duplicates, block, root, Err(result->Err_0));
    }
    if at > 1 {
        assert(lets_pass(validations[1], block, root));
        check_laws::law_rules_decide_on_later_blocks(rules, block, root, Ok(()));
    } else if at == 1 {
        check_laws::law_rules_decide_on_later_blocks(rules, block, root, Err(result->Err_0));
    }
    if at > 2 {
        assert(lets_pass(validations[2], block, root));
        check_laws::law_permissions_decide_on_every_signer(permission, block, root, Ok(()));
        execution_laws::law_execution_decides(execution, block, root, result);
    } else if at == 2 {
        check_laws::law_permissions_decide_on_every_signer(
            permission,
            block,
            root,
            Err(result->Err_0),
        );
    }
    assert(services_decide(
        processor.block_manager,
        duplicates.block_manager,
        rules.view_factory,
        permission.state_view_factory,
        execution.transaction_executor,
        block,
        result,
    ));
}

/// Each of the standard validations is what it says.
pub proof fn law_standard_validations<BM: BlockManager, VF: StateViewFactory>(
    validation: &StandardValidation<BM, VF>,
    block: &BlockPair,
    previous_state_root: Option<&[u8]>,
    result: Result<(), ValidationError>,
)
    requires
        call_ensures(
            <StandardValidation<BM, VF> as BlockValidation>::validate_block,
            (validation, block, previous_state_root),
            result,
        ),
    ensures
        match *validation {
            StandardValidation::DuplicatesAndDependencies(duplicates) =>
                check_laws::duplicates_came_to(duplicates.block_manager, block, result),
            StandardValidation::OnChainRules(rules) => check_laws::rules_come_to(
                rules.view_factory,
                block,
                check_laws::given_root(previous_state_root),
                result,
            ),
            StandardValidation::Permission(permission) => check_laws::permissions_come_to(
                permission.state_view_factory,
                block,
                check_laws::given_root(previous_state_root),
                result,
            ),
        },
{
    let root = check_laws::given_root(previous_state_root);
    match *validation {
        StandardValidation::DuplicatesAndDependencies(duplicates) => {
            check_laws::law_chain_decides_on_everything(duplicates, block, root, result);
        },
        StandardValidation::OnChainRules(rules) => {
            check_laws::law_rules_decide_on_later_blocks(rules, block, root, result);
        },
        StandardValidation::Permission(permission) => {
            check_laws::law_permissions_decide_on_every_signer(permission, block, root, result);
        },
    }
}

/// The processor of a validator holds the three standard validations, in their
/// order, and the execution, each on a handle on the validator's own services.
pub proof fn law_processor_is_standard<
    TEP: ExecutionPlatform + Clone,
    BM: BlockManager + Clone,
    VF: StateViewFactory + Clone,
    BS: BlockScheduler<BM, ST>,
    ST: BlockStatusStore + Clone,
    Tx: Clone,
    Rx,
>(
    validator: &BlockValidator<TEP, BM, VF, BS, ST, Tx, Rx>,
    processor: BlockValidationProcessor<
        BM,
        StandardValidation<BM, VF>,
        BatchesInBlockValidation<TEP>,
    >,
)
    requires
        call_ensures(
            BlockValidator::<TEP, BM, VF, BS, ST, Tx, Rx>::processor,
            (validator,),
            processor,
        ),
    ensures
        call_ensures(BM::clone, (&validator.block_manager,), processor.block_manager),
        processor.validations@.len() == 3,
        processor.validations@[0] is DuplicatesAndDependencies,
        call_ensures(
            BM::clone,
            (&validator.block_manager,),
            processor.validations@[0]->DuplicatesAndDependencies_0.block_manager,
        ),
        processor.validations@[1] is OnChainRules,
        call_ensures(
            VF::clone,
            (&validator.view_factory,),
            processor.validations@[1]->OnChainRules_0.view_factory,
        ),
        processor.validations@[2] is Permission,
        call_ensures(
            VF::clone,
            (&validator.view_factory,),
            processor.validations@[2]->Permission_0.state_view_factory,
        ),
        call_ensures(
            TEP::clone,
            (&validator.transaction_executor,),
            processor.state_validation.transaction_executor,
        ),
{
}

/// What a store keeps of a result: all of it.
pub open spec fn kept(result: BlockValidationResult) -> BlockReport {
    BlockReport {
        block_id: result.block_id@,
        execution_results: Seq::new(
            result.execution_results@.len(),
            |i: int|
                TxnReport {
                    signature: result.execution_results@[i].signature@,
                    is_valid: result.execution_results@[i].is_valid,
                    receipt: result.execution_results@[i].receipt@,
                },
        ),
        num_transactions: result.num_transactions,
        status: result.status,
    }
}

/// Whether `after` is `before` with this report in front, without what exceeds the
/// bound.
pub open spec fn came_in(
    before: Seq<BlockReport>,
    report: BlockReport,
    after: Seq<BlockReport>,
) -> bool {
    &&& after.len() == if before.len() < BLOCK_VALIDATION_RESULT_CACHE_SIZE {
        before.len() + 1
    } else {
        BLOCK_VALIDATION_RESULT_CACHE_SIZE as nat
    }
    &&& after[0] == report
    &&& forall|i: int, j: int|
        0 <= i && j == i + 1 && j < after.len() ==> #[trigger] after[j] == #[trigger] before[i]
}

/// A result is recorded whole and in front of the others; an error is passed on,
/// and the store is left alone.
pub proof fn law_only_results_are_recorded(
    outcome: Result<BlockValidationResult, ValidationError>,
    block_status_store: &mut BlockValidationResultStore,
    result: Result<(), ValidationError>,
)
    requires
        call_ensures(validator::record, (outcome, block_status_store), result),
    ensures
        match outcome {
            Ok(valid) => result is Ok && came_in(
                old(block_status_store)@,
                kept(valid),
                final(block_status_store)@,
            ),
            Err(error) => result == Err::<(), ValidationError>(error)
                && final(block_status_store)@ == old(block_status_store)@,
        },
{
    match outcome {
        Ok(valid) => {
            assert(valid@.execution_results =~= kept(valid).execution_results);
        },
        Err(_) => {},
    }
}

/// A block is validated by the validator's services, and what they come to is
/// recorded if it is a result.
pub proof fn law_block_is_validated_and_recorded<
    TEP: ExecutionPlatform + Clone,
    BM: BlockManager + Clone,
    VF: StateViewFactory + Clone,
    BS: BlockScheduler<BM, ST>,
    ST: BlockStatusStore + Clone,
    Tx: Clone,
    Rx,
>(
    validator: &BlockValidator<TEP, BM, VF, BS, ST, Tx, Rx>,
    block: &BlockPair,
    block_status_store: &mut BlockValidationResultStore,
    result: Result<(), ValidationError>,
)
    requires
        call_ensures(
            BlockValidator::<TEP, BM, VF, BS, ST, Tx, Rx>::validate_block,
            (validator, block, block_status_store),
            result,
        ),
    ensures
        exists|outcome: Result<BlockValidationResult, ValidationError>| #[trigger]
            validator_decides(*validator, block, outcome) && match outcome {
                Ok(valid) => result is Ok && came_in(
                    old(block_status_store)@,
                    kept(valid),
                    final(block_status_store)@,
                ),
                Err(error) => result == Err::<(), ValidationError>(error)
                    && final(block_status_store)@ == old(block_status_store)@,
            },
{
    let outcome = choose|outcome: Result<BlockValidationResult, ValidationError>| #[trigger]
        validator.permits(block, outcome) && validator::recorded(
            outcome,
            old(block_status_store)@,
            result,
            final(block_status_store)@,
        );
    law_services_decide(*validator, block, outcome);
    match outcome {
        Ok(valid) => {
            assert(valid@.execution_results =~= kept(valid).execution_results);
        },
        Err(_) => {},
    }
}

/// A new validator holds the services that it was given, has one open channel for
/// each of its threads, and schedules by its own blocks and its own store.
pub proof fn law_new_validator_is_as_given<
    TEP: ExecutionPlatform + Clone,
    BM: BlockManager + Clone,
    VF: StateViewFactory + Clone,
    BS: BlockScheduler<BM, ST>,
    ST: BlockStatusStore + Clone,
    Tx: Clone,
    Rx,
    F: Fn() -> (Tx, Rx),
>(
    block_manager: BM,
    transaction_executor: TEP,
    block_status_store: ST,
    view_factory: VF,
    open_channel: F,
    validator: BlockValidator<TEP, BM, VF, BS, ST, Tx, Rx>,
)
    requires
        open_channel.requires(()),
        call_ensures(
            BlockValidator::<TEP, BM, VF, BS, ST, Tx, Rx>::new::<F>,
            (block_manager, transaction_executor, block_status_store, view_factory, open_channel),
            validator,
        ),
    ensures
        validator.block_manager == block_manager,
        validator.transaction_executor == transaction_executor,
        validator.block_status_store == block_status_store,
        validator.view_factory == view_factory,
        validator.channels@.len() == validator::BLOCK_VALIDATOR_THREAD_NUM - 1,
        forall|i: int|
            0 <= i < validator.channels@.len() ==> (#[trigger] validator.channels@[i]).1 is Some
                && open_channel.ensures(
                (),
                (validator.channels@[i].0, validator.channels@[i].1->0),
            ),
        exists|blocks: BM, statuses: ST|
            {
                &&& call_ensures(BM::clone, (&block_manager,), blocks)
                &&& call_ensures(ST::clone, (&block_status_store,), statuses)
                &&& #[trigger] call_ensures(
                    BS::new,
                    (blocks, statuses),
                    validator.block_scheduler,
                )
            },
{
}

/// Starting takes every receiver, once, with a handle on its own channel; the
/// senders and all else stay.
pub proof fn law_start_takes_every_receiver<
    TEP: ExecutionPlatform + Clone,
    BM: BlockManager + Clone,
    VF: StateViewFactory + Clone,
    BS: BlockScheduler<BM, ST>,
    ST: BlockStatusStore + Clone,
    Tx: Clone,
    Rx,
>(
    validator: &mut BlockValidator<TEP, BM, VF, BS, ST, Tx, Rx>,
    ends: Vec<(Rx, Tx)>,
)
    requires
        forall|i: int|
            0 <= i < validator.channels@.len() ==> (#[trigger] validator.channels@[i]).1 is Some,
        call_ensures(BlockValidator::<TEP, BM, VF, BS, ST, Tx, Rx>::start, (validator,), ends),
    ensures
        ends@.len() == old(validator).channels@.len(),
        final(validator).channels@.len() == old(validator).channels@.len(),
        forall|i: int|
            0 <= i < ends@.len() ==> {
                &&& (#[trigger] ends@[i]).0 == old(validator).channels@[i].1->0
                &&& call_ensures(Tx::clone, (&old(validator).channels@[i].0,), ends@[i].1)
            },
        forall|i: int|
            0 <= i < final(validator).channels@.len() ==> {
                &&& (#[trigger] final(validator).channels@[i]).0 == old(validator).channels@[i].0
                &&& final(validator).channels@[i].1 is None
            },
        final(validator).block_scheduler == old(validator).block_scheduler,
        final(validator).block_status_store == old(validator).block_status_store,
        final(validator).block_manager == old(validator).block_manager,
        final(validator).transaction_executor == old(validator).transaction_executor,
        final(validator).view_factory == old(validator).view_factory,
{
}

/// The sender is a handle on the channel whose turn it is, and the turn goes on by
/// one, from the last channel to the first.
pub proof fn law_turn_goes_on<
    TEP: ExecutionPlatform + Clone,
    BM: BlockManager + Clone,
    VF: StateViewFactory + Clone,
    BS: BlockScheduler<BM, ST>,
    ST: BlockStatusStore + Clone,
    Tx: Clone,
    Rx,
>(
    validator: &BlockValidator<TEP, BM, VF, BS, ST, Tx, Rx>,
    index: usize,
    next: (Tx, usize),
)
    requires
        index < validator.channels@.len(),
        call_ensures(
            BlockValidator::<TEP, BM, VF, BS, ST, Tx, Rx>::return_sender,
            (validator, index),
            next,
        ),
    ensures
        call_ensures(Tx::clone, (&validator.channels@[index as int].0,), next.0),
        index + 1 < validator.channels@.len() ==> next.1 == index + 1,
        index + 1 == validator.channels@.len() ==> next.1 == 0,
{
    let count = validator.channels@.len();
    if index + 1 < count {
        vstd::arithmetic::div_mod::lemma_small_mod((index + 1) as nat, count);
    } else {
        vstd::arithmetic::div_mod::lemma_mod_self_0(count as int);
    }
}

/// Whether the blocks are handed out in rotation: each of them, in order and as it
/// is, to the channel that comes as many places after the one at `index` as there
/// are blocks before it.
pub open spec fn rotated<Tx: Clone, Rx>(
    channels: Seq<(Tx, Option<Rx>)>,
    index: int,
    blocks: Seq<BlockPair>,
    handed: (Seq<(Tx, BlockPair)>, int),
) -> bool {
    &&& handed.0.len() == blocks.len()
    &&& forall|i: int|
        0 <= i < blocks.len() ==> {
            &&& (#[trigger] handed.0[i]).1 == blocks[i]
            &&& call_ensures(
                Tx::clone,
                (&channels[(index + i) % (channels.len() as int)].0,),
                handed.0[i].0,
            )
        }
    &&& handed.1 == (index + blocks.len()) % (channels.len() as int)
}

/// Blocks are handed out in rotation.
pub proof fn law_blocks_are_handed_out_in_rotation<
    TEP: ExecutionPlatform + Clone,
    BM: BlockManager + Clone,
    VF: StateViewFactory + Clone,
    BS: BlockScheduler<BM, ST>,
    ST: BlockStatusStore + Clone,
    Tx: Clone,
    Rx,
>(
    validator: &BlockValidator<TEP, BM, VF, BS, ST, Tx, Rx>,
    blocks: Vec<BlockPair>,
    index: usize,
    handed: (Vec<(Tx, BlockPair)>, usize),
)
    requires
        index < validator.channels@.len(),
        call_ensures(
            BlockValidator::<TEP, BM, VF, BS, ST, Tx, Rx>::hand_out,
            (validator, blocks, index),
            handed,
        ),
    ensures
        rotated(validator.channels@, index as int, blocks@, (handed.0@, handed.1 as int)),
{
}

/// Of the blocks that are submitted, all those that the scheduler finds ready, and
/// no others, are handed out in rotation.
pub proof fn law_ready_blocks_are_handed_out<
    TEP: ExecutionPlatform + Clone,
    BM: BlockManager + Clone,
    VF: StateViewFactory + Clone,
    BS: BlockScheduler<BM, ST>,
    ST: BlockStatusStore + Clone,
    Tx: Clone,
    Rx,
>(
    validator: &BlockValidator<TEP, BM, VF, BS, ST, Tx, Rx>,
    blocks: Vec<BlockPair>,
    index: usize,
    handed: (Vec<(Tx, BlockPair)>, usize),
)
    requires
        index < validator.channels@.len(),
        call_ensures(
            BlockValidator::<TEP, BM, VF, BS, ST, Tx, Rx>::submit_blocks_for_verification,
            (validator, blocks, index),
            handed,
        ),
    ensures
        exists|ready: Vec<BlockPair>| #[trigger]
            call_ensures(BS::schedule, (&validator.block_scheduler, blocks), ready) && rotated(
                validator.channels@,
                index as int,
                ready@,
                (handed.0@, handed.1 as int),
            ),
{
}

/// Once a block is done, all the blocks that the scheduler had held back for it,
/// and no others, are handed out in rotation.
pub proof fn law_pending_blocks_are_handed_out<
    TEP: ExecutionPlatform + Clone,
    BM: BlockManager + Clone,
    VF: StateViewFactory + Clone,
    BS: BlockScheduler<BM, ST>,
    ST: BlockStatusStore + Clone,
    Tx: Clone,
    Rx,
>(
    validator: &BlockValidator<TEP, BM, VF, BS, ST, Tx, Rx>,
    block: &BlockPair,
    index: usize,
    handed: (Vec<(Tx, BlockPair)>, usize),
)
    requires
        index < validator.channels@.len(),
        call_ensures(
            BlockValidator::<TEP, BM, VF, BS, ST, Tx, Rx>::process_pending,
            (validator, block, index),
            handed,
        ),
    ensures
        exists|ready: Vec<BlockPair>| #[trigger]
            call_ensures(
                BS::done,
                (&validator.block_scheduler, &block.block.header_signature),
                ready,
            ) && rotated(validator.channels@, index as int, ready@, (handed.0@, handed.1 as int)),
{
}

/// A copy of a validator reaches all the same channels, and holds handles on the
/// same services and no receiver.
pub proof fn law_copy_reaches_the_same<
    TEP: ExecutionPlatform + Clone,
    BM: BlockManager + Clone,
    VF: StateViewFactory + Clone,
    BS: BlockScheduler<BM, ST> + Clone,
    ST: BlockStatusStore + Clone,
    Tx: Clone,
    Rx,
>(
    validator: &BlockValidator<TEP, BM, VF, BS, ST, Tx, Rx>,
    copy: BlockValidator<TEP, BM, VF, BS, ST, Tx, Rx>,
)
    requires
        call_ensures(
            <BlockValidator<TEP, BM, VF, BS, ST, Tx, Rx> as Clone>::clone,
            (validator,),
            copy,
        ),
    ensures
        copy.channels@.len() == validator.channels@.len(),
        forall|i: int|
            0 <= i < copy.channels@.len() ==> {
                &&& (#[trigger] copy.channels@[i]).1 is None
                &&& call_ensures(Tx::clone, (&validator.channels@[i].0,), copy.channels@[i].0)
            },
        call_ensures(BS::clone, (&validator.block_scheduler,), copy.block_scheduler),
        call_ensures(ST::clone, (&validator.block_status_store,), copy.block_status_store),
        call_ensures(BM::clone, (&validator.block_manager,), copy.block_manager),
        call_ensures(TEP::clone, (&validator.transaction_executor,), copy.transaction_executor),
        call_ensures(VF::clone, (&validator.view_factory,), copy.view_factory),
{
}

} // verus!
