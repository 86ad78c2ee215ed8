//! What holds of a store of validation results over several calls.

use vstd::prelude::*;

use crate::result::{BlockReport, BlockStatus, BlockValidationResult};
use crate::store::{
    failed, knows, position, remembered, report_on, status_in, touched, used, BlockStatusStore,
    BlockValidationResultStore, BLOCK_VALIDATION_RESULT_CACHE_SIZE,
};

verus! {

/// A position is the least index of a report on the block.
proof fn lemma_position(s: Seq<BlockReport>, id: Seq<char>)
    ensures
        position(s, id) <= s.len(),
        forall|j: int| 0 <= j < position(s, id) ==> (#[trigger] s[j]).block_id != id,
        knows(s, id) ==> s[position(s, id) as int].block_id == id,
    decreases s.len(),
{
    if s.len() > 0 && s[0].block_id != id {
        let rest = s.drop_first();
        lemma_position(rest, id);
        assert forall|j: int| 0 <= j < position(s, id) implies (#[trigger] s[j]).block_id != id by {
            if j > 0 {
                assert(s[j] == rest[j - 1]);
            }
        }
        if knows(s, id) {
            assert(s[position(s, id) as int] == rest[position(rest, id) as int]);
        }
    }
}

/// The least index of a report on the block is its position.
proof fn lemma_position_is(s: Seq<BlockReport>, id: Seq<char>, p: int)
    requires
        0 <= p <= s.len(),
        forall|j: int| 0 <= j < p ==> (#[trigger] s[j]).block_id != id,
        p < s.len() ==> s[p].block_id == id,
    ensures
        position(s, id) == p,
{
    lemma_position(s, id);
    let q = position(s, id) as int;
    if q < p {
        assert(s[q].block_id != id);
    } else if p < q {
        assert(s[p].block_id != id);
    }
}

/// Moving the first report on a block to the front, with another content but
/// for the same block, leaves what is reported on every other block.
proof fn lemma_touched(s: Seq<BlockReport>, id: Seq<char>, report: BlockReport, other: Seq<char>)
    requires
        knows(s, id),
        report.block_id == id,
    ensures
        touched(s, id, report).len() == s.len(),
        report_on(touched(s, id, report), id) == Some(report),
        other != id ==> report_on(touched(s, id, report), other) == report_on(s, other),
{
    lemma_position(s, id);
    lemma_position(s, other);
    let p = position(s, id) as int;
    let t = touched(s, id, report);
    assert(t[0] == report);
    lemma_position_is(t, id, 0);
    if other != id {
        let q = position(s, other) as int;
        assert(t.len() == s.len());
        assert(forall|j: int| 1 <= j <= p ==> t[j] == s[j - 1]);
        assert(forall|j: int| p < j < s.len() ==> t[j] == s[j]);
        if q < p {
            assert forall|j: int| 0 <= j < q + 1 implies (#[trigger] t[j]).block_id != other by {
                if j > 0 {
                    assert(t[j] == s[j - 1]);
                }
            }
            assert(t[q + 1] == s[q]);
            lemma_position_is(t, other, q + 1);
        } else {
            assert(q != p);
            assert forall|j: int| 0 <= j < q implies (#[trigger] t[j]).block_id != other by {
                if 1 <= j <= p {
                    assert(t[j] == s[j - 1]);
                } else if j > p {
                    assert(t[j] == s[j]);
                }
            }
            lemma_position_is(t, other, q);
        }
    }
}

/// What is found for a block is a report on that block.
pub proof fn law_found_report_is_on_the_block(s: Seq<BlockReport>, id: Seq<char>)
    ensures
        report_on(s, id) matches Some(report) ==> report.block_id == id,
{
    lemma_position(s, id);
}

/// What was inserted is what is found: right after a result has come in, the
/// store gives it back for its block, with its status.
pub proof fn law_inserted_is_found(s: Seq<BlockReport>, report: BlockReport)
    ensures
        report_on(remembered(s, report), report.block_id) == Some(report),
        status_in(remembered(s, report), report.block_id) == report.status,
{
    let t = remembered(s, report);
    assert(t[0] == report);
    lemma_position_is(t, report.block_id, 0);
}

/// An insertion keeps the results of other blocks, except the least recently
/// used one of a full store.
pub proof fn law_insert_keeps_others(s: Seq<BlockReport>, report: BlockReport, id: Seq<char>)
    requires
        id != report.block_id,
        knows(s, id),
        position(s, id) + 1 < BLOCK_VALIDATION_RESULT_CACHE_SIZE,
    ensures
        report_on(remembered(s, report), id) == report_on(s, id),
        position(remembered(s, report), id) == position(s, id) + 1,
{
    lemma_position(s, id);
    let t = remembered(s, report);
    let q = position(s, id) as int;
    assert(forall|j: int| 1 <= j < t.len() ==> t[j] == s[j - 1]);
    lemma_position_is(t, id, q + 1);
}

/// The reports once all of `incoming` have come in, the first of them first.
pub open spec fn remembered_all(s: Seq<BlockReport>, incoming: Seq<BlockReport>) -> Seq<BlockReport>
    decreases incoming.len(),
{
    if incoming.len() == 0 {
        s
    } else {
        remembered(remembered_all(s, incoming.drop_last()), incoming.last())
    }
}

/// A result survives insertions for other blocks as long as there is room behind
/// it: one that was just used survives all but one of as many insertions as the
/// store has places.
pub proof fn law_recent_result_survives(
    s: Seq<BlockReport>,
    incoming: Seq<BlockReport>,
    id: Seq<char>,
)
    requires
        knows(s, id),
        position(s, id) + incoming.len() < BLOCK_VALIDATION_RESULT_CACHE_SIZE,
        forall|i: int| 0 <= i < incoming.len() ==> (#[trigger] incoming[i]).block_id != id,
    ensures
        report_on(remembered_all(s, incoming), id) == report_on(s, id),
        position(remembered_all(s, incoming), id) == position(s, id) + incoming.len(),
    decreases incoming.len(),
{
    if incoming.len() > 0 {
        let earlier = incoming.drop_last();
        assert(forall|i: int| 0 <= i < earlier.len() ==> earlier[i] == incoming[i]);
        law_recent_result_survives(s, earlier, id);
        law_insert_keeps_others(remembered_all(s, earlier), incoming.last(), id);
    }
}

/// A block without a result gets one only by an insertion for that very block.
pub proof fn law_insert_adds_no_other(s: Seq<BlockReport>, report: BlockReport, id: Seq<char>)
    requires
        id != report.block_id,
        !knows(s, id),
    ensures
        !knows(remembered(s, report), id),
        status_in(remembered(s, report), id) == BlockStatus::Unknown,
{
    lemma_position(s, id);
    let t = remembered(s, report);
    assert(forall|j: int| 1 <= j < t.len() ==> t[j] == s[j - 1]);
    lemma_position_is(t, id, t.len() as int);
}

/// A full store forgets exactly its least recently used result, and a store
/// that is not full forgets nothing.
pub proof fn law_least_recently_used_is_evicted(s: Seq<BlockReport>, report: BlockReport)
    requires
        s.len() <= BLOCK_VALIDATION_RESULT_CACHE_SIZE,
    ensures
        remembered(s, report) == if s.len() == BLOCK_VALIDATION_RESULT_CACHE_SIZE {
            seq![report] + s.drop_last()
        } else {
            seq![report] + s
        },
        remembered(s, report).len() <= BLOCK_VALIDATION_RESULT_CACHE_SIZE,
{
    if s.len() == BLOCK_VALIDATION_RESULT_CACHE_SIZE {
        assert(remembered(s, report) =~= seq![report] + s.drop_last());
    }
}

/// Asking for a block, whether for its result or for its status, changes the
/// answer for no block, and the answer comes to the front.
pub proof fn law_asking_changes_no_answer(s: Seq<BlockReport>, asked: Seq<char>, id: Seq<char>)
    ensures
        report_on(used(s, asked), id) == report_on(s, id),
        status_in(used(s, asked), id) == status_in(s, id),
        used(s, asked).len() == s.len(),
        knows(s, asked) ==> position(used(s, asked), asked) == 0,
{
    if knows(s, asked) {
        lemma_position(s, asked);
        let report = s[position(s, asked) as int];
        lemma_touched(s, asked, report, id);
        assert(used(s, asked)[0] == report);
        lemma_position_is(used(s, asked), asked, 0);
    }
}

/// A failed block is invalid from then on; the rest of its result is kept, and
/// so are the results of all other blocks.
pub proof fn law_failed_block_is_invalid(s: Seq<BlockReport>, id: Seq<char>, other: Seq<char>)
    ensures
        status_in(failed(s, id), id) == if knows(s, id) {
            BlockStatus::Invalid
        } else {
            BlockStatus::Unknown
        },
        report_on(failed(s, id), id) == match report_on(s, id) {
            Some(report) => Some(BlockReport { status: BlockStatus::Invalid, ..report }),
            None => None,
        },
        other != id ==> report_on(failed(s, id), other) == report_on(s, other),
        failed(s, id).len() == s.len(),
{
    if knows(s, id) {
        lemma_position(s, id);
        let report = BlockReport {
            status: BlockStatus::Invalid,
            ..s[position(s, id) as int]
        };
        lemma_touched(s, id, report, other);
    }
}

/// Failing a block twice is failing it once.
pub proof fn law_failing_is_idempotent(s: Seq<BlockReport>, id: Seq<char>)
    ensures
        failed(failed(s, id), id) == failed(s, id),
{
    if knows(s, id) {
        let t = failed(s, id);
        lemma_position(s, id);
        lemma_position_is(t, id, 0);
        assert(failed(t, id) =~= t);
    }
}

/// A new store holds nothing.
pub proof fn law_new_store_is_empty(store: BlockValidationResultStore)
    requires
        call_ensures(BlockValidationResultStore::new, (), store) || call_ensures(
            <BlockValidationResultStore as Default>::default,
            (),
            store,
        ),
    ensures
        store@.len() == 0,
{
}

/// A result that is inserted is in front of the others, whole, and the others are
/// there in their order, but for the last one of a full store.
pub proof fn law_insert_puts_in_front(
    store: &mut BlockValidationResultStore,
    result: BlockValidationResult,
)
    requires
        call_ensures(BlockValidationResultStore::insert, (store, result), ()),
    ensures
        final(store)@.len() == if old(store)@.len() < BLOCK_VALIDATION_RESULT_CACHE_SIZE {
            old(store)@.len() + 1
        } else {
            BLOCK_VALIDATION_RESULT_CACHE_SIZE as nat
        },
        final(store)@[0].block_id == result.block_id@,
        final(store)@[0].num_transactions == result.num_transactions,
        final(store)@[0].status == result.status,
        final(store)@[0].execution_results.len() == result.execution_results@.len(),
        forall|i: int|
            0 <= i < result.execution_results@.len() ==> {
                let report = #[trigger] final(store)@[0].execution_results[i];
                &&& report.signature == result.execution_results@[i].signature@
                &&& report.is_valid == result.execution_results@[i].is_valid
                &&& report.receipt == result.execution_results@[i].receipt@
            },
        forall|i: int, j: int|
            0 <= i && j == i + 1 && j < final(store)@.len() ==> #[trigger] final(store)@[j]
                == #[trigger] old(store)@[i],
{
}

/// What is got of a block is the whole of the first report on it, wherever that is,
/// which moves to the front of the others.
pub proof fn law_get_gives_the_first_report(
    store: &mut BlockValidationResultStore,
    block_id: &str,
    i: int,
    result: Option<BlockValidationResult>,
)
    requires
        call_ensures(BlockValidationResultStore::get, (store, block_id), result),
        0 <= i < old(store)@.len(),
        old(store)@[i].block_id == block_id@,
        forall|j: int| 0 <= j < i ==> (#[trigger] old(store)@[j]).block_id != block_id@,
    ensures
        result matches Some(found) && {
            &&& found.block_id@ == block_id@
            &&& found.num_transactions == old(store)@[i].num_transactions
            &&& found.status == old(store)@[i].status
            &&& found.execution_results@.len() == old(store)@[i].execution_results.len()
            &&& forall|k: int|
                0 <= k < found.execution_results@.len() ==> {
                    &&& (#[trigger] found.execution_results@[k]).signature@
                        == old(store)@[i].execution_results[k].signature
                    &&& found.execution_results@[k].is_valid
                        == old(store)@[i].execution_results[k].is_valid
                    &&& found.execution_results@[k].receipt@
                        == old(store)@[i].execution_results[k].receipt
                }
        },
        final(store)@[0] == old(store)@[i],
        final(store)@.len() == old(store)@.len(),
        forall|j: int, k: int|
            0 <= j < i && k == j + 1 ==> #[trigger] final(store)@[k] == #[trigger] old(store)@[j],
        forall|j: int| i < j < old(store)@.len() ==> #[trigger] final(store)@[j] == old(store)@[j],
{
    lemma_position_is(old(store)@, block_id@, i);
    let found = result->0;
    assert(found@ == old(store)@[i]);
    assert(found@.execution_results.len() == found.execution_results@.len());
    assert forall|k: int| 0 <= k < found.execution_results@.len() implies {
        &&& (#[trigger] found.execution_results@[k]).signature@
            == old(store)@[i].execution_results[k].signature
        &&& found.execution_results@[k].is_valid == old(store)@[i].execution_results[k].is_valid
        &&& found.execution_results@[k].receipt@ == old(store)@[i].execution_results[k].receipt
    } by {
        assert(found@.execution_results[k] == found.execution_results@[k]@);
    }
}

/// The status of a block is that of the first report on it, wherever that is, which
/// moves to the front of the others.
pub proof fn law_status_is_that_of_the_first_report(
    store: &mut BlockValidationResultStore,
    block_id: &str,
    i: int,
    status: BlockStatus,
)
    requires
        call_ensures(
            <BlockValidationResultStore as BlockStatusStore>::status,
            (store, block_id),
            status,
        ),
        0 <= i < old(store)@.len(),
        old(store)@[i].block_id == block_id@,
        forall|j: int| 0 <= j < i ==> (#[trigger] old(store)@[j]).block_id != block_id@,
    ensures
        status == old(store)@[i].status,
        final(store)@[0] == old(store)@[i],
        final(store)@.len() == old(store)@.len(),
        forall|j: int, k: int|
            0 <= j < i && k == j + 1 ==> #[trigger] final(store)@[k] == #[trigger] old(store)@[j],
        forall|j: int| i < j < old(store)@.len() ==> #[trigger] final(store)@[j] == old(store)@[j],
{
    lemma_position_is(old(store)@, block_id@, i);
}

/// Failing a block makes the first report on it, wherever that is, say invalid, with
/// all else as it was, and moves it to the front of the others.
pub proof fn law_failing_changes_the_first_report(
    store: &mut BlockValidationResultStore,
    block_id: &str,
    i: int,
)
    requires
        call_ensures(BlockValidationResultStore::fail_block, (store, block_id), ()),
        0 <= i < old(store)@.len(),
        old(store)@[i].block_id == block_id@,
        forall|j: int| 0 <= j < i ==> (#[trigger] old(store)@[j]).block_id != block_id@,
    ensures
        final(store)@[0].status == BlockStatus::Invalid,
        final(store)@[0].block_id == old(store)@[i].block_id,
        final(store)@[0].num_transactions == old(store)@[i].num_transactions,
        final(store)@[0].execution_results == old(store)@[i].execution_results,
        final(store)@.len() == old(store)@.len(),
        forall|j: int, k: int|
            0 <= j < i && k == j + 1 ==> #[trigger] final(store)@[k] == #[trigger] old(store)@[j],
        forall|j: int| i < j < old(store)@.len() ==> #[trigger] final(store)@[j] == old(store)@[j],
{
    lemma_position_is(old(store)@, block_id@, i);
}

/// Of a block without a report nothing is got, it is unknown, and neither asking for
/// it nor failing it changes anything.
pub proof fn law_unknown_block_changes_nothing(
    store: &mut BlockValidationResultStore,
    block_id: &str,
    result: Option<BlockValidationResult>,
    status: BlockStatus,
)
    requires
        forall|j: int| 0 <= j < old(store)@.len() ==> (#[trigger] old(store)@[j]).block_id != block_id@,
    ensures
        call_ensures(BlockValidationResultStore::get, (store, block_id), result) ==> result is None
            && final(store)@ == old(store)@,
        call_ensures(
            <BlockValidationResultStore as BlockStatusStore>::status,
            (store, block_id),
            status,
        ) ==> status == BlockStatus::Unknown && final(store)@ == old(store)@,
        call_ensures(BlockValidationResultStore::fail_block, (store, block_id), ())
            ==> final(store)@ == old(store)@,
{
    lemma_position_is(old(store)@, block_id@, old(store)@.len() as int);
}

} // verus!
