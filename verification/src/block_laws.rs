//! What is taken out of a block when the chain is asked about it.

use vstd::prelude::*;

use crate::block;
use crate::block::{Batch, Transaction};
use crate::sequences;

verus! {

/// The transactions of each batch, batch by batch.
pub open spec fn by_batch(batches: Seq<Batch>) -> Seq<Seq<Transaction>> {
    Seq::new(batches.len(), |i: int| batches[i].transactions@)
}

/// Whether these are the identifiers of all the batches, in order.
pub open spec fn lists_batches(ids: Seq<&String>, batches: Seq<Batch>) -> bool {
    &&& ids.len() == batches.len()
    &&& forall|i: int|
        0 <= i < batches.len() ==> *ids[i] == (#[trigger] batches[i]).header_signature
}

/// Whether these are the identifiers of all the transactions, batch by batch.
pub open spec fn lists_transactions(ids: Seq<&String>, batches: Seq<Batch>) -> bool {
    exists|all: Seq<Transaction>|
        {
            &&& #[trigger] sequences::holds_all(all, by_batch(batches))
            &&& ids.len() == all.len()
            &&& forall|k: int| 0 <= k < all.len() ==> *ids[k] == (#[trigger] all[k]).header_signature
        }
}

/// Whether these are all the transactions, batch by batch.
pub open spec fn refers_to_transactions(refs: Seq<&Transaction>, batches: Seq<Batch>) -> bool {
    exists|all: Seq<Transaction>|
        {
            &&& #[trigger] sequences::holds_all(all, by_batch(batches))
            &&& refs.len() == all.len()
            &&& forall|k: int| 0 <= k < all.len() ==> *refs[k] == #[trigger] all[k]
        }
}

/// The transactions in a block are those of each batch, batch by batch.
pub proof fn law_transactions_are_those_of_the_batches(batches: Seq<Batch>)
    ensures
        sequences::holds_all(block::transactions_in(batches), by_batch(batches)),
    decreases batches.len(),
{
    if batches.len() > 0 {
        law_transactions_are_those_of_the_batches(batches.drop_last());
        assert(by_batch(batches).drop_last() =~= by_batch(batches.drop_last()));
        sequences::lemma_holds_all_step(
            block::transactions_in(batches.drop_last()),
            by_batch(batches),
        );
    }
}

/// Each transaction of the batches is gathered once and in its place: the one at
/// `j` of the batch at `i` comes behind all those of the earlier batches, and
/// nothing else is gathered.
pub proof fn law_every_transaction_is_gathered(batches: &Vec<Batch>, refs: Vec<&Transaction>)
    requires
        call_ensures(block::transactions, (batches,), refs),
    ensures
        refers_to_transactions(refs@, batches@),
        refs@.len() == sequences::count_before(by_batch(batches@), batches@.len()),
        forall|i: int, j: int|
            0 <= i < batches@.len() && 0 <= j < batches@[i].transactions@.len() ==> sequences::is_at(
                refs@,
                sequences::count_before(by_batch(batches@), i as nat) + j,
                &#[trigger] batches@[i].transactions@[j],
            ),
{
    law_transactions_are_those_of_the_batches(batches@);
    assert forall|i: int, j: int|
        0 <= i < batches@.len() && 0 <= j < batches@[i].transactions@.len() implies sequences::is_at(
        refs@,
        sequences::count_before(by_batch(batches@), i as nat) + j,
        &#[trigger] batches@[i].transactions@[j],
    ) by {
        assert(by_batch(batches@)[i][j] == batches@[i].transactions@[j]);
    }
}

/// The identifier of each transaction of the batches is gathered once and in its
/// place: that of the one at `j` of the batch at `i` comes behind those of all the
/// earlier batches, and nothing else is gathered.
pub proof fn law_every_transaction_id_is_gathered(batches: &Vec<Batch>, ids: Vec<&String>)
    requires
        call_ensures(block::transaction_ids, (batches,), ids),
    ensures
        lists_transactions(ids@, batches@),
        ids@.len() == sequences::count_before(by_batch(batches@), batches@.len()),
        forall|i: int, j: int|
            0 <= i < batches@.len() && 0 <= j < batches@[i].transactions@.len() ==> sequences::is_at(
                ids@,
                sequences::count_before(by_batch(batches@), i as nat) + j,
                &(#[trigger] batches@[i].transactions@[j]).header_signature,
            ),
{
    law_transactions_are_those_of_the_batches(batches@);
    assert forall|i: int, j: int|
        0 <= i < batches@.len() && 0 <= j < batches@[i].transactions@.len() implies sequences::is_at(
        ids@,
        sequences::count_before(by_batch(batches@), i as nat) + j,
        &(#[trigger] batches@[i].transactions@[j]).header_signature,
    ) by {
        assert(by_batch(batches@)[i][j] == batches@[i].transactions@[j]);
    }
}

/// The identifier of each batch is gathered, in order, and nothing else.
pub proof fn law_every_batch_id_is_gathered(batches: &Vec<Batch>, ids: Vec<&String>)
    requires
        call_ensures(block::batch_ids, (batches,), ids),
    ensures
        lists_batches(ids@, batches@),
{
}

} // verus!
