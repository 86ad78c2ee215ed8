//! Blocks and what they hold.

use vstd::prelude::*;

verus! {

/// A transaction, as its signer sent it.
#[derive(Clone, Debug)]
pub struct Transaction {
    pub header: Vec<u8>,
    /// The signature that identifies the transaction.
    pub header_signature: String,
    pub payload: Vec<u8>,
}

/// Transactions that are committed together or not at all.
#[derive(Clone, Debug)]
pub struct Batch {
    pub header: Vec<u8>,
    /// The signature that identifies the batch.
    pub header_signature: String,
    pub transactions: Vec<Transaction>,
    pub trace: bool,
}

/// A block, with its header still encoded.
#[derive(Clone, Debug)]
pub struct Block {
    pub header: Vec<u8>,
    /// The signature that identifies the block.
    pub header_signature: String,
    pub batches: Vec<Batch>,
}

/// What the header of a block says.
#[derive(Clone, Debug)]
pub struct BlockHeader {
    pub block_num: u64,
    pub previous_block_id: String,
    pub signer_public_key: Vec<u8>,
    pub state_root_hash: Vec<u8>,
}

/// A block together with its decoded header.
#[derive(Clone, Debug)]
pub struct BlockPair {
    pub block: Block,
    pub header: BlockHeader,
}

impl BlockPair {
    /// The identifier of the block.
    pub open spec fn id(&self) -> Seq<char> {
        self.block.header_signature@
    }
}

/// The transactions of the batches, in the order in which the block holds them.
pub open spec fn transactions_in(batches: Seq<Batch>) -> Seq<Transaction>
    decreases batches.len(),
{
    if batches.len() == 0 {
        Seq::empty()
    } else {
        transactions_in(batches.drop_last()) + batches.last().transactions@
    }
}

/// Whether `ids` lists the identifiers of the batches, in order.
pub open spec fn are_batch_ids(ids: Seq<&String>, batches: Seq<Batch>) -> bool {
    &&& ids.len() == batches.len()
    &&& forall|i: int| 0 <= i < ids.len() ==> *(#[trigger] ids[i]) == batches[i].header_signature
}

/// Whether `ids` lists the identifiers of the transactions, in order.
pub open spec fn are_transaction_ids(ids: Seq<&String>, transactions: Seq<Transaction>) -> bool {
    &&& ids.len() == transactions.len()
    &&& forall|i: int|
        0 <= i < ids.len() ==> *(#[trigger] ids[i]) == transactions[i].header_signature
}

/// Whether `refs` refers to the transactions, in order.
pub open spec fn refer_to(refs: Seq<&Transaction>, transactions: Seq<Transaction>) -> bool {
    &&& refs.len() == transactions.len()
    &&& forall|i: int| 0 <= i < refs.len() ==> *(#[trigger] refs[i]) == transactions[i]
}

/// The identifiers of the batches.
pub fn batch_ids(batches: &Vec<Batch>) -> (ids: Vec<&String>)
    ensures
        are_batch_ids(ids@, batches@),
{
    let mut ids: Vec<&String> = Vec::new();
    let mut i: usize = 0;
    while i < batches.len()
        invariant
            i <= batches@.len(),
            are_batch_ids(ids@, batches@.take(i as int)),
        decreases batches@.len() - i,
    {
        ids.push(&batches[i].header_signature);
        i += 1;
    }
    assert(batches@.take(i as int) =~= batches@);
    ids
}

/// The transactions of all the batches, one after the other.
pub fn transactions(batches: &Vec<Batch>) -> (refs: Vec<&Transaction>)
    ensures
        refer_to(refs@, transactions_in(batches@)),
{
    let mut refs: Vec<&Transaction> = Vec::new();
    let mut i: usize = 0;
    while i < batches.len()
        invariant
            i <= batches@.len(),
            refer_to(refs@, transactions_in(batches@.take(i as int))),
        decreases batches@.len() - i,
    {
        let batch = &batches[i];
        let ghost before = transactions_in(batches@.take(i as int));
        let mut j: usize = 0;
        while j < batch.transactions.len()
            invariant
                j <= batch.transactions@.len(),
                refer_to(refs@, before + batch.transactions@.take(j as int)),
            decreases batch.transactions@.len() - j,
        {
            refs.push(&batch.transactions[j]);
            j += 1;
        }
        assert(batch.transactions@.take(j as int) =~= batch.transactions@);
        assert(batches@.take(i + 1).drop_last() =~= batches@.take(i as int));
        i += 1;
    }
    assert(batches@.take(i as int) =~= batches@);
    refs
}

/// The identifiers of the transactions of all the batches.
pub fn transaction_ids(batches: &Vec<Batch>) -> (ids: Vec<&String>)
    ensures
        are_transaction_ids(ids@, transactions_in(batches@)),
{
    let refs = transactions(batches);
    let ghost all = transactions_in(batches@);
    let mut ids: Vec<&String> = Vec::new();
    let mut i: usize = 0;
    while i < refs.len()
        invariant
            i <= refs@.len(),
            refer_to(refs@, all),
            are_transaction_ids(ids@, all.take(i as int)),
        decreases refs@.len() - i,
    {
        ids.push(&refs[i].header_signature);
        i += 1;
    }
    assert(all.take(i as int) =~= all);
    ids
}

} // verus!
