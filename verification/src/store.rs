//! The bounded, least-recently-used memory of validation results.

use vstd::prelude::*;

use crate::result::{BlockReport, BlockStatus, BlockValidationResult};

verus! {

/// How many results a store remembers.
pub const BLOCK_VALIDATION_RESULT_CACHE_SIZE: usize = 512;

/// Position of the first report on the block `id`, or the length of `s` when
/// there is none.
pub open spec fn position(s: Seq<BlockReport>, id: Seq<char>) -> nat
    decreases s.len(),
{
    if s.len() == 0 || s[0].block_id == id {
        0
    } else {
        1 + position(s.drop_first(), id)
    }
}

/// Whether `s` holds a report on the block `id`.
pub open spec fn knows(s: Seq<BlockReport>, id: Seq<char>) -> bool {
    position(s, id) < s.len()
}

/// The first report on the block `id`.
pub open spec fn report_on(s: Seq<BlockReport>, id: Seq<char>) -> Option<BlockReport> {
    if knows(s, id) {
        Some(s[position(s, id) as int])
    } else {
        None
    }
}

/// What the reports say of the block `id`.
pub open spec fn status_in(s: Seq<BlockReport>, id: Seq<char>) -> BlockStatus {
    match report_on(s, id) {
        Some(report) => report.status,
        None => BlockStatus::Unknown,
    }
}

/// The reports once the one on the block `id`, if there is one, has been used.
pub open spec fn used(s: Seq<BlockReport>, id: Seq<char>) -> Seq<BlockReport> {
    match report_on(s, id) {
        Some(report) => touched(s, id, report),
        None => s,
    }
}

/// The reports once the block `id`, if there is a report on it, has failed.
pub open spec fn failed(s: Seq<BlockReport>, id: Seq<char>) -> Seq<BlockReport> {
    match report_on(s, id) {
        Some(report) => touched(s, id, BlockReport { status: BlockStatus::Invalid, ..report }),
        None => s,
    }
}

/// The reports once the first one on the block `id` has become the most
/// recently used, and has been replaced by `report`.
pub open spec fn touched(s: Seq<BlockReport>, id: Seq<char>, report: BlockReport) -> Seq<
    BlockReport,
> {
    seq![report] + s.remove(position(s, id) as int)
}

/// The reports once `report` has come in: it is the most recently used, and
/// where the bound is exceeded the least recently used one is gone.
pub open spec fn remembered(s: Seq<BlockReport>, report: BlockReport) -> Seq<BlockReport> {
    let all = seq![report] + s;
    if all.len() <= BLOCK_VALIDATION_RESULT_CACHE_SIZE {
        all
    } else {
        all.take(BLOCK_VALIDATION_RESULT_CACHE_SIZE as int)
    }
}

/// A `uluru::LRUCache` of results. The parameter of that type is bound by a trait
/// of `arrayvec`, which the verifier cannot take in a declaration of the type, so
/// the cache is held in a field that it does not look into.
#[verifier::external_body]
pub struct ResultCache {
    entries: uluru::LRUCache<[uluru::Entry<BlockValidationResult>; BLOCK_VALIDATION_RESULT_CACHE_SIZE]>,
}

/// The results that a cache holds, from the most to the least recently used.
pub uninterp spec fn cached(cache: ResultCache) -> Seq<BlockReport>;

impl ResultCache {
    /// `uluru::LRUCache::default`: a cache that holds nothing.
    #[verifier::external_body]
    fn empty() -> (cache: Self)
        ensures
            cached(cache) == Seq::<BlockReport>::empty(),
    {
        ResultCache { entries: Default::default() }
    }

    /// `uluru::LRUCache::insert`: the item goes to the front, whether or not an
    /// equal one is there; of a full cache the item at the back is dropped.
    #[verifier::external_body]
    fn insert(&mut self, result: BlockValidationResult)
        ensures
            cached(*final(self)) == remembered(cached(*old(self)), result@),
    {
        self.entries.insert(result)
    }

    /// `uluru::LRUCache::find` with the predicate "is for `block_id`": the first
    /// match from the front is moved to the front and lent out; without a match
    /// the cache stays as it is.
    #[verifier::external_body]
    fn find(&mut self, block_id: &String) -> (found: Option<&mut BlockValidationResult>)
        ensures
            found is Some <==> knows(cached(*old(self)), block_id@),
            match found {
                Some(result) => {
                    let before = cached(*old(self));
                    &&& (*result)@ == before[position(before, block_id@) as int]
                    &&& cached(*final(self)) == touched(before, block_id@, (*final(result))@)
                },
                None => cached(*final(self)) == cached(*old(self)),
            },
    {
        self.entries.find(|r| r.is_for(block_id))
    }
}

/// Remembers the latest validation results, by block.
pub struct BlockValidationResultStore {
    validation_result_cache: ResultCache,
}

impl View for BlockValidationResultStore {
    type V = Seq<BlockReport>;

    /// The remembered reports, from the most to the least recently used.
    closed spec fn view(&self) -> Seq<BlockReport> {
        cached(self.validation_result_cache)
    }
}

impl Default for BlockValidationResultStore {
    fn default() -> (store: Self)
        ensures
            store@ == Seq::<BlockReport>::empty(),
            store.wf(),
    {
        BlockValidationResultStore { validation_result_cache: ResultCache::empty() }
    }
}

impl BlockValidationResultStore {
    /// The store never holds more than its bound.
    pub open spec fn wf(&self) -> bool {
        self@.len() <= BLOCK_VALIDATION_RESULT_CACHE_SIZE
    }

    pub fn new() -> (store: Self)
        ensures
            store@ == Seq::<BlockReport>::empty(),
            store.wf(),
    {
        Self::default()
    }

    /// Remembers `result` as the most recently used one.
    pub fn insert(&mut self, result: BlockValidationResult)
        ensures
            final(self)@ == remembered(old(self)@, result@),
            final(self).wf(),
    {
        self.validation_result_cache.insert(result)
    }

    /// The latest result for the block, which becomes the most recently used.
    pub fn get(&mut self, block_id: &str) -> (result: Option<BlockValidationResult>)
        ensures
            match result {
                Some(r) => report_on(old(self)@, block_id@) == Some(r@),
                None => report_on(old(self)@, block_id@) is None,
            },
            final(self)@ == used(old(self)@, block_id@),
            old(self).wf() ==> final(self).wf(),
    {
        let id = block_id.to_owned();
        match self.validation_result_cache.find(&id) {
            Some(result) => Some(result.clone()),
            None => None,
        }
    }

    /// Marks the latest result for the block as invalid; it becomes the most
    /// recently used. A block without a result is left alone.
    pub fn fail_block(&mut self, block_id: &str)
        ensures
            final(self)@ == failed(old(self)@, block_id@),
            old(self).wf() ==> final(self).wf(),
    {
        let id = block_id.to_owned();
        match self.validation_result_cache.find(&id) {
            Some(result) => {
                result.status = BlockStatus::Invalid;
            },
            None => {},
        }
    }
}

/// Anything that can tell what is known of a block. Asking may reorder what the
/// store remembers, so it takes the store exclusively.
pub trait BlockStatusStore: Send + Sync {
    fn status(&mut self, block_id: &str) -> BlockStatus;
}

impl BlockStatusStore for BlockValidationResultStore {
    /// The status of the latest result for the block, which becomes the most
    /// recently used; without a result the block is unknown.
    fn status(&mut self, block_id: &str) -> (status: BlockStatus)
        ensures
            status == status_in(old(self)@, block_id@),
            final(self)@ == used(old(self)@, block_id@),
            old(self).wf() ==> final(self).wf(),
    {
        let id = block_id.to_owned();
        match self.validation_result_cache.find(&id) {
            Some(result) => result.status,
            None => BlockStatus::Unknown,
        }
    }
}

} // verus!
