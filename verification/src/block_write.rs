//! The block writer: a streaming byte sink on top of a backend that uploads
//! identified blocks and then commits an ordered list of their identifiers.
//!
//! The writer here is the deciding half. It owns the cache, the pool and the
//! committed list, and each call says what the driver has to do next: start
//! an upload, wait for the head of the pool, or make the closing backend
//! call. The driver reports upload results back through `settle`.

use crate::error::Error;
use crate::pool::{copy_bytes, Block, BlockView, TaskPool};
use vstd::prelude::*;

verus! {

/// The bytes of all `blocks`, joined in order.
pub open spec fn payload_bytes(blocks: Seq<BlockView>) -> Seq<u8>
    decreases blocks.len(),
{
    if blocks.len() == 0 {
        Seq::empty()
    } else {
        payload_bytes(blocks.drop_last()) + blocks.last().payload
    }
}

/// The identifiers of `blocks`, in order.
pub open spec fn block_ids(blocks: Seq<BlockView>) -> Seq<u128> {
    blocks.map_values(|b: BlockView| b.id)
}

/// The bytes held by a cache: none when it is empty.
pub open spec fn cache_bytes(cache: Option<Seq<u8>>) -> Seq<u8> {
    match cache {
        Some(bytes) => bytes,
        None => Seq::empty(),
    }
}

/// The mathematical value of a [`BlockWriter`].
pub ghost struct WriterView {
    /// The blocks whose upload succeeded, in write order.
    pub committed: Seq<BlockView>,
    /// The blocks whose upload is under way, in write order.
    pub pool: Seq<BlockView>,
    /// The one chunk that was accepted and not yet turned into a block.
    pub cache: Option<Seq<u8>>,
    /// The concurrency limit.
    pub limit: nat,
}

impl WriterView {
    /// A session before its first write.
    pub open spec fn init(limit: nat) -> WriterView {
        WriterView { committed: Seq::empty(), pool: Seq::empty(), cache: None, limit }
    }

    /// The limit is at least one and the pool never holds more than it.
    pub open spec fn wf(self) -> bool {
        1 <= self.limit && self.pool.len() <= self.limit
    }

    pub open spec fn has_remaining(self) -> bool {
        self.pool.len() < self.limit
    }

    /// No block was ever made: everything accepted so far is in the cache.
    pub open spec fn single_shot(self) -> bool {
        self.pool.len() == 0 && self.committed.len() == 0
    }

    /// Every block made so far, committed ones first.
    pub open spec fn blocks(self) -> Seq<BlockView> {
        self.committed + self.pool
    }

    /// Every byte accepted so far, in the order in which it was written.
    pub open spec fn written(self) -> Seq<u8> {
        payload_bytes(self.blocks()) + cache_bytes(self.cache)
    }

    /// The cache becomes a block with identifier `id` at the back of the pool.
    pub open spec fn flush(self, id: u128) -> WriterView {
        match self.cache {
            Some(bytes) => WriterView {
                pool: self.pool.push(BlockView { id, payload: bytes }),
                cache: None,
                ..self
            },
            None => self,
        }
    }

    /// The state after `write(bytes)`, where `id` names the block that the
    /// cache becomes if it has to make room.
    pub open spec fn write(self, bytes: Seq<u8>, id: u128) -> WriterView {
        if self.has_remaining() {
            WriterView { cache: Some(bytes), ..self.flush(id) }
        } else {
            self
        }
    }

    /// The state after the upload at the head of the pool was reported.
    pub open spec fn settle(self, ok: bool) -> WriterView {
        if ok && self.pool.len() > 0 {
            WriterView {
                committed: self.committed.push(self.pool[0]),
                pool: self.pool.drop_first(),
                ..self
            }
        } else {
            self
        }
    }

    /// The state after one step of `close`.
    pub open spec fn close(self, id: u128) -> WriterView {
        if !self.single_shot() && self.has_remaining() {
            self.flush(id)
        } else {
            self
        }
    }
}

/// What `write` decided.
pub enum WriteStep {
    /// The bytes were taken; `size` of them. Where the cache had to make
    /// room, `upload` is the block that entered the pool and whose upload
    /// the driver starts now.
    Accepted { size: usize, upload: Option<Block> },
    /// The pool is full and nothing changed. The driver waits for the head
    /// of the pool, reports it, and writes `bytes` again.
    Blocked { bytes: Vec<u8> },
}

/// What `settle` did with the head of the pool.
pub enum Settled {
    /// The upload succeeded and its identifier joined the committed list.
    Committed(u128),
    /// The upload failed. The block is back at the head of the pool,
    /// unchanged, and the driver starts its upload again. `error` is the
    /// failure as it was reported, to be passed on to the caller.
    Requeued { block: Block, error: Error },
}

/// What `close` decided.
pub enum CloseStep {
    /// No block was ever made: the driver writes `payload` in one call.
    WriteOnce { payload: Vec<u8> },
    /// Uploads are under way: the driver waits for the head of the pool,
    /// reports it, and closes again. `upload` is the block that the cache
    /// became in this step, if it did.
    Await { upload: Option<Block> },
    /// Every upload has succeeded: the driver commits `block_ids`.
    Complete { block_ids: Vec<u128> },
}

/// A random block identifier.
///
/// Calls `uuid::Uuid::new_v4` and takes the value as a `u128`. Nothing is
/// claimed but what that function fixes in every identifier it makes: the
/// version field is 4 and the variant field is binary 10.
#[verifier::external_body]
fn fresh_block_id() -> (id: u128)
    ensures
        id & 0xF000_C000_0000_0000_0000u128 == 0x4000_8000_0000_0000_0000u128,
{
    uuid::Uuid::new_v4().as_u128()
}

/// The writer's state: the committed identifiers, the cache and the pool.
pub struct BlockWriter {
    block_ids: Vec<u128>,
    cache: Option<Vec<u8>>,
    pool: TaskPool,
    uploaded: Ghost<Seq<Seq<u8>>>,
}

impl View for BlockWriter {
    type V = WriterView;

    closed spec fn view(&self) -> WriterView {
        WriterView {
            committed: Seq::new(
                self.block_ids@.len(),
                |i: int| BlockView { id: self.block_ids@[i], payload: self.uploaded@[i] },
            ),
            pool: self.pool@,
            cache: match self.cache {
                Some(bytes) => Some(bytes@),
                None => None,
            },
            limit: self.pool.capacity(),
        }
    }
}

impl BlockWriter {
    /// The invariant of a writer.
    pub closed spec fn wf(&self) -> bool {
        self.uploaded@.len() == self.block_ids@.len() && self@.wf()
    }

    /// The pool of a writer never holds more blocks than its limit, so no
    /// more uploads than that are under way at any time.
    pub proof fn lemma_within_limit(&self)
        requires
            self.wf(),
        ensures
            self@.wf(),
            self@.pool.len() <= self@.limit,
    {
    }

    /// A writer for a new session that runs at most `concurrent` uploads at
    /// once, and at least one.
    pub fn new(concurrent: usize) -> (w: BlockWriter)
        ensures
            w.wf(),
            w@ == WriterView::init(if concurrent < 1 { 1 } else { concurrent as nat }),
    {
        let limit: usize = if concurrent < 1 { 1 } else { concurrent };
        let w = BlockWriter {
            block_ids: Vec::new(),
            cache: None,
            pool: TaskPool::new(limit),
            uploaded: Ghost(Seq::empty()),
        };
        assert(w@.committed =~= Seq::empty());
        w
    }

    /// Stores `bytes` in the empty cache and returns their number.
    fn fill_cache(&mut self, bytes: Vec<u8>) -> (size: usize)
        requires
            old(self).cache is None,
        ensures
            size == bytes@.len(),
            final(self).cache == Some(bytes),
            final(self).block_ids == old(self).block_ids,
            final(self).pool == old(self).pool,
            final(self).uploaded == old(self).uploaded,
    {
        let size = bytes.len();
        self.cache = Some(bytes);
        size
    }

    /// Turns the cache, if it holds a chunk, into a block named `id` at the
    /// back of the pool, and returns a copy of that block.
    fn flush_cache(&mut self, id: u128) -> (upload: Option<Block>)
        requires
            old(self).wf(),
            old(self)@.has_remaining(),
        ensures
            final(self).wf(),
            final(self)@ == old(self)@.flush(id),
            final(self).cache is None,
            match upload {
                Some(b) => old(self)@.cache is Some && b@ == (BlockView {
                    id,
                    payload: old(self)@.cache->0,
                }),
                None => old(self)@.cache is None,
            },
    {
        match self.cache.take() {
            Some(bytes) => {
                let block = Block::new(id, bytes);
                let copy = block.duplicate();
                self.pool.push_back(block);
                assert(self@.committed =~= old(self)@.committed);
                Some(copy)
            },
            None => {
                assert(self@.committed =~= old(self)@.committed);
                None
            },
        }
    }

    /// Whether the next `write` will turn the cache into a block.
    pub fn write_needs_id(&self) -> (r: bool)
        ensures
            r == (self@.has_remaining() && self@.cache is Some),
    {
        self.pool.has_remaining() && self.cache.is_some()
    }

    /// Whether the next `close` will turn the cache into a block.
    pub fn close_needs_id(&self) -> (r: bool)
        ensures
            r == (!self@.single_shot() && self@.has_remaining() && self@.cache is Some),
    {
        !(self.pool.is_empty() && self.block_ids.len() == 0) && self.pool.has_remaining()
            && self.cache.is_some()
    }

    /// One `write`, with `id` as the identifier of the block that the cache
    /// becomes if it has to make room; `id` is not looked at otherwise.
    ///
    /// With room in the pool the bytes are accepted: they become the cache,
    /// and what was cached before enters the pool as a new block. With a
    /// full pool nothing changes and the bytes come back.
    pub fn write_with_id(&mut self, bytes: Vec<u8>, id: u128) -> (step: WriteStep)
        requires
            old(self).wf(),
        ensures
            final(self).wf(),
            final(self)@ == old(self)@.write(bytes@, id),
            match step {
                WriteStep::Accepted { size, upload } => {
                    &&& old(self)@.has_remaining()
                    &&& size == bytes@.len()
                    &&& match upload {
                        Some(b) => old(self)@.cache is Some && b@ == (BlockView {
                            id,
                            payload: old(self)@.cache->0,
                        }),
                        None => old(self)@.cache is None,
                    }
                },
                WriteStep::Blocked { bytes: back } => {
                    &&& !old(self)@.has_remaining()
                    &&& back@ == bytes@
                },
            },
    {
        if self.pool.has_remaining() {
            let upload = self.flush_cache(id);
            let ghost mid = self@;
            let size = self.fill_cache(bytes);
            assert(self@.committed =~= mid.committed);
            WriteStep::Accepted { size, upload }
        } else {
            WriteStep::Blocked { bytes }
        }
    }

    /// One `write`. A block made in this step gets a random identifier.
    pub fn write(&mut self, bytes: Vec<u8>) -> (step: WriteStep)
        requires
            old(self).wf(),
        ensures
            final(self).wf(),
            match step {
                WriteStep::Accepted { size, upload } => {
                    &&& old(self)@.has_remaining()
                    &&& size == bytes@.len()
                    &&& match upload {
                        Some(b) => {
                            &&& old(self)@.cache is Some
                            &&& b@.payload == old(self)@.cache->0
                            &&& final(self)@ == old(self)@.write(bytes@, b@.id)
                        },
                        None => {
                            &&& old(self)@.cache is None
                            &&& final(self)@ == (WriterView {
                                cache: Some(bytes@),
                                ..old(self)@
                            })
                        },
                    }
                },
                WriteStep::Blocked { bytes: back } => {
                    &&& !old(self)@.has_remaining()
                    &&& back@ == bytes@
                    &&& final(self)@ == old(self)@
                },
            },
    {
        let id: u128 = if self.write_needs_id() {
            fresh_block_id()
        } else {
            0
        };
        self.write_with_id(bytes, id)
    }

    /// Takes in the result of the upload at the head of the pool.
    ///
    /// On success the head leaves the pool and its identifier is appended to
    /// the committed list. On failure nothing changes: the same block, with
    /// the same identifier and bytes, stays at the head, and a copy of it is
    /// handed out, together with the error as it came in, so that its upload
    /// can be started again. With an empty pool there is nothing to settle.
    pub fn settle(&mut self, outcome: Result<(), Error>) -> (r: Option<Settled>)
        requires
            old(self).wf(),
        ensures
            final(self).wf(),
            final(self)@ == old(self)@.settle(outcome is Ok),
            outcome is Err ==> final(self)@ == old(self)@,
            match r {
                None => old(self)@.pool.len() == 0,
                Some(Settled::Committed(id)) => {
                    &&& outcome is Ok
                    &&& old(self)@.pool.len() > 0
                    &&& id == old(self)@.pool[0].id
                },
                Some(Settled::Requeued { block, error }) => {
                    &&& outcome == Err::<(), Error>(error)
                    &&& old(self)@.pool.len() > 0
                    &&& block@ == old(self)@.pool[0]
                },
            },
    {
        match self.pool.next() {
            None => {
                assert(self@.committed =~= old(self)@.committed);
                None
            },
            Some(block) => {
                match outcome {
                    Ok(_) => {
                        let id = block.id;
                        self.block_ids.push(id);
                        proof {
                            self.uploaded@ = self.uploaded@.push(block.payload@);
                        }
                        assert(self@.committed =~= old(self)@.committed.push(old(self)@.pool[0]));
                        Some(Settled::Committed(id))
                    },
                    Err(error) => {
                        let copy = block.duplicate();
                        self.pool.push_front(block);
                        assert(self@.committed =~= old(self)@.committed);
                        assert(self@.pool =~= old(self)@.pool);
                        Some(Settled::Requeued { block: copy, error })
                    },
                }
            },
        }
    }

    /// One step of `close`, with `id` as the identifier of the block that
    /// the cache becomes if it is flushed in this step.
    ///
    /// Where no block was ever made, the state stays and the cached bytes
    /// (none, if nothing was written) are to be written in one call.
    /// Otherwise the cache enters the pool as soon as there is room; while
    /// the pool holds a block its head is to be awaited; once it is empty
    /// the committed identifiers are to be committed, in write order.
    pub fn close_with_id(&mut self, id: u128) -> (step: CloseStep)
        requires
            old(self).wf(),
        ensures
            final(self).wf(),
            final(self)@ == old(self)@.close(id),
            match step {
                CloseStep::WriteOnce { payload } => {
                    &&& old(self)@.single_shot()
                    &&& payload@ == cache_bytes(old(self)@.cache)
                },
                CloseStep::Await { upload } => {
                    &&& !old(self)@.single_shot()
                    &&& final(self)@.pool.len() > 0
                    &&& match upload {
                        Some(b) => {
                            &&& old(self)@.has_remaining()
                            &&& old(self)@.cache is Some
                            &&& b@ == (BlockView { id, payload: old(self)@.cache->0 })
                        },
                        None => !old(self)@.has_remaining() || old(self)@.cache is None,
                    }
                },
                CloseStep::Complete { block_ids: ids } => {
                    &&& !old(self)@.single_shot()
                    &&& final(self)@ == old(self)@
                    &&& final(self)@.pool.len() == 0
                    &&& final(self)@.cache is None
                    &&& ids@ == block_ids(final(self)@.committed)
                    &&& payload_bytes(final(self)@.committed) == final(self)@.written()
                },
            },
    {
        if self.pool.is_empty() && self.block_ids.len() == 0 {
            let payload = match &self.cache {
                Some(bytes) => copy_bytes(bytes),
                None => Vec::new(),
            };
            return CloseStep::WriteOnce { payload };
        }
        let upload = if self.pool.has_remaining() {
            self.flush_cache(id)
        } else {
            None
        };
        if self.pool.is_empty() {
            let ids = self.abort();
            proof {
                assert(self@.blocks() =~= self@.committed);
            }
            CloseStep::Complete { block_ids: ids }
        } else {
            CloseStep::Await { upload }
        }
    }

    /// One step of `close`. A block made in this step gets a random
    /// identifier.
    pub fn close(&mut self) -> (step: CloseStep)
        requires
            old(self).wf(),
        ensures
            final(self).wf(),
            match step {
                CloseStep::WriteOnce { payload } => {
                    &&& old(self)@.single_shot()
                    &&& payload@ == cache_bytes(old(self)@.cache)
                    &&& final(self)@ == old(self)@
                },
                CloseStep::Await { upload } => {
                    &&& !old(self)@.single_shot()
                    &&& final(self)@.pool.len() > 0
                    &&& match upload {
                        Some(b) => {
                            &&& old(self)@.has_remaining()
                            &&& old(self)@.cache is Some
                            &&& b@.payload == old(self)@.cache->0
                            &&& final(self)@ == old(self)@.flush(b@.id)
                        },
                        None => {
                            &&& !old(self)@.has_remaining() || old(self)@.cache is None
                            &&& final(self)@ == old(self)@
                        },
                    }
                },
                CloseStep::Complete { block_ids: ids } => {
                    &&& !old(self)@.single_shot()
                    &&& final(self)@ == old(self)@
                    &&& final(self)@.pool.len() == 0
                    &&& final(self)@.cache is None
                    &&& ids@ == block_ids(final(self)@.committed)
                    &&& payload_bytes(final(self)@.committed) == final(self)@.written()
                },
            },
    {
        let id: u128 = if self.close_needs_id() {
            fresh_block_id()
        } else {
            0
        };
        self.close_with_id(id)
    }

    /// Forgets the cached chunk, once the single call that wrote it has
    /// succeeded.
    pub fn finish_once(&mut self)
        requires
            old(self).wf(),
        ensures
            final(self).wf(),
            final(self)@ == (WriterView { cache: None, ..old(self)@ }),
    {
        self.cache = None;
        assert(self@.committed =~= old(self)@.committed);
    }

    /// The identifiers to hand to the backend's abort call: exactly those
    /// committed so far, in write order. The writer itself stays as it is.
    pub fn abort(&self) -> (ids: Vec<u128>)
        ensures
            ids@ == block_ids(self@.committed),
    {
        let mut ids: Vec<u128> = Vec::new();
        let mut i: usize = 0;
        while i < self.block_ids.len()
            invariant
                i <= self.block_ids@.len(),
                ids@ == self.block_ids@.take(i as int),
            decreases self.block_ids@.len() - i,
        {
            ids.push(self.block_ids[i]);
            i += 1;
            assert(ids@ =~= self.block_ids@.take(i as int));
        }
        assert(ids@ =~= block_ids(self@.committed));
        ids
    }
}

} // verus!
