//! Blocks and the bounded, order-preserving pool that holds the ones whose
//! upload has been started but not yet settled.

use std::collections::VecDeque;
use vstd::prelude::*;

verus! {

/// An identified chunk of bytes that is uploaded on its own.
pub struct Block {
    pub id: u128,
    pub payload: Vec<u8>,
}

/// The mathematical value of a [`Block`].
pub ghost struct BlockView {
    pub id: u128,
    pub payload: Seq<u8>,
}

impl View for Block {
    type V = BlockView;

    open spec fn view(&self) -> BlockView {
        BlockView { id: self.id, payload: self.payload@ }
    }
}

/// A copy of `bytes`, element for element.
pub fn copy_bytes(bytes: &Vec<u8>) -> (out: Vec<u8>)
    ensures
        out@ == bytes@,
{
    let mut out: Vec<u8> = Vec::new();
    let mut i: usize = 0;
    while i < bytes.len()
        invariant
            i <= bytes@.len(),
            out@ == bytes@.take(i as int),
        decreases bytes@.len() - i,
    {
        out.push(bytes[i]);
        i += 1;
        assert(out@ =~= bytes@.take(i as int));
    }
    assert(bytes@.take(i as int) =~= bytes@);
    out
}

impl Block {
    pub fn new(id: u128, payload: Vec<u8>) -> (b: Block)
        ensures
            b@ == (BlockView { id, payload: payload@ }),
    {
        Block { id, payload }
    }

    /// The number of payload bytes.
    pub fn size(&self) -> (n: u64)
        ensures
            n == self@.payload.len(),
    {
        self.payload.len() as u64
    }

    /// A second block with the same identifier and the same bytes.
    pub fn duplicate(&self) -> (b: Block)
        ensures
            b@ == self@,
    {
        Block { id: self.id, payload: copy_bytes(&self.payload) }
    }
}

/// The smaller of two naturals.
pub open spec fn min_nat(a: nat, b: nat) -> nat {
    if a <= b {
        a
    } else {
        b
    }
}

/// Holds the blocks whose upload is under way, in the order in which their
/// results are due. At most `limit` of them run at once; the rest wait their
/// turn behind them.
pub struct TaskPool {
    limit: usize,
    queue: VecDeque<Block>,
}

impl View for TaskPool {
    type V = Seq<BlockView>;

    closed spec fn view(&self) -> Seq<BlockView> {
        self.queue@.map_values(|b: Block| b@)
    }
}

impl TaskPool {
    /// The configured concurrency limit.
    pub closed spec fn capacity(&self) -> nat {
        self.limit as nat
    }

    /// How many of the queued blocks are being uploaded right now: the
    /// leading ones, up to the limit.
    pub open spec fn in_flight(&self) -> nat {
        min_nat(self@.len(), self.capacity())
    }

    pub fn new(limit: usize) -> (p: TaskPool)
        ensures
            p@ == Seq::<BlockView>::empty(),
            p.capacity() == limit,
    {
        let p = TaskPool { limit, queue: VecDeque::new() };
        assert(p@ =~= Seq::<BlockView>::empty());
        p
    }

    pub fn limit(&self) -> (n: usize)
        ensures
            n == self.capacity(),
    {
        self.limit
    }

    pub fn len(&self) -> (n: usize)
        ensures
            n == self@.len(),
    {
        self.queue.len()
    }

    pub fn is_empty(&self) -> (e: bool)
        ensures
            e == (self@.len() == 0),
    {
        self.queue.len() == 0
    }

    /// Whether one more block could start at once.
    pub fn has_remaining(&self) -> (r: bool)
        ensures
            r == (self@.len() < self.capacity()),
    {
        self.queue.len() < self.limit
    }

    /// Enqueues `block` behind everything already held. Nothing is dropped
    /// when the pool is full: the block waits.
    pub fn push_back(&mut self, block: Block)
        ensures
            final(self)@ == old(self)@.push(block@),
            final(self).capacity() == old(self).capacity(),
            final(self).in_flight() <= final(self).capacity(),
    {
        self.queue.push_back(block);
        assert(self@ =~= old(self)@.push(block@));
    }

    /// Puts `block` at the head, so that its result is due before that of
    /// every block already held.
    pub fn push_front(&mut self, block: Block)
        ensures
            final(self)@ == seq![block@] + old(self)@,
            final(self).capacity() == old(self).capacity(),
            final(self).in_flight() <= final(self).capacity(),
    {
        self.queue.push_front(block);
        assert(self@ =~= seq![block@] + old(self)@);
    }

    /// Takes out the block at the head: the one enqueued earliest among
    /// those held, whatever the order in which uploads finish.
    pub fn next(&mut self) -> (h: Option<Block>)
        ensures
            final(self).capacity() == old(self).capacity(),
            match h {
                Some(b) => old(self)@.len() > 0 && b@ == old(self)@[0] && final(self)@ == old(
                    self,
                )@.drop_first(),
                None => old(self)@.len() == 0 && final(self)@ == old(self)@,
            },
    {
        let h = self.queue.pop_front();
        proof {
            if old(self)@.len() > 0 {
                assert(self@ =~= old(self)@.drop_first());
            }
        }
        h
    }
}

} // verus!
