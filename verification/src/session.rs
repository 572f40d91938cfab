//! Whole write sessions: what holds of the writer's state after any run of
//! writes, upload reports and closing steps.

use crate::block_write::{cache_bytes, payload_bytes, WriterView};
use crate::pool::BlockView;
use vstd::prelude::*;

verus! {

/// One call on a writer, with everything that the call depends on.
pub ghost enum Event {
    /// `write(bytes)`, with the identifier drawn for a block made by it.
    Write { bytes: Seq<u8>, id: u128 },
    /// The upload at the head of the pool was reported, as a success or not.
    Settle { ok: bool },
    /// One step of `close`, with the identifier drawn for a block made by it.
    Close { id: u128 },
}

/// The state after `event`.
pub open spec fn apply(v: WriterView, event: Event) -> WriterView {
    match event {
        Event::Write { bytes, id } => v.write(bytes, id),
        Event::Settle { ok } => v.settle(ok),
        Event::Close { id } => v.close(id),
    }
}

/// The bytes that `event` hands over: those of a write that is accepted.
pub open spec fn accepted(v: WriterView, event: Event) -> Seq<u8> {
    match event {
        Event::Write { bytes, id } => if v.has_remaining() {
            bytes
        } else {
            Seq::empty()
        },
        _ => Seq::empty(),
    }
}

/// The state after all of `events`, in order.
pub open spec fn run(v: WriterView, events: Seq<Event>) -> WriterView
    decreases events.len(),
{
    if events.len() == 0 {
        v
    } else {
        apply(run(v, events.drop_last()), events.last())
    }
}

/// The bytes handed over by all of `events`, in order.
pub open spec fn intake(v: WriterView, events: Seq<Event>) -> Seq<u8>
    decreases events.len(),
{
    if events.len() == 0 {
        Seq::empty()
    } else {
        intake(v, events.drop_last()) + accepted(run(v, events.drop_last()), events.last())
    }
}

/// Appending a block appends its bytes.
pub proof fn lemma_payload_bytes_push(blocks: Seq<BlockView>, b: BlockView)
    ensures
        payload_bytes(blocks.push(b)) == payload_bytes(blocks) + b.payload,
{
    assert(blocks.push(b).drop_last() =~= blocks);
}

/// Turning the cache into a block moves no byte and keeps every earlier
/// block in place.
pub proof fn lemma_flush(v: WriterView, id: u128)
    requires
        v.wf(),
        v.has_remaining(),
    ensures
        v.flush(id).wf(),
        v.flush(id).limit == v.limit,
        v.flush(id).cache is None,
        v.flush(id).written() == v.written(),
        v.blocks().is_prefix_of(v.flush(id).blocks()),
{
    match v.cache {
        Some(bytes) => {
            let b = BlockView { id, payload: bytes };
            assert(v.flush(id).blocks() =~= v.blocks().push(b));
            lemma_payload_bytes_push(v.blocks(), b);
            assert(v.flush(id).written() =~= v.written());
        },
        None => {},
    }
}

/// One call keeps the pool within its limit, adds exactly the bytes it
/// accepted behind those written before, and leaves every block made so far
/// where it was in the order of blocks.
pub proof fn lemma_step(v: WriterView, event: Event)
    requires
        v.wf(),
    ensures
        apply(v, event).wf(),
        apply(v, event).limit == v.limit,
        apply(v, event).written() == v.written() + accepted(v, event),
        v.blocks().is_prefix_of(apply(v, event).blocks()),
{
    let next = apply(v, event);
    match event {
        Event::Write { bytes, id } => {
            if v.has_remaining() {
                lemma_flush(v, id);
                assert(next.blocks() == v.flush(id).blocks());
                assert(next.written() =~= v.written() + bytes);
            } else {
                assert(next.written() =~= v.written() + accepted(v, event));
            }
        },
        Event::Settle { ok } => {
            assert(next.blocks() =~= v.blocks());
            assert(next.written() =~= v.written() + accepted(v, event));
        },
        Event::Close { id } => {
            if !v.single_shot() && v.has_remaining() {
                lemma_flush(v, id);
            }
            assert(next.written() =~= v.written() + accepted(v, event));
        },
    }
}

/// Over any run of calls the pool stays within its limit, the bytes held
/// are those written before followed by those accepted during the run, and
/// the blocks that existed after any part of the run are still the leading
/// blocks, in the same order, at its end.
pub proof fn lemma_run(v: WriterView, events: Seq<Event>)
    requires
        v.wf(),
    ensures
        run(v, events).wf(),
        run(v, events).limit == v.limit,
        run(v, events).pool.len() <= v.limit,
        run(v, events).written() == v.written() + intake(v, events),
        forall|k: int|
            0 <= k <= events.len() ==> (#[trigger] run(v, events.take(k))).blocks().is_prefix_of(
                run(v, events).blocks(),
            ),
    decreases events.len(),
{
    if events.len() == 0 {
        assert(run(v, events).written() =~= v.written() + intake(v, events));
        assert forall|k: int| 0 <= k <= events.len() implies (#[trigger] run(
            v,
            events.take(k),
        )).blocks().is_prefix_of(run(v, events).blocks()) by {
            assert(events.take(k) =~= events);
        }
    } else {
        let front = events.drop_last();
        let mid = run(v, front);
        lemma_run(v, front);
        lemma_step(mid, events.last());
        assert(run(v, events).written() =~= v.written() + intake(v, events));
        assert forall|k: int| 0 <= k <= events.len() implies (#[trigger] run(
            v,
            events.take(k),
        )).blocks().is_prefix_of(run(v, events).blocks()) by {
            if k == events.len() {
                assert(events.take(k) =~= events);
            } else {
                assert(events.take(k) =~= front.take(k));
                assert(run(v, front.take(k)).blocks().is_prefix_of(mid.blocks()));
            }
        }
    }
}

/// Order is preserved: start a session with any limit, make any calls in
/// any order, with uploads failing and being retried as they may. Once the
/// pool and the cache are empty, the committed blocks, joined in the order
/// of the committed list, are byte for byte what the accepted writes handed
/// over, in the order in which they were written.
pub proof fn lemma_committed_bytes_are_written_bytes(limit: nat, events: Seq<Event>)
    requires
        1 <= limit,
    ensures
        ({
            let end = run(WriterView::init(limit), events);
            end.pool.len() == 0 && end.cache is None ==> payload_bytes(end.committed) == intake(
                WriterView::init(limit),
                events,
            )
        }),
{
    let start = WriterView::init(limit);
    let end = run(start, events);
    lemma_run(start, events);
    assert(start.blocks() =~= Seq::<BlockView>::empty());
    assert(start.written() =~= Seq::<u8>::empty());
    if end.pool.len() == 0 && end.cache is None {
        assert(end.blocks() =~= end.committed);
        assert(end.written() =~= payload_bytes(end.committed));
        assert(Seq::<u8>::empty() + intake(start, events) =~= intake(start, events));
    }
}

/// The chunks that `v` holds, oldest first: the bytes of each block, then
/// the cached chunk.
pub open spec fn chunks(v: WriterView) -> Seq<Seq<u8>> {
    v.blocks().map_values(|b: BlockView| b.payload) + match v.cache {
        Some(bytes) => seq![bytes],
        None => Seq::empty(),
    }
}

/// The chunk that `event` hands over, if it is a write that is accepted.
pub open spec fn accepted_chunk(v: WriterView, event: Event) -> Seq<Seq<u8>> {
    match event {
        Event::Write { bytes, id } => if v.has_remaining() {
            seq![bytes]
        } else {
            Seq::empty()
        },
        _ => Seq::empty(),
    }
}

/// The chunks handed over by all of `events`, in order.
pub open spec fn chunk_intake(v: WriterView, events: Seq<Event>) -> Seq<Seq<u8>>
    decreases events.len(),
{
    if events.len() == 0 {
        Seq::empty()
    } else {
        chunk_intake(v, events.drop_last()) + accepted_chunk(
            run(v, events.drop_last()),
            events.last(),
        )
    }
}

/// One call keeps every chunk held, whole and in place, and puts the chunk
/// it accepted behind them: no chunk is split, merged, repeated or dropped.
pub proof fn lemma_step_chunks(v: WriterView, event: Event)
    requires
        v.wf(),
    ensures
        chunks(apply(v, event)) == chunks(v) + accepted_chunk(v, event),
{
    let next = apply(v, event);
    match event {
        Event::Write { bytes, id } => {
            if v.has_remaining() {
                match v.cache {
                    Some(held) => {
                        let b = BlockView { id, payload: held };
                        assert(next.blocks() =~= v.blocks().push(b));
                    },
                    None => {
                        assert(next.blocks() =~= v.blocks());
                    },
                }
            }
        },
        Event::Settle { ok } => {
            assert(next.blocks() =~= v.blocks());
        },
        Event::Close { id } => {
            if !v.single_shot() && v.has_remaining() {
                match v.cache {
                    Some(held) => {
                        let b = BlockView { id, payload: held };
                        assert(next.blocks() =~= v.blocks().push(b));
                    },
                    None => {},
                }
            }
        },
    }
    assert(chunks(next) =~= chunks(v) + accepted_chunk(v, event));
}

/// Over any run of calls the chunks held are those held before, followed by
/// those accepted during the run, each exactly once and in write order.
pub proof fn lemma_run_chunks(v: WriterView, events: Seq<Event>)
    requires
        v.wf(),
    ensures
        chunks(run(v, events)) == chunks(v) + chunk_intake(v, events),
    decreases events.len(),
{
    if events.len() == 0 {
        assert(chunks(run(v, events)) =~= chunks(v) + chunk_intake(v, events));
    } else {
        let front = events.drop_last();
        lemma_run_chunks(v, front);
        lemma_run(v, front);
        lemma_step_chunks(run(v, front), events.last());
        assert(chunks(run(v, events)) =~= chunks(v) + chunk_intake(v, events));
    }
}

/// Block order is write order: once the pool and the cache of a session are
/// empty, there is one committed block for each accepted write, the blocks
/// stand in the committed list in the order of the writes, and each holds
/// the bytes of its write.
pub proof fn lemma_committed_blocks_are_written_chunks(limit: nat, events: Seq<Event>)
    requires
        1 <= limit,
    ensures
        ({
            let end = run(WriterView::init(limit), events);
            end.pool.len() == 0 && end.cache is None ==> end.committed.map_values(
                |b: BlockView| b.payload,
            ) == chunk_intake(WriterView::init(limit), events)
        }),
{
    let start = WriterView::init(limit);
    let end = run(start, events);
    lemma_run_chunks(start, events);
    assert(start.blocks() =~= Seq::<BlockView>::empty());
    assert(chunks(start) =~= Seq::<Seq<u8>>::empty());
    if end.pool.len() == 0 && end.cache is None {
        assert(end.blocks() =~= end.committed);
        assert(chunks(end) =~= end.committed.map_values(|b: BlockView| b.payload));
        assert(chunks(start) + chunk_intake(start, events) =~= chunk_intake(start, events));
    }
}

/// A failed upload changes nothing: the block stays at the head of the pool
/// with its identifier and its bytes, no block is added and none is lost.
pub proof fn lemma_failed_upload_keeps_state(v: WriterView)
    ensures
        v.settle(false) == v,
        v.settle(false).blocks() == v.blocks(),
        v.settle(false).written() == v.written(),
{
}

/// A successful upload moves the head of the pool to the end of the
/// committed list and nothing else: the order of blocks stays.
pub proof fn lemma_settled_upload_keeps_order(v: WriterView)
    requires
        v.pool.len() > 0,
    ensures
        v.settle(true).committed == v.committed.push(v.pool[0]),
        v.settle(true).blocks() == v.blocks(),
        v.settle(true).written() == v.written(),
{
    assert(v.settle(true).blocks() =~= v.blocks());
}

/// A session with no write, or with a single one, makes no block: closing
/// it asks for one single call with the bytes written (none, if nothing
/// was), and leaves the pool empty.
pub proof fn lemma_single_write_stays_single_shot(
    limit: nat,
    bytes: Seq<u8>,
    id: u128,
    close_id: u128,
)
    requires
        1 <= limit,
    ensures
        ({
            let fresh = WriterView::init(limit);
            let once = fresh.write(bytes, id);
            &&& fresh.single_shot()
            &&& cache_bytes(fresh.cache) == Seq::<u8>::empty()
            &&& fresh.close(close_id) == fresh
            &&& once.single_shot()
            &&& cache_bytes(once.cache) == bytes
            &&& once.close(close_id) == once
            &&& once.blocks() == Seq::<BlockView>::empty()
        }),
{
    let fresh = WriterView::init(limit);
    let once = fresh.write(bytes, id);
    assert(once.blocks() =~= Seq::<BlockView>::empty());
}

} // verus!
