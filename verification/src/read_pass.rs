//! A consumer reading a range of the source through the cursor, against a
//! peer that delivers what it is asked for: which requests go out, and
//! which bytes come back.

use crate::block_cache::{
    block_aligned, block_slice, block_start, lemma_block_start_bounds, lemma_lookup_keeps_order,
    lemma_store_evicts_oldest, CacheModel, CACHE_BLOCK_SIZE,
};
use crate::file_streamer::CursorModel;
use crate::stream_reader::{
    window_offset, window_size, BlockRequest, ResponseSender, SessionModel,
};
use vstd::prelude::*;

verus! {

/// The bytes of the source in the block that starts at `start`: a whole
/// block, or what the source has from there to its end.
pub open spec fn source_window(source: Seq<u8>, start: int) -> Seq<u8> {
    let end = if start + CACHE_BLOCK_SIZE < source.len() {
        start + CACHE_BLOCK_SIZE
    } else {
        source.len() as int
    };
    source.subrange(start, end)
}

/// What a peer that serves `source` faithfully delivers for `request`.
pub open spec fn peer_delivers(source: Seq<u8>, request: BlockRequest) -> Seq<u8> {
    source.subrange(request.offset as int, request.offset + request.size)
}

/// Whether every cached block holds the bytes that the source has there.
pub open spec fn coherent(cache: CacheModel, source: Seq<u8>) -> bool {
    forall|k: u64| #[trigger]
        cache.blocks.contains_key(k) ==> k < source.len() && cache.blocks[k] == source_window(
            source,
            k as int,
        )
}

/// The buffer that a consumer offers when it still wants `want` bytes.
pub open spec fn buffer_for(want: int) -> usize {
    if want <= usize::MAX {
        want as usize
    } else {
        usize::MAX
    }
}

/// Number of blocks that the range of `want` bytes at `offset` overlaps.
pub open spec fn blocks_overlapped(offset: int, want: int) -> int {
    if want <= 0 {
        0
    } else {
        (block_start(offset + want - 1) - block_start(offset)) / (CACHE_BLOCK_SIZE as int) + 1
    }
}

/// What reading has led to: the session as it then stands, the bytes that
/// the consumer got, and the requests that went to the peer, in order.
pub struct PassModel {
    pub session: SessionModel,
    pub bytes: Seq<u8>,
    pub dispatched: Seq<BlockRequest>,
}

/// One read at `at` by a consumer that wants `want` bytes. A hit is served
/// from the cache. A miss dispatches the request for the block, the peer's
/// completion releases the slot, and the delivered bytes are stored and
/// answer the read.
pub open spec fn read_once(
    s: SessionModel,
    source: Seq<u8>,
    at: u64,
    want: int,
    slot: ResponseSender,
) -> PassModel {
    let file_size = source.len() as u64;
    let cursor = CursorModel { file_size, position: at };
    let size = cursor.read_size(buffer_for(want));
    if size == 0 {
        PassModel { session: s, bytes: Seq::empty(), dispatched: Seq::empty() }
    } else if s.hits(at, size) {
        PassModel {
            session: s.after_begin_fetch(file_size, at, size, slot),
            bytes: s.cache.answer(at, size).unwrap(),
            dispatched: Seq::empty(),
        }
    } else {
        let request = s.request_for(file_size, at);
        let data = peer_delivers(source, request);
        PassModel {
            session: s.after_begin_fetch(file_size, at, size, slot).released(
                request.request_id,
            ).after_delivery(at, data),
            bytes: SessionModel::delivered_answer(at, size, data),
            dispatched: seq![request],
        }
    }
}

/// Reads at `at`, one after the other, until the consumer has its `want`
/// bytes or a read comes back empty.
pub open spec fn read_range(
    s: SessionModel,
    source: Seq<u8>,
    at: u64,
    want: int,
    slot: ResponseSender,
) -> PassModel
    decreases want,
{
    if want <= 0 {
        PassModel { session: s, bytes: Seq::empty(), dispatched: Seq::empty() }
    } else {
        let first = read_once(s, source, at, want, slot);
        let got = first.bytes.len() as int;
        if got == 0 || got > want {
            first
        } else {
            let rest = read_range(first.session, source, (at + got) as u64, want - got, slot);
            PassModel {
                session: rest.session,
                bytes: first.bytes + rest.bytes,
                dispatched: first.dispatched + rest.dispatched,
            }
        }
    }
}

/// End of the block that holds `at`, cut off at the end of the source.
pub open spec fn window_end(source: Seq<u8>, at: int) -> int {
    let start = block_start(at);
    if start + CACHE_BLOCK_SIZE < source.len() {
        start + CACHE_BLOCK_SIZE
    } else {
        source.len() as int
    }
}

/// Number of bytes that one read at `at` gives a consumer that wants
/// `want`: all of them, or as many as the block has left.
pub open spec fn read_gives(source: Seq<u8>, at: int, want: int) -> int {
    if want < window_end(source, at) - at {
        want
    } else {
        window_end(source, at) - at
    }
}

/// One read inside the source returns the source's bytes from the cursor
/// on, up to the end of the block. It goes to the peer exactly when the
/// block is not cached, with the request for that block, and then caches
/// the block; a cached block is served without any request.
pub proof fn lemma_read_once(
    s: SessionModel,
    source: Seq<u8>,
    at: u64,
    want: int,
    slot: ResponseSender,
)
    requires
        s.cache.wf(),
        coherent(s.cache, source),
        source.len() <= u64::MAX,
        want > 0,
        at + want <= source.len(),
        s.cache.clock < u64::MAX,
    ensures
        ({
            let r = read_once(s, source, at, want, slot);
            let start = block_start(at as int);
            let got = read_gives(source, at as int, want);
            &&& 0 < got <= want
            &&& got < want ==> at + got == start + CACHE_BLOCK_SIZE
            &&& r.bytes == source.subrange(at as int, at + got)
            &&& r.session.cache.wf()
            &&& coherent(r.session.cache, source)
            &&& r.session.cache.clock == s.cache.clock + 1
            &&& s.cache.blocks.contains_key(start as u64) ==> {
                &&& r.dispatched.len() == 0
                &&& r.session.cache.blocks == s.cache.blocks
            }
            &&& !s.cache.blocks.contains_key(start as u64) ==> {
                &&& r.dispatched == seq![
                    BlockRequest {
                        offset: start as u64,
                        size: (window_end(source, at as int) - start) as u32,
                        request_id: s.next_request_id(),
                    },
                ]
                &&& r.session.cache.blocks.contains_key(start as u64)
                &&& forall|k: u64| #[trigger]
                    r.session.cache.blocks.contains_key(k) ==> k == start
                        || s.cache.blocks.contains_key(k)
            }
        }),
{
    lemma_block_start_bounds(at as int);
    let file_size = source.len() as u64;
    let start = block_start(at as int);
    let key = start as u64;
    let end = window_end(source, at as int);
    let got = read_gives(source, at as int, want);
    let size = (CursorModel { file_size, position: at }).read_size(buffer_for(want));
    let window = source_window(source, start);
    // A block is never longer than a request can ask for, so the read gets
    // what it wants or what the block has left.
    assert(got == if size < end - at {
        size as int
    } else {
        end - at
    });
    assert(block_slice(window, at - start, size as int) =~= source.subrange(at as int, at + got));
    if s.cache.blocks.contains_key(key) {
        assert(s.cache.blocks[key] == window);
        lemma_lookup_keeps_order(s.cache, at);
    } else {
        assert(peer_delivers(source, s.request_for(file_size, at)) == window);
        lemma_store_evicts_oldest(s.cache, key, window);
    }
}

/// Every offset of a block leads back to the block's start.
pub proof fn lemma_block_start_within(start: int, x: int)
    requires
        0 <= start,
        block_aligned(start),
        start <= x < start + CACHE_BLOCK_SIZE,
    ensures
        block_start(x) == start,
{
    let q = start / 262144;
    assert(start == q * 262144) by (nonlinear_arith)
        requires
            start % 262144 == 0,
            q == start / 262144,
    ;
    assert(x / 262144 == q) by (nonlinear_arith)
        requires
            q * 262144 <= x < q * 262144 + 262144,
    ;
}

/// A range that goes on past the end of its first block overlaps that
/// block and the blocks of what is left of it.
proof fn lemma_blocks_overlapped_step(offset: int, want: int, got: int)
    requires
        0 <= offset,
        0 < got < want,
        offset + got == block_start(offset) + CACHE_BLOCK_SIZE,
    ensures
        blocks_overlapped(offset, want) == 1 + blocks_overlapped(offset + got, want - got),
        block_start(offset + got) == offset + got,
{
    lemma_block_start_bounds(offset);
    let first = block_start(offset);
    let next = first + 262144;
    let last = block_start(offset + want - 1);
    lemma_block_start_bounds(offset + want - 1);
    assert(block_aligned(next)) by (nonlinear_arith)
        requires
            first % 262144 == 0,
            next == first + 262144,
    ;
    lemma_block_start_within(next, next);
    assert((last - first) / 262144 == (last - next) / 262144 + 1) by (nonlinear_arith)
        requires
            first % 262144 == 0,
            last % 262144 == 0,
            next == first + 262144,
    ;
}

/// Reading a range none of whose blocks is cached returns the source's
/// bytes in that range and sends the peer one request for each block that
/// the range overlaps, in the order of the blocks, each for the whole of
/// its block as far as the source goes.
pub proof fn theorem_uncached_range_fetches_each_block_once(
    s: SessionModel,
    source: Seq<u8>,
    offset: u64,
    want: int,
    slot: ResponseSender,
)
    requires
        s.cache.wf(),
        coherent(s.cache, source),
        source.len() <= u64::MAX,
        0 <= want,
        offset + want <= source.len(),
        s.cache.clock + want <= u64::MAX,
        forall|k: u64| #[trigger] s.cache.blocks.contains_key(k) ==> k < block_start(offset as int),
    ensures
        ({
            let r = read_range(s, source, offset, want, slot);
            &&& r.bytes == source.subrange(offset as int, offset + want)
            &&& r.dispatched.len() == blocks_overlapped(offset as int, want)
            &&& forall|i: int|
                0 <= i < r.dispatched.len() ==> {
                    &&& (#[trigger] r.dispatched[i]).offset == block_start(offset as int) + i
                        * CACHE_BLOCK_SIZE
                    &&& r.dispatched[i].size == window_size(
                        source.len() as u64,
                        r.dispatched[i].offset,
                    )
                }
            &&& r.session.cache.wf()
            &&& coherent(r.session.cache, source)
        }),
    decreases want,
{
    if want > 0 {
        lemma_read_once(s, source, offset, want, slot);
        lemma_block_start_bounds(offset as int);
        let r = read_range(s, source, offset, want, slot);
        let first = read_once(s, source, offset, want, slot);
        let got = read_gives(source, offset as int, want);
        let start = block_start(offset as int);
        let file_size = source.len() as u64;
        let next = (offset + got) as u64;
        let rest = read_range(first.session, source, next, want - got, slot);
        lemma_block_start_within(start, start);
        if got == want {
            // The range ends inside its first block.
            lemma_block_start_within(start, offset + want - 1);
        } else {
            // The range goes on at the start of the next block, where
            // still nothing is cached.
            lemma_blocks_overlapped_step(offset as int, want, got);
            assert forall|k: u64| #[trigger]
                first.session.cache.blocks.contains_key(k) implies k < block_start(
                next as int,
            ) by {
                if k != start {
                    assert(s.cache.blocks.contains_key(k));
                }
            }
            theorem_uncached_range_fetches_each_block_once(
                first.session,
                source,
                next,
                want - got,
                slot,
            );
            assert(r.bytes =~= source.subrange(offset as int, offset + want));
            assert forall|i: int| 0 <= i < r.dispatched.len() implies {
                &&& (#[trigger] r.dispatched[i]).offset == start + i * CACHE_BLOCK_SIZE
                &&& r.dispatched[i].size == window_size(file_size, r.dispatched[i].offset)
            } by {
                if i > 0 {
                    assert(r.dispatched[i] == rest.dispatched[i - 1]);
                    assert(next + (i - 1) * 262144 == start + i * 262144) by (nonlinear_arith)
                        requires
                            next == start + 262144,
                    ;
                }
            }
        }
    }
}

/// Reading a range all of whose blocks are cached returns the source's
/// bytes in that range without any request to the peer, and leaves every
/// block cached.
pub proof fn theorem_cached_range_fetches_nothing(
    s: SessionModel,
    source: Seq<u8>,
    offset: u64,
    want: int,
    slot: ResponseSender,
)
    requires
        s.cache.wf(),
        coherent(s.cache, source),
        source.len() <= u64::MAX,
        0 <= want,
        offset + want <= source.len(),
        s.cache.clock + want <= u64::MAX,
        forall|x: int|
            offset <= x < offset + want ==> s.cache.blocks.contains_key(
                #[trigger] block_start(x) as u64,
            ),
    ensures
        ({
            let r = read_range(s, source, offset, want, slot);
            &&& r.bytes == source.subrange(offset as int, offset + want)
            &&& r.dispatched.len() == 0
            &&& r.session.cache.blocks == s.cache.blocks
            &&& r.session.cache.wf()
            &&& coherent(r.session.cache, source)
        }),
    decreases want,
{
    if want > 0 {
        lemma_read_once(s, source, offset, want, slot);
        let first = read_once(s, source, offset, want, slot);
        let got = read_gives(source, offset as int, want);
        let next = (offset + got) as u64;
        theorem_cached_range_fetches_nothing(first.session, source, next, want - got, slot);
        assert(read_range(s, source, offset, want, slot).bytes =~= source.subrange(
            offset as int,
            offset + want,
        ));
    }
}

} // verus!
