//! Per-session state of the bridge and the fetch protocol that runs on it.

use crate::block_cache::{
    block_slice, block_start, cache_block_offset, slice_block, BlockCache, CacheModel,
    CACHE_BLOCK_SIZE,
};
use crate::request_id::{compose_request_id, request_id_of};
use std::collections::HashMap;
use std::sync::mpsc::Sender;
use vstd::prelude::*;

verus! {

/// `std::sync::mpsc::Sender`, carried through as an opaque handle.
#[verifier::external_type_specification]
#[verifier::external_body]
#[verifier::reject_recursive_types(T)]
pub struct ExSender<T>(Sender<T>);

/// Seconds that a fetch waits for its completion before it gives up.
pub const FETCH_TIMEOUT_SECS: u64 = 30;

/// What a completion carries: the fetched bytes, or the peer's error text.
pub type Completion = Result<Vec<u8>, String>;

/// The sending half of a one-shot completion slot.
pub type ResponseSender = Sender<Completion>;

/// One outbound fetch, as handed to the peer.
#[derive(Debug, Clone, Copy, PartialEq, Eq, Structural)]
pub struct BlockRequest {
    pub offset: u64,
    pub size: u32,
    /// Matches the completion to this request.
    pub request_id: u32,
}

/// Counters kept for diagnostics; none of them ever goes down.
#[derive(Debug, Clone, Copy, PartialEq, Eq, Structural)]
pub struct StreamerStats {
    pub total_requests: u32,
    pub cache_hits: u32,
    pub cache_misses: u32,
    pub total_bytes_fetched: u64,
}

impl StreamerStats {
    /// The counters of a session that has done nothing yet.
    pub open spec fn zeroed() -> StreamerStats {
        StreamerStats { total_requests: 0, cache_hits: 0, cache_misses: 0, total_bytes_fetched: 0 }
    }
}

impl Default for StreamerStats {
    fn default() -> (stats: StreamerStats)
        ensures
            stats == StreamerStats::zeroed(),
    {
        StreamerStats { total_requests: 0, cache_hits: 0, cache_misses: 0, total_bytes_fetched: 0 }
    }
}

/// Why a read, a fetch or a seek failed.
#[derive(Debug, PartialEq, Eq)]
pub enum StreamError {
    /// The fetch window is empty: the offset is at or beyond the end of the
    /// source.
    ShortRead { offset: u64, block_offset: u64, file_size: u64 },
    /// The peer refused the dispatch or answered with a failure; with its
    /// detail.
    Rejected(String),
    /// No completion arrived within the wait.
    Timeout,
    /// The position sought would be negative.
    InvalidSeek,
}

/// What a fetch does first: answer from the cache, or go to the peer.
#[derive(Debug, PartialEq, Eq)]
pub enum FetchStep {
    /// The bytes, served from the cache.
    Hit(Vec<u8>),
    /// The request to dispatch; its slot is registered.
    Dispatch(BlockRequest),
}

/// How a dispatched request ended.
#[derive(Debug, PartialEq, Eq)]
pub enum FetchOutcome {
    /// The dispatch itself was refused; with the refusal's detail.
    Refused(String),
    /// The wait expired before any completion.
    TimedOut,
    /// The slot received a completion.
    Completed(Completion),
}

/// Start of the window that a miss at `offset` fetches.
pub open spec fn window_offset(offset: u64) -> u64 {
    block_start(offset as int) as u64
}

/// Size of the window that a miss at `offset` fetches from a source of
/// `file_size` bytes: a whole block, or what the source has left from the
/// block's start, or nothing.
pub open spec fn window_size(file_size: u64, offset: u64) -> u32 {
    let start = window_offset(offset);
    if file_size <= start {
        0
    } else if file_size - start < CACHE_BLOCK_SIZE {
        (file_size - start) as u32
    } else {
        CACHE_BLOCK_SIZE as u32
    }
}

/// The completion that the inbound pair of optional bytes and optional
/// error text stands for. Bytes win over an error; with neither, the
/// completion is an error that says so.
pub fn completion_of(data: Option<Vec<u8>>, error: Option<String>) -> (completion: Completion)
    ensures
        match (data, error) {
            (Some(bytes), _) => completion == Ok::<Vec<u8>, String>(bytes),
            (None, Some(detail)) => completion == Err::<Vec<u8>, String>(detail),
            (None, None) => completion matches Err(detail) && detail@
                == "No data or error provided"@,
        },
{
    match (data, error) {
        (Some(bytes), _) => Ok(bytes),
        (None, Some(detail)) => Err(detail),
        (None, None) => Err("No data or error provided".to_owned()),
    }
}

/// Hands `data` to the receiving half of the slot with
/// `std::sync::mpsc::Sender::send` and consumes the sender. Whether a
/// receiver was still there to take it is not told, and nothing is claimed
/// about it.
#[verifier::external_body]
fn send_completion(sender: ResponseSender, data: Completion) {
    let _ = sender.send(data);
}

/// A session as mathematics.
pub struct SessionModel {
    pub task_id: u32,
    pub cache: CacheModel,
    pub stats: StreamerStats,
    /// The slot registered for each request in flight.
    pub pending: Map<u32, ResponseSender>,
    pub next_sequence: u16,
}

impl SessionModel {
    /// Whether every counter that a fetch steps can still be stepped.
    pub open spec fn can_count(self) -> bool {
        &&& self.cache.clock < u64::MAX
        &&& self.stats.cache_hits < u32::MAX
        &&& self.stats.cache_misses < u32::MAX
        &&& self.stats.total_requests < u32::MAX
    }

    /// Whether a delivery of `len` bytes can still be counted and stored.
    pub open spec fn can_take(self, len: nat) -> bool {
        &&& self.cache.clock < u64::MAX
        &&& self.stats.total_bytes_fetched + len <= u64::MAX
    }

    /// Whether the cache answers a fetch of `size` bytes at `offset`:
    /// whether the block that holds `offset` is stored.
    pub open spec fn hits(self, offset: u64, size: u32) -> bool {
        self.cache.answer(offset, size) is Some
    }

    /// The request that a miss at `offset` dispatches.
    pub open spec fn request_for(self, file_size: u64, offset: u64) -> BlockRequest {
        BlockRequest {
            offset: window_offset(offset),
            size: window_size(file_size, offset),
            request_id: self.next_request_id(),
        }
    }

    /// The session after a fetch was begun. A hit touches the block and
    /// counts as one; a miss counts as a miss and as a request and, unless
    /// the window is empty, issues an id and registers `slot` under it.
    pub open spec fn after_begin_fetch(
        self,
        file_size: u64,
        offset: u64,
        size: u32,
        slot: ResponseSender,
    ) -> SessionModel {
        let looked = SessionModel { cache: self.cache.after_lookup(offset), ..self };
        if self.hits(offset, size) {
            SessionModel {
                stats: StreamerStats {
                    cache_hits: (self.stats.cache_hits + 1) as u32,
                    ..self.stats
                },
                ..looked
            }
        } else {
            let counted = SessionModel {
                stats: StreamerStats {
                    cache_misses: (self.stats.cache_misses + 1) as u32,
                    total_requests: (self.stats.total_requests + 1) as u32,
                    ..self.stats
                },
                ..looked
            };
            if window_size(file_size, offset) == 0 {
                counted
            } else {
                counted.issued().registered(self.next_request_id(), slot)
            }
        }
    }

    /// The session after `data` arrived for a miss at `offset`: the bytes
    /// are counted and stored as the block that holds `offset`.
    pub open spec fn after_delivery(self, offset: u64, data: Seq<u8>) -> SessionModel {
        SessionModel {
            cache: self.cache.store(window_offset(offset), data),
            stats: StreamerStats {
                total_bytes_fetched: (self.stats.total_bytes_fetched + data.len()) as u64,
                ..self.stats
            },
            ..self
        }
    }

    /// The bytes that a fetch of `size` bytes at `offset` returns once
    /// `data` has arrived for its block.
    pub open spec fn delivered_answer(offset: u64, size: u32, data: Seq<u8>) -> Seq<u8> {
        block_slice(data, offset - window_offset(offset), size as int)
    }

    /// The request id that the session issues next.
    pub open spec fn next_request_id(self) -> u32 {
        request_id_of(self.task_id as int, self.next_sequence as int) as u32
    }

    /// The session after it issued a request id: the sequence number moved
    /// on by one, from 65535 back to zero.
    pub open spec fn issued(self) -> SessionModel {
        SessionModel { next_sequence: ((self.next_sequence + 1) % 65536) as u16, ..self }
    }

    /// The session after `slot` was registered for `request_id`.
    pub open spec fn registered(self, request_id: u32, slot: ResponseSender) -> SessionModel {
        SessionModel { pending: self.pending.insert(request_id, slot), ..self }
    }

    /// The session after the slot of `request_id`, if it had one, was
    /// released: by a completion, a rejection or a timeout.
    pub open spec fn released(self, request_id: u32) -> SessionModel {
        SessionModel { pending: self.pending.remove(request_id), ..self }
    }
}

/// Delivering a completion twice is delivering it once: the first delivery
/// releases the slot, the second finds none and changes nothing.
pub proof fn lemma_second_completion_changes_nothing(s: SessionModel, request_id: u32)
    ensures
        !s.released(request_id).pending.contains_key(request_id),
        s.released(request_id).released(request_id) == s.released(request_id),
{
    let once = s.released(request_id);
    assert(once.released(request_id).pending =~= once.pending);
}

/// A fetch that misses and then waits in vain leaves no slot behind: once
/// the wait has expired the registry is what it was before the fetch,
/// without the request's id, and a completion that comes after that
/// changes nothing.
pub proof fn lemma_expired_request_leaves_no_slot(
    s: SessionModel,
    file_size: u64,
    offset: u64,
    size: u32,
    slot: ResponseSender,
)
    requires
        !s.hits(offset, size),
        window_size(file_size, offset) > 0,
    ensures
        ({
            let id = s.next_request_id();
            let waiting = s.after_begin_fetch(file_size, offset, size, slot);
            let expired = waiting.released(id);
            &&& waiting.pending.contains_key(id)
            &&& !expired.pending.contains_key(id)
            &&& expired.pending == s.pending.remove(id)
            &&& expired.released(id) == expired
        }),
{
    let id = s.next_request_id();
    let waiting = s.after_begin_fetch(file_size, offset, size, slot);
    let expired = waiting.released(id);
    assert(expired.released(id).pending =~= expired.pending);
}

/// What a fetch has brought in, the next fetch finds: once bytes have been
/// delivered for the block of `offset`, a fetch at `offset` is a hit and
/// is answered with the same bytes as the fetch that brought them in.
pub proof fn lemma_delivered_block_is_hit(s: SessionModel, offset: u64, size: u32, data: Seq<u8>)
    ensures
        s.after_delivery(offset, data).hits(offset, size),
        s.after_delivery(offset, data).cache.answer(offset, size) == Some(
            SessionModel::delivered_answer(offset, size, data),
        ),
{
}

/// No counter ever goes down: not when a fetch begins, hit or miss, and not
/// when bytes are delivered.
pub proof fn lemma_counters_never_decrease(
    s: SessionModel,
    file_size: u64,
    offset: u64,
    size: u32,
    slot: ResponseSender,
    data: Seq<u8>,
)
    requires
        s.can_count(),
        s.can_take(data.len()),
    ensures
        ({
            let begun = s.after_begin_fetch(file_size, offset, size, slot);
            let delivered = s.after_delivery(offset, data);
            &&& begun.stats.total_requests >= s.stats.total_requests
            &&& begun.stats.cache_hits >= s.stats.cache_hits
            &&& begun.stats.cache_misses >= s.stats.cache_misses
            &&& begun.stats.total_bytes_fetched == s.stats.total_bytes_fetched
            &&& begun.stats.cache_hits + begun.stats.cache_misses == s.stats.cache_hits
                + s.stats.cache_misses + 1
            &&& delivered.stats.total_bytes_fetched == s.stats.total_bytes_fetched + data.len()
            &&& delivered.stats.total_requests == s.stats.total_requests
            &&& delivered.stats.cache_hits == s.stats.cache_hits
            &&& delivered.stats.cache_misses == s.stats.cache_misses
        }),
{
}

/// State of one streaming session: its block cache, its counters, the
/// completion slots of its requests in flight and its sequence counter.
pub struct SharedState {
    task_id: u32,
    cache: BlockCache,
    stats: StreamerStats,
    pending_requests: HashMap<u32, ResponseSender>,
    next_request_seq: u16,
}

impl View for SharedState {
    type V = SessionModel;

    closed spec fn view(&self) -> SessionModel {
        SessionModel {
            task_id: self.task_id,
            cache: self.cache@,
            stats: self.stats,
            pending: self.pending_requests@,
            next_sequence: self.next_request_seq,
        }
    }
}

impl SharedState {
    /// The session invariant: that of its cache.
    pub open spec fn wf(&self) -> bool {
        self@.cache.wf()
    }

    /// A fresh session for `task_id`: cold cache, counters at zero, no
    /// request in flight, sequence at zero.
    pub fn new(task_id: u32) -> (state: SharedState)
        ensures
            state.wf(),
            state@.task_id == task_id,
            state@.cache.blocks == Map::<u64, Seq<u8>>::empty(),
            state@.cache.order == Map::<u64, u64>::empty(),
            state@.cache.clock == 0,
            state@.stats == StreamerStats::zeroed(),
            state@.pending == Map::<u32, ResponseSender>::empty(),
            state@.next_sequence == 0,
    {
        SharedState {
            task_id,
            cache: BlockCache::new(),
            stats: StreamerStats::default(),
            pending_requests: HashMap::new(),
            next_request_seq: 0,
        }
    }

    /// The task id that the session was made for.
    pub fn task_id(&self) -> (task_id: u32)
        ensures
            task_id == self@.task_id,
    {
        self.task_id
    }

    /// A copy of the counters.
    pub fn get_stats(&self) -> (stats: StreamerStats)
        ensures
            stats == self@.stats,
    {
        self.stats
    }

    /// Number of requests in flight.
    pub fn pending_count(&self) -> (n: usize)
        ensures
            n == self@.pending.dom().len(),
    {
        broadcast use vstd::std_specs::hash::group_hash_axioms;

        self.pending_requests.len()
    }

    /// Whether `request_id` has a slot registered.
    pub fn is_pending(&self, request_id: u32) -> (held: bool)
        ensures
            held == self@.pending.contains_key(request_id),
    {
        broadcast use vstd::std_specs::hash::group_hash_axioms;

        self.pending_requests.contains_key(&request_id)
    }

    /// Whether a fetch can begin: whether every counter that it steps has
    /// room for one more.
    pub fn can_count(&self) -> (room: bool)
        ensures
            room == self@.can_count(),
    {
        self.cache.access_counter() < u64::MAX && self.stats.cache_hits < u32::MAX
            && self.stats.cache_misses < u32::MAX && self.stats.total_requests < u32::MAX
    }

    /// Whether a delivery of `len` bytes can be taken: whether the byte
    /// counter and the cache's tick counter have room for it.
    pub fn can_take(&self, len: usize) -> (room: bool)
        ensures
            room == self@.can_take(len as nat),
    {
        self.cache.access_counter() < u64::MAX && len as u64 <= u64::MAX
            - self.stats.total_bytes_fetched
    }

    /// Issues the next request id: the task id in the high sixteen bits,
    /// the sequence number in the low sixteen. The sequence number then
    /// moves on by one and wraps.
    pub fn next_id(&mut self) -> (request_id: u32)
        ensures
            request_id == old(self)@.next_request_id(),
            request_id as int == request_id_of(
                old(self)@.task_id as int,
                old(self)@.next_sequence as int,
            ),
            final(self)@ == old(self)@.issued(),
    {
        let current: u16 = self.next_request_seq;
        self.next_request_seq = current.wrapping_add(1);
        compose_request_id(self.task_id, current)
    }

    /// Registers `sender` as the slot of `request_id`. A slot that the id
    /// already had is replaced.
    pub fn register_request(&mut self, request_id: u32, sender: ResponseSender)
        ensures
            final(self)@ == old(self)@.registered(request_id, sender),
    {
        broadcast use vstd::std_specs::hash::group_hash_axioms;

        self.pending_requests.insert(request_id, sender);
    }

    /// Delivers a completion. The slot of `request_id` leaves the registry
    /// and `data` is sent into it; where the id has no slot, because it is
    /// unknown, was completed before or has timed out, nothing changes.
    pub fn complete_request(&mut self, request_id: u32, data: Completion)
        ensures
            final(self)@ == old(self)@.released(request_id),
            !old(self)@.pending.contains_key(request_id) ==> final(self)@ == old(self)@,
    {
        broadcast use vstd::std_specs::hash::group_hash_axioms;

        match self.pending_requests.remove(&request_id) {
            Some(sender) => {
                send_completion(sender, data);
            },
            None => {
                assert(self.pending_requests@ =~= old(self).pending_requests@);
            },
        }
    }

    /// Releases the slot of `request_id` without a delivery, as after a
    /// refused dispatch or an expired wait. Without a slot nothing changes.
    pub fn cancel_request(&mut self, request_id: u32)
        ensures
            final(self)@ == old(self)@.released(request_id),
            !old(self)@.pending.contains_key(request_id) ==> final(self)@ == old(self)@,
    {
        broadcast use vstd::std_specs::hash::group_hash_axioms;

        let gone = self.pending_requests.remove(&request_id);
        if gone.is_none() {
            assert(self.pending_requests@ =~= old(self).pending_requests@);
        }
    }

    /// First half of a fetch of `size` bytes at `offset` from a source of
    /// `file_size` bytes. A cache hit, which is any fetch whose block is
    /// stored, answers at once with the bytes that the block has there,
    /// which may be none, and is counted as a hit; it issues no id and
    /// registers nothing, and `slot` is dropped. A miss is counted as a
    /// miss and as a request, fixes the block-aligned window, issues a
    /// request id, registers `slot` under it and hands back the request to
    /// dispatch; it fails with `ShortRead` where the window is empty.
    pub fn begin_fetch(
        &mut self,
        file_size: u64,
        offset: u64,
        size: u32,
        slot: ResponseSender,
    ) -> (step: Result<FetchStep, StreamError>)
        requires
            old(self).wf(),
            old(self)@.can_count(),
        ensures
            final(self).wf(),
            final(self)@ == old(self)@.after_begin_fetch(file_size, offset, size, slot),
            match step {
                Ok(FetchStep::Hit(bytes)) => old(self)@.cache.answer(offset, size) == Some(
                    bytes@,
                ),
                Ok(FetchStep::Dispatch(request)) => {
                    &&& !old(self)@.hits(offset, size)
                    &&& window_size(file_size, offset) > 0
                    &&& request == old(self)@.request_for(file_size, offset)
                },
                Err(e) => {
                    &&& !old(self)@.hits(offset, size)
                    &&& window_size(file_size, offset) == 0
                    &&& e == (StreamError::ShortRead {
                        offset,
                        block_offset: window_offset(offset),
                        file_size,
                    })
                },
            },
    {
        match self.cache.lookup(offset, size) {
            Some(bytes) => {
                self.stats.cache_hits = self.stats.cache_hits + 1;
                Ok(FetchStep::Hit(bytes))
            },
            None => {
                self.stats.cache_misses = self.stats.cache_misses + 1;
                self.stats.total_requests = self.stats.total_requests + 1;
                let block_offset: u64 = cache_block_offset(offset);
                let remaining: u64 = if file_size > block_offset {
                    file_size - block_offset
                } else {
                    0
                };
                let fetch_size: u32 = if remaining < CACHE_BLOCK_SIZE {
                    remaining as u32
                } else {
                    CACHE_BLOCK_SIZE as u32
                };
                if fetch_size == 0 {
                    return Err(StreamError::ShortRead { offset, block_offset, file_size });
                }
                let request_id: u32 = self.next_id();
                self.register_request(request_id, slot);
                Ok(
                    FetchStep::Dispatch(
                        BlockRequest { offset: block_offset, size: fetch_size, request_id },
                    ),
                )
            },
        }
    }

    /// Second half of a fetch, once the dispatch of `request_id` has ended.
    /// A refused dispatch and an expired wait release the slot and fail
    /// with `Rejected` and `Timeout`. A completion with an error fails with
    /// `Rejected` and the peer's detail. A completion with bytes counts
    /// them, stores them as the block that holds `offset` and answers with
    /// the part of them that was asked for.
    pub fn finish_fetch(
        &mut self,
        request_id: u32,
        offset: u64,
        size: u32,
        outcome: FetchOutcome,
    ) -> (answer: Result<Vec<u8>, StreamError>)
        requires
            old(self).wf(),
            outcome matches FetchOutcome::Completed(Ok(data)) ==> old(self)@.can_take(
                data@.len(),
            ),
        ensures
            final(self).wf(),
            match outcome {
                FetchOutcome::Refused(detail) => {
                    &&& final(self)@ == old(self)@.released(request_id)
                    &&& answer == Err::<Vec<u8>, StreamError>(StreamError::Rejected(detail))
                },
                FetchOutcome::TimedOut => {
                    &&& final(self)@ == old(self)@.released(request_id)
                    &&& answer == Err::<Vec<u8>, StreamError>(StreamError::Timeout)
                },
                FetchOutcome::Completed(Err(detail)) => {
                    &&& final(self)@ == old(self)@
                    &&& answer == Err::<Vec<u8>, StreamError>(StreamError::Rejected(detail))
                },
                FetchOutcome::Completed(Ok(data)) => {
                    &&& final(self)@ == old(self)@.after_delivery(offset, data@)
                    &&& answer matches Ok(bytes)
                    &&& bytes@ == SessionModel::delivered_answer(offset, size, data@)
                },
            },
    {
        match outcome {
            FetchOutcome::Refused(detail) => {
                self.cancel_request(request_id);
                Err(StreamError::Rejected(detail))
            },
            FetchOutcome::TimedOut => {
                self.cancel_request(request_id);
                Err(StreamError::Timeout)
            },
            FetchOutcome::Completed(Err(detail)) => Err(StreamError::Rejected(detail)),
            FetchOutcome::Completed(Ok(data)) => {
                let block_offset: u64 = cache_block_offset(offset);
                let within: usize = (offset - block_offset) as usize;
                let bytes = slice_block(&data, within, size);
                let fetched: u64 = data.len() as u64;
                self.stats.total_bytes_fetched = self.stats.total_bytes_fetched + fetched;
                self.cache.insert(block_offset, data);
                Ok(bytes)
            },
        }
    }
}

} // verus!
