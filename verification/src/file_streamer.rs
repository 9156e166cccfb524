//! The blocking consumer's side of the bridge: a cursor over the source
//! that turns reads of any size into fetches of one block at a time.

use crate::block_cache::block_start;
use crate::stream_reader::{
    window_size, FetchOutcome, FetchStep, ResponseSender, SessionModel, SharedState, StreamError,
    BlockRequest,
};
use vstd::prelude::*;

verus! {

/// Where a seek counts from, and by how much.
#[derive(Debug, Clone, Copy, PartialEq, Eq, Structural)]
pub enum SeekOrigin {
    /// An absolute position.
    Start(u64),
    /// Relative to the end of the source.
    End(i64),
    /// Relative to the current position.
    Current(i64),
}

/// What a read does first.
#[derive(Debug, PartialEq, Eq)]
pub enum ReadStep {
    /// Nothing to read: the cursor is at or past the end, or the buffer is
    /// empty.
    End,
    /// The bytes, served from the cache; the cursor has moved past them.
    /// There are none where the cached block ends at or before the cursor.
    Ready(Vec<u8>),
    /// The request to dispatch; the read goes on when it has ended.
    Dispatch(BlockRequest),
}

/// A cursor as mathematics.
pub struct CursorModel {
    pub file_size: u64,
    pub position: u64,
}

impl CursorModel {
    /// Number of bytes that a read into a buffer of `buf_len` bytes asks
    /// for: what the buffer takes, what the source has left, and what a
    /// request's size field can say, whichever is least.
    pub open spec fn read_size(self, buf_len: usize) -> u32 {
        if self.position >= self.file_size {
            0
        } else {
            let left = self.file_size - self.position;
            let fit = if buf_len < left {
                buf_len as int
            } else {
                left
            };
            if fit < u32::MAX {
                fit as u32
            } else {
                u32::MAX
            }
        }
    }

    /// The position that a seek aims at.
    pub open spec fn target(self, origin: SeekOrigin) -> int {
        match origin {
            SeekOrigin::Start(offset) => offset as int,
            SeekOrigin::End(delta) => self.file_size + delta,
            SeekOrigin::Current(delta) => self.position + delta,
        }
    }

    /// The cursor moved forward by `count` bytes.
    pub open spec fn advanced(self, count: int) -> CursorModel {
        CursorModel { position: (self.position + count) as u64, ..self }
    }
}

/// Read and seek over a source of fixed length whose bytes come through a
/// session's fetches.
pub struct JsFileStreamer {
    file_size: u64,
    position: u64,
}

impl View for JsFileStreamer {
    type V = CursorModel;

    closed spec fn view(&self) -> CursorModel {
        CursorModel { file_size: self.file_size, position: self.position }
    }
}

impl JsFileStreamer {
    /// A cursor at the start of a source of `file_size` bytes.
    pub fn new(file_size: u64) -> (streamer: JsFileStreamer)
        ensures
            streamer@.file_size == file_size,
            streamer@.position == 0,
    {
        JsFileStreamer { file_size, position: 0 }
    }

    /// Start of the cache block that holds `offset`.
    pub fn cache_block_offset(offset: u64) -> (start: u64)
        ensures
            start as int == block_start(offset as int),
    {
        crate::block_cache::cache_block_offset(offset)
    }

    /// Length of the source.
    pub fn file_size(&self) -> (n: u64)
        ensures
            n == self@.file_size,
    {
        self.file_size
    }

    /// Current position.
    pub fn position(&self) -> (n: u64)
        ensures
            n == self@.position,
    {
        self.position
    }

    /// Number of bytes that a read into a buffer of `buf_len` bytes asks for.
    pub fn read_size(&self, buf_len: usize) -> (n: u32)
        ensures
            n == self@.read_size(buf_len),
    {
        if self.position >= self.file_size {
            return 0;
        }
        let left: u64 = self.file_size - self.position;
        let fit: u64 = if (buf_len as u64) < left {
            buf_len as u64
        } else {
            left
        };
        if fit < u32::MAX as u64 {
            fit as u32
        } else {
            u32::MAX
        }
    }

    /// Whether a seek can be made: whether its target can be a position.
    pub fn can_seek(&self, origin: SeekOrigin) -> (fits: bool)
        ensures
            fits == (self@.target(origin) <= u64::MAX),
    {
        match origin {
            SeekOrigin::Start(_) => true,
            SeekOrigin::End(delta) => self.file_size as i128 + delta as i128 <= u64::MAX as i128,
            SeekOrigin::Current(delta) => self.position as i128 + delta as i128
                <= u64::MAX as i128,
        }
    }

    /// Moves the cursor. Only a target below zero is refused; a target past
    /// the end of the source is taken, and reads there find nothing.
    pub fn seek(&mut self, origin: SeekOrigin) -> (moved: Result<u64, StreamError>)
        requires
            old(self)@.target(origin) <= u64::MAX,
        ensures
            final(self)@.file_size == old(self)@.file_size,
            old(self)@.target(origin) < 0 ==> moved == Err::<u64, StreamError>(
                StreamError::InvalidSeek,
            ) && final(self)@ == old(self)@,
            old(self)@.target(origin) >= 0 ==> moved == Ok::<u64, StreamError>(
                old(self)@.target(origin) as u64,
            ) && final(self)@.position == old(self)@.target(origin),
    {
        let target: i128 = match origin {
            SeekOrigin::Start(offset) => offset as i128,
            SeekOrigin::End(delta) => self.file_size as i128 + delta as i128,
            SeekOrigin::Current(delta) => self.position as i128 + delta as i128,
        };
        if target < 0 {
            return Err(StreamError::InvalidSeek);
        }
        self.position = target as u64;
        Ok(self.position)
    }

    /// First half of a read into a buffer of `buf_len` bytes. With nothing
    /// to read it ends at once and touches nothing. Otherwise it begins a
    /// fetch at the cursor for `read_size(buf_len)` bytes: a cache hit
    /// hands back the bytes, as many as the cached block has from the
    /// cursor on, and moves the cursor past them; a miss hands back the
    /// request to dispatch and leaves the cursor where it is.
    pub fn begin_read(
        &mut self,
        state: &mut SharedState,
        buf_len: usize,
        slot: ResponseSender,
    ) -> (step: ReadStep)
        requires
            old(state).wf(),
            old(state)@.can_count(),
        ensures
            final(state).wf(),
            final(self)@.file_size == old(self)@.file_size,
            old(self)@.read_size(buf_len) == 0 ==> {
                &&& step == ReadStep::End
                &&& final(self)@ == old(self)@
                &&& final(state)@ == old(state)@
            },
            old(self)@.read_size(buf_len) > 0 ==> {
                let size = old(self)@.read_size(buf_len);
                let at = old(self)@.position;
                &&& final(state)@ == old(state)@.after_begin_fetch(
                    old(self)@.file_size,
                    at,
                    size,
                    slot,
                )
                &&& match step {
                    ReadStep::End => false,
                    ReadStep::Ready(bytes) => {
                        &&& old(state)@.cache.answer(at, size) == Some(bytes@)
                        &&& bytes@.len() <= size
                        &&& final(self)@ == old(self)@.advanced(bytes@.len() as int)
                    },
                    ReadStep::Dispatch(request) => {
                        &&& !old(state)@.hits(at, size)
                        &&& request == old(state)@.request_for(old(self)@.file_size, at)
                        &&& request.size > 0
                        &&& final(self)@ == old(self)@
                    },
                }
            },
    {
        let size: u32 = self.read_size(buf_len);
        if size == 0 {
            return ReadStep::End;
        }
        match state.begin_fetch(self.file_size, self.position, size, slot) {
            Ok(FetchStep::Hit(bytes)) => {
                self.position = self.position + bytes.len() as u64;
                ReadStep::Ready(bytes)
            },
            Ok(FetchStep::Dispatch(request)) => ReadStep::Dispatch(request),
            Err(_) => {
                // Not reached: the cursor is inside the source, so the
                // window of its block is not empty.
                proof {
                    crate::block_cache::lemma_block_start_bounds(self.position as int);
                }
                ReadStep::End
            },
        }
    }

    /// Second half of a read, once the dispatch of `request_id` has ended.
    /// Bytes that arrived are stored in the session's cache; the read gets
    /// the part of them that starts at the cursor, at most
    /// `read_size(buf_len)` bytes, and the cursor moves past it. Any other
    /// outcome fails as the fetch does and leaves the cursor where it is.
    pub fn finish_read(
        &mut self,
        state: &mut SharedState,
        request_id: u32,
        buf_len: usize,
        outcome: FetchOutcome,
    ) -> (answer: Result<Vec<u8>, StreamError>)
        requires
            old(state).wf(),
            outcome matches FetchOutcome::Completed(Ok(data)) ==> old(state)@.can_take(
                data@.len(),
            ),
        ensures
            final(state).wf(),
            final(self)@.file_size == old(self)@.file_size,
            match outcome {
                FetchOutcome::Refused(detail) => {
                    &&& final(state)@ == old(state)@.released(request_id)
                    &&& final(self)@ == old(self)@
                    &&& answer == Err::<Vec<u8>, StreamError>(StreamError::Rejected(detail))
                },
                FetchOutcome::TimedOut => {
                    &&& final(state)@ == old(state)@.released(request_id)
                    &&& final(self)@ == old(self)@
                    &&& answer == Err::<Vec<u8>, StreamError>(StreamError::Timeout)
                },
                FetchOutcome::Completed(Err(detail)) => {
                    &&& final(state)@ == old(state)@
                    &&& final(self)@ == old(self)@
                    &&& answer == Err::<Vec<u8>, StreamError>(StreamError::Rejected(detail))
                },
                FetchOutcome::Completed(Ok(data)) => {
                    let size = old(self)@.read_size(buf_len);
                    let at = old(self)@.position;
                    &&& final(state)@ == old(state)@.after_delivery(at, data@)
                    &&& answer matches Ok(bytes)
                    &&& bytes@ == SessionModel::delivered_answer(at, size, data@)
                    &&& bytes@.len() <= size
                    &&& final(self)@ == old(self)@.advanced(bytes@.len() as int)
                },
            },
    {
        let size: u32 = self.read_size(buf_len);
        match state.finish_fetch(request_id, self.position, size, outcome) {
            Ok(bytes) => {
                self.position = self.position + bytes.len() as u64;
                Ok(bytes)
            },
            Err(e) => Err(e),
        }
    }
}

} // verus!
