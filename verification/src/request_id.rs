//! Request addressing: a request id carries the owning session's task id
//! in its high half and a per-session sequence number in its low half.

use vstd::prelude::*;

verus! {

/// Number of task ids, and of sequence numbers per session.
pub const HALF_SPAN: u32 = 65536;

/// The request id made of `task_id`, taken modulo `HALF_SPAN`, and
/// `sequence`.
pub open spec fn request_id_of(task_id: int, sequence: int) -> int {
    (task_id % 65536) * 65536 + sequence
}

/// The task id that a request id is addressed to.
pub open spec fn task_of(request_id: int) -> int {
    request_id / 65536
}

/// The sequence number that a request id carries.
pub open spec fn sequence_of(request_id: int) -> int {
    request_id % 65536
}

/// Composes `(task_id << 16) | sequence`.
pub fn compose_request_id(task_id: u32, sequence: u16) -> (request_id: u32)
    ensures
        request_id as int == request_id_of(task_id as int, sequence as int),
{
    let high: u32 = task_id << 16;
    let low: u32 = sequence as u32;
    let id: u32 = high | low;
    assert(id == (task_id % 65536) * 65536 + low) by (bit_vector)
        requires
            high == task_id << 16,
            id == high | low,
            low < 65536,
    ;
    id
}

/// The task id in the high half of `request_id`.
pub fn request_task_id(request_id: u32) -> (task_id: u32)
    ensures
        task_id as int == task_of(request_id as int),
        task_id < HALF_SPAN,
{
    let task_id: u32 = request_id >> 16;
    assert(task_id == request_id / 65536 && task_id < 65536) by (bit_vector)
        requires
            task_id == request_id >> 16,
    ;
    task_id
}

/// A request id leads back to the task id and the sequence number that it
/// was composed of.
pub proof fn lemma_request_id_parts(task_id: int, sequence: int)
    requires
        0 <= sequence < 65536,
    ensures
        task_of(request_id_of(task_id, sequence)) == task_id % 65536,
        sequence_of(request_id_of(task_id, sequence)) == sequence,
        0 <= request_id_of(task_id, sequence) < 0x1_0000_0000,
{
    let t = task_id % 65536;
    assert((t * 65536 + sequence) / 65536 == t) by (nonlinear_arith)
        requires
            0 <= sequence < 65536,
    ;
    assert((t * 65536 + sequence) % 65536 == sequence) by (nonlinear_arith)
        requires
            0 <= sequence < 65536,
    ;
    assert(t * 65536 + sequence < 0x1_0000_0000) by (nonlinear_arith)
        requires
            0 <= t < 65536,
            0 <= sequence < 65536,
    ;
    assert(0 <= t * 65536 + sequence) by (nonlinear_arith)
        requires
            0 <= t,
            0 <= sequence,
    ;
}

/// Request ids differ as soon as their task ids, taken modulo `HALF_SPAN`,
/// or their sequence numbers differ: within one session the next 65536 ids
/// are all different, and no two sessions with task ids of their own share
/// an id.
pub proof fn lemma_request_ids_distinct(task_a: int, sequence_a: int, task_b: int, sequence_b: int)
    requires
        0 <= sequence_a < 65536,
        0 <= sequence_b < 65536,
        task_a % 65536 != task_b % 65536 || sequence_a != sequence_b,
    ensures
        request_id_of(task_a, sequence_a) != request_id_of(task_b, sequence_b),
{
    lemma_request_id_parts(task_a, sequence_a);
    lemma_request_id_parts(task_b, sequence_b);
}

/// Hands out task ids from a counter, truncated to sixteen bits: after
/// `HALF_SPAN` ids the same ids come again.
pub struct TaskIdCounter {
    next: u32,
}

impl View for TaskIdCounter {
    type V = int;

    closed spec fn view(&self) -> int {
        self.next as int
    }
}

impl TaskIdCounter {
    /// A counter that starts at zero.
    pub fn new() -> (counter: TaskIdCounter)
        ensures
            counter@ == 0,
    {
        TaskIdCounter { next: 0 }
    }

    /// The next task id: the counter's low sixteen bits. The counter then
    /// advances by one and wraps at the end of its range.
    pub fn next_task_id(&mut self) -> (task_id: u32)
        ensures
            task_id as int == old(self)@ % 65536,
            task_id < HALF_SPAN,
            final(self)@ == (old(self)@ + 1) % 0x1_0000_0000,
    {
        let current: u32 = self.next & 0xFFFF;
        let raw: u32 = self.next;
        assert(current == raw % 65536) by (bit_vector)
            requires
                current == raw & 0xFFFF,
        ;
        self.next = self.next.wrapping_add(1);
        current
    }
}

} // verus!
