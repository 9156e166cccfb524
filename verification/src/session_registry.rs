//! The table of live sessions, through which a completion finds the
//! session that waits for it.

use crate::request_id::{lemma_request_id_parts, request_task_id, task_of};
use crate::stream_reader::{completion_of, Completion, SessionModel, SharedState};
use std::collections::hash_map::Entry;
use std::collections::HashMap;
use vstd::prelude::*;

verus! {

/// Sessions by task id. A session is registered before its first dispatch
/// and removed when its last read has ended.
pub struct SessionRegistry {
    sessions: HashMap<u32, SharedState>,
}

impl View for SessionRegistry {
    type V = Map<u32, SessionModel>;

    closed spec fn view(&self) -> Map<u32, SessionModel> {
        self.sessions@.map_values(|s: SharedState| s@)
    }
}

/// The table after a completion for `request_id` came in: the session
/// that the id is addressed to releases the id's slot; without such a
/// session nothing changes.
pub open spec fn routed(
    sessions: Map<u32, SessionModel>,
    request_id: u32,
) -> Map<u32, SessionModel> {
    let task_id = task_of(request_id as int) as u32;
    if sessions.contains_key(task_id) {
        sessions.insert(task_id, sessions[task_id].released(request_id))
    } else {
        sessions
    }
}

/// A completion touches one session at most: the one that its request id
/// is addressed to. Every other session stays as it is, and no session
/// comes or goes.
pub proof fn lemma_routing_is_exact(sessions: Map<u32, SessionModel>, request_id: u32, other: u32)
    requires
        other != task_of(request_id as int),
    ensures
        routed(sessions, request_id).dom() == sessions.dom(),
        sessions.contains_key(other) ==> routed(sessions, request_id)[other] == sessions[other],
{
}

/// Two live sessions with task ids of their own never get each other's
/// completions. Whatever sequence numbers they have reached, an id that
/// one of them issues is addressed to it and differs from every id that
/// the other issues; its completion releases a slot in the issuing session
/// and leaves the other session as it is.
pub proof fn lemma_sessions_do_not_cross(
    sessions: Map<u32, SessionModel>,
    a: u32,
    b: u32,
    sequence_a: u16,
    sequence_b: u16,
)
    requires
        sessions.contains_key(a),
        sessions.contains_key(b),
        a != b,
        a < 65536,
        b < 65536,
        sessions[a].task_id == a,
        sessions[b].task_id == b,
    ensures
        ({
            let id = (SessionModel { next_sequence: sequence_a, ..sessions[a] }).next_request_id();
            let other = (SessionModel { next_sequence: sequence_b, ..sessions[b] }).next_request_id();
            &&& task_of(id as int) == a
            &&& task_of(other as int) == b
            &&& id != other
            &&& routed(sessions, id)[a] == sessions[a].released(id)
            &&& routed(sessions, id)[b] == sessions[b]
        }),
{
    lemma_request_id_parts(a as int, sequence_a as int);
    lemma_request_id_parts(b as int, sequence_b as int);
}

/// Delivering a completion twice through the table is delivering it once.
pub proof fn lemma_second_delivery_changes_nothing(
    sessions: Map<u32, SessionModel>,
    request_id: u32,
)
    ensures
        routed(routed(sessions, request_id), request_id) == routed(sessions, request_id),
{
    let task_id = task_of(request_id as int) as u32;
    if sessions.contains_key(task_id) {
        crate::stream_reader::lemma_second_completion_changes_nothing(
            sessions[task_id],
            request_id,
        );
    }
}

impl SessionRegistry {
    /// Whether every session in the table meets its invariant.
    pub open spec fn wf(&self) -> bool {
        forall|t: u32| #[trigger] self@.contains_key(t) ==> self@[t].cache.wf()
    }

    /// An empty table.
    pub fn new() -> (registry: SessionRegistry)
        ensures
            registry.wf(),
            registry@ == Map::<u32, SessionModel>::empty(),
    {
        SessionRegistry { sessions: HashMap::new() }
    }

    /// Number of live sessions.
    pub fn len(&self) -> (n: usize)
        ensures
            n == self@.dom().len(),
    {
        broadcast use vstd::std_specs::hash::group_hash_axioms;

        assert(self@.dom() =~= self.sessions@.dom());
        self.sessions.len()
    }

    /// Enters `state` under `task_id`, in place of a session that the id
    /// may have had.
    pub fn register(&mut self, task_id: u32, state: SharedState)
        requires
            old(self).wf(),
            state.wf(),
        ensures
            final(self).wf(),
            final(self)@ == old(self)@.insert(task_id, state@),
    {
        broadcast use vstd::std_specs::hash::group_hash_axioms;

        self.sessions.insert(task_id, state);
    }

    /// Takes the session of `task_id` out of the table and hands it back,
    /// for its counters to be read. Without such a session nothing changes.
    pub fn remove(&mut self, task_id: u32) -> (gone: Option<SharedState>)
        requires
            old(self).wf(),
        ensures
            final(self).wf(),
            final(self)@ == old(self)@.remove(task_id),
            match gone {
                Some(state) => old(self)@.contains_key(task_id) && state@ == old(self)@[task_id]
                    && state.wf(),
                None => !old(self)@.contains_key(task_id),
            },
    {
        broadcast use vstd::std_specs::hash::group_hash_axioms;

        let gone = self.sessions.remove(&task_id);
        assert(self@ =~= old(self)@.remove(task_id));
        gone
    }

    /// The session of `task_id`, if it is live.
    pub fn lookup(&self, task_id: u32) -> (found: Option<&SharedState>)
        requires
            self.wf(),
        ensures
            match found {
                Some(state) => self@.contains_key(task_id) && state@ == self@[task_id]
                    && state.wf(),
                None => !self@.contains_key(task_id),
            },
    {
        broadcast use vstd::std_specs::hash::group_hash_axioms;

        self.sessions.get(&task_id)
    }

    /// Delivers a completion to the session that `request_id` is addressed
    /// to, by the task id in its high half. Where that session is not
    /// live, or has no slot for the id, nothing changes.
    pub fn complete(&mut self, request_id: u32, data: Completion)
        requires
            old(self).wf(),
        ensures
            final(self).wf(),
            final(self)@ == routed(old(self)@, request_id),
    {
        broadcast use vstd::std_specs::hash::group_hash_axioms;

        let task_id: u32 = request_task_id(request_id);
        match self.sessions.remove(&task_id) {
            Some(state) => {
                let mut state = state;
                state.complete_request(request_id, data);
                self.sessions.insert(task_id, state);
                assert(self@ =~= routed(old(self)@, request_id));
            },
            None => {
                assert(self@ =~= old(self)@);
            },
        }
    }

    /// The session of `task_id` for changing in place, if it is live. What
    /// the caller leaves in it is what the table then holds for the id.
    pub fn lookup_mut(&mut self, task_id: u32) -> (found: Option<&mut SharedState>)
        requires
            old(self).wf(),
        ensures
            match found {
                Some(state) => {
                    &&& state.wf()
                    &&& old(self)@.contains_key(task_id)
                    &&& state@ == old(self)@[task_id]
                    &&& final(self)@ == old(self)@.insert(task_id, final(state)@)
                },
                None => !old(self)@.contains_key(task_id) && final(self)@ == old(self)@,
            },
    {
        broadcast use vstd::std_specs::hash::group_hash_axioms;

        match self.sessions.entry(task_id) {
            Entry::Occupied(occupied) => {
                assert(old(self)@.contains_key(task_id));
                let state = occupied.into_mut();
                Some(state)
            },
            Entry::Vacant(_) => None,
        }
    }
}

/// The inbound completion entry point: turns the pair of optional bytes
/// and optional error text into a completion and delivers it to the
/// session that `request_id` is addressed to. An id that no live session
/// waits for is passed over in silence.
pub fn complete_stream_request(
    registry: &mut SessionRegistry,
    request_id: u32,
    data: Option<Vec<u8>>,
    error: Option<String>,
)
    requires
        old(registry).wf(),
    ensures
        final(registry).wf(),
        final(registry)@ == routed(old(registry)@, request_id),
{
    let completion = completion_of(data, error);
    registry.complete(request_id, completion);
}

} // verus!
