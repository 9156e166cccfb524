use native_renderer::session_registry::{complete_stream_request, SessionRegistry};
use native_renderer::stream_reader::{Completion, SharedState};
use std::sync::mpsc::{channel, TryRecvError};

#[test]
fn registry_registers_looks_up_and_removes() {
    let mut registry = SessionRegistry::new();
    assert_eq!(registry.len(), 0);
    assert!(registry.lookup(5).is_none());
    registry.register(5, SharedState::new(5));
    registry.register(9, SharedState::new(9));
    assert_eq!(registry.len(), 2);
    assert_eq!(registry.lookup(5).map(|s| s.task_id()), Some(5));
    assert_eq!(registry.lookup(9).map(|s| s.task_id()), Some(9));
    assert!(registry.lookup(6).is_none());
    let gone = registry.remove(5);
    assert_eq!(gone.map(|s| s.task_id()), Some(5));
    assert!(registry.lookup(5).is_none());
    assert!(registry.remove(5).is_none());
    assert_eq!(registry.len(), 1);
}

#[test]
fn registry_hands_out_a_session_for_changing() {
    let mut registry = SessionRegistry::new();
    registry.register(3, SharedState::new(3));
    let id = registry.lookup_mut(3).map(|s| s.next_id());
    assert_eq!(id, Some(3 * 65536));
    let id = registry.lookup_mut(3).map(|s| s.next_id());
    assert_eq!(id, Some(3 * 65536 + 1));
    assert!(registry.lookup_mut(4).is_none());
    assert_eq!(registry.len(), 1);
}

#[test]
fn completion_goes_to_the_session_in_the_high_half() {
    let mut registry = SessionRegistry::new();
    let mut one = SharedState::new(1);
    let mut two = SharedState::new(2);
    let (tx1, rx1) = channel::<Completion>();
    let (tx2, rx2) = channel::<Completion>();
    let id1 = one.next_id();
    let id2 = two.next_id();
    assert_eq!(id1, 65536);
    assert_eq!(id2, 131072);
    one.register_request(id1, tx1);
    two.register_request(id2, tx2);
    registry.register(1, one);
    registry.register(2, two);

    registry.complete(id2, Ok(vec![2, 2]));
    assert_eq!(rx1.try_recv(), Err(TryRecvError::Empty));
    assert_eq!(rx2.try_recv(), Ok(Ok(vec![2, 2])));
    assert_eq!(registry.lookup(1).map(|s| s.is_pending(id1)), Some(true));
    assert_eq!(registry.lookup(2).map(|s| s.is_pending(id2)), Some(false));

    registry.complete(id1, Ok(vec![1]));
    assert_eq!(rx1.try_recv(), Ok(Ok(vec![1])));
    assert_eq!(registry.lookup(1).map(|s| s.pending_count()), Some(0));
}

#[test]
fn interleaved_sessions_keep_their_completions_apart() {
    let mut registry = SessionRegistry::new();
    registry.register(10, SharedState::new(10));
    registry.register(11, SharedState::new(11));
    let mut receivers = Vec::new();
    for round in 0..4u32 {
        for task in [10u32, 11u32] {
            let (tx, rx) = channel::<Completion>();
            let session = registry.lookup_mut(task).unwrap();
            let id = session.next_id();
            assert_eq!(id, task * 65536 + round);
            session.register_request(id, tx);
            receivers.push((task, id, rx));
        }
    }
    for (task, id, _) in receivers.iter().rev() {
        registry.complete(*id, Ok(vec![*task as u8, *id as u8]));
    }
    for (task, id, rx) in receivers.iter() {
        assert_eq!(rx.try_recv(), Ok(Ok(vec![*task as u8, *id as u8])));
        assert_eq!(rx.try_recv(), Err(TryRecvError::Disconnected));
    }
    assert_eq!(registry.lookup(10).map(|s| s.pending_count()), Some(0));
    assert_eq!(registry.lookup(11).map(|s| s.pending_count()), Some(0));
}

#[test]
fn completion_for_a_removed_session_is_dropped() {
    let mut registry = SessionRegistry::new();
    let mut state = SharedState::new(1);
    let (tx, rx) = channel::<Completion>();
    state.register_request(65536, tx);
    registry.register(1, state);
    let gone = registry.remove(1);
    registry.complete(65536, Ok(vec![1]));
    assert_eq!(registry.len(), 0);
    assert_eq!(rx.try_recv(), Err(TryRecvError::Empty));
    assert_eq!(gone.map(|s| s.is_pending(65536)), Some(true));
}

#[test]
fn completion_delivered_twice_through_the_registry_arrives_once() {
    let mut registry = SessionRegistry::new();
    let mut state = SharedState::new(1);
    let (tx, rx) = channel::<Completion>();
    state.register_request(65536, tx);
    registry.register(1, state);
    registry.complete(65536, Ok(vec![1]));
    registry.complete(65536, Ok(vec![2]));
    assert_eq!(rx.try_recv(), Ok(Ok(vec![1])));
    assert_eq!(rx.try_recv(), Err(TryRecvError::Disconnected));
    assert_eq!(registry.len(), 1);
}

#[test]
fn stream_request_completes_with_bytes_error_or_neither() {
    let mut registry = SessionRegistry::new();
    let mut state = SharedState::new(1);
    let (tx0, rx0) = channel::<Completion>();
    let (tx1, rx1) = channel::<Completion>();
    let (tx2, rx2) = channel::<Completion>();
    state.register_request(65536, tx0);
    state.register_request(65537, tx1);
    state.register_request(65538, tx2);
    registry.register(1, state);
    complete_stream_request(&mut registry, 65536, Some(vec![4, 5]), None);
    complete_stream_request(&mut registry, 65537, None, Some("fetch failed".to_string()));
    complete_stream_request(&mut registry, 65538, None, None);
    complete_stream_request(&mut registry, 7 * 65536, Some(vec![1]), None);
    assert_eq!(rx0.try_recv(), Ok(Ok(vec![4, 5])));
    assert_eq!(rx1.try_recv(), Ok(Err("fetch failed".to_string())));
    assert_eq!(rx2.try_recv(), Ok(Err("No data or error provided".to_string())));
    assert_eq!(registry.lookup(1).map(|s| s.pending_count()), Some(0));
}
