use native_renderer::block_cache::CACHE_BLOCK_SIZE;
use native_renderer::file_streamer::{JsFileStreamer, ReadStep, SeekOrigin};
use native_renderer::stream_reader::{BlockRequest, Completion, FetchOutcome, SharedState};
use std::sync::mpsc::channel;

fn source_bytes(len: usize) -> Vec<u8> {
    (0..len).map(|i| ((i * 7 + i / 251) % 256) as u8).collect()
}

/// Reads `want` bytes at `offset` as a consumer does, with a peer that
/// serves `source`; returns the bytes and the requests that went out.
fn read_through(
    state: &mut SharedState,
    source: &[u8],
    offset: u64,
    want: usize,
) -> (Vec<u8>, Vec<BlockRequest>) {
    let mut streamer = JsFileStreamer::new(source.len() as u64);
    assert_eq!(streamer.seek(SeekOrigin::Start(offset)), Ok(offset));
    let mut bytes = Vec::new();
    let mut dispatched = Vec::new();
    while bytes.len() < want {
        let left = want - bytes.len();
        let (tx, rx) = channel::<Completion>();
        let got = match streamer.begin_read(state, left, tx) {
            ReadStep::End => break,
            ReadStep::Ready(part) => part,
            ReadStep::Dispatch(request) => {
                dispatched.push(request);
                let from = request.offset as usize;
                let to = from + request.size as usize;
                state.complete_request(request.request_id, Ok(source[from..to].to_vec()));
                let outcome = FetchOutcome::Completed(rx.try_recv().unwrap());
                streamer.finish_read(state, request.request_id, left, outcome).unwrap()
            }
        };
        assert!(!got.is_empty());
        bytes.extend_from_slice(&got);
    }
    (bytes, dispatched)
}

#[test]
fn cold_range_is_fetched_one_request_per_block() {
    let source = source_bytes(1_000_000);
    let mut state = SharedState::new(1);
    let (bytes, dispatched) = read_through(&mut state, &source, 100_000, 800_000);
    assert_eq!(bytes, source[100_000..900_000].to_vec());
    assert_eq!(
        dispatched,
        vec![
            BlockRequest { offset: 0, size: 262144, request_id: 65536 },
            BlockRequest { offset: 262144, size: 262144, request_id: 65537 },
            BlockRequest { offset: 524288, size: 262144, request_id: 65538 },
            BlockRequest { offset: 786432, size: 213568, request_id: 65539 },
        ]
    );
    assert_eq!(state.get_stats().cache_misses, 4);
    assert_eq!(state.get_stats().cache_hits, 0);
    assert_eq!(state.get_stats().total_requests, 4);
    assert_eq!(state.get_stats().total_bytes_fetched, 1_000_000);
    assert_eq!(state.pending_count(), 0);
}

#[test]
fn cached_range_is_read_again_without_any_request() {
    let source = source_bytes(1_000_000);
    let mut state = SharedState::new(1);
    let (_, first) = read_through(&mut state, &source, 0, 1_000_000);
    assert_eq!(first.len(), 4);
    let (bytes, again) = read_through(&mut state, &source, 250_000, 500_000);
    assert_eq!(bytes, source[250_000..750_000].to_vec());
    assert_eq!(again, Vec::<BlockRequest>::new());
    let (bytes, again) = read_through(&mut state, &source, 999_999, 1);
    assert_eq!(bytes, vec![source[999_999]]);
    assert_eq!(again, Vec::<BlockRequest>::new());
    assert_eq!(state.get_stats().cache_misses, 4);
    assert_eq!(state.get_stats().cache_hits, 4);
    assert_eq!(state.get_stats().total_requests, 4);
}

#[test]
fn range_inside_one_block_is_one_request() {
    let source = source_bytes(400_000);
    let mut state = SharedState::new(1);
    let (bytes, dispatched) = read_through(&mut state, &source, 10, 20);
    assert_eq!(bytes, source[10..30].to_vec());
    assert_eq!(dispatched, vec![BlockRequest { offset: 0, size: 262144, request_id: 65536 }]);
}

#[test]
fn range_longer_than_the_cache_still_fetches_each_block_once() {
    let blocks = 70usize;
    let len = blocks * CACHE_BLOCK_SIZE as usize;
    let source = source_bytes(len);
    let mut state = SharedState::new(2);
    let (bytes, dispatched) = read_through(&mut state, &source, 0, len);
    assert_eq!(bytes.len(), len);
    assert!(bytes == source);
    assert_eq!(dispatched.len(), blocks);
    for (i, request) in dispatched.iter().enumerate() {
        assert_eq!(request.offset, i as u64 * CACHE_BLOCK_SIZE);
        assert_eq!(request.size, 262144);
        assert_eq!(request.request_id, 2 * 65536 + i as u32);
    }
    let (_, again) = read_through(&mut state, &source, 0, 10);
    assert_eq!(again.len(), 1);
    assert_eq!(again[0].offset, 0);
}
