use native_renderer::block_cache::{
    cache_block_offset, slice_block, BlockCache, CACHE_BLOCK_SIZE, MAX_CACHE_BLOCKS,
};
use native_renderer::file_streamer::JsFileStreamer;

fn block_of(len: usize, first: u8) -> Vec<u8> {
    (0..len).map(|i| first.wrapping_add(i as u8)).collect()
}

#[test]
fn test_cache_block_offset() {
    assert_eq!(JsFileStreamer::cache_block_offset(0), 0);
    assert_eq!(JsFileStreamer::cache_block_offset(100), 0);
    assert_eq!(
        JsFileStreamer::cache_block_offset(CACHE_BLOCK_SIZE),
        CACHE_BLOCK_SIZE
    );
    assert_eq!(
        JsFileStreamer::cache_block_offset(CACHE_BLOCK_SIZE + 100),
        CACHE_BLOCK_SIZE
    );
}

#[test]
fn block_offset_rounds_down_to_a_boundary() {
    assert_eq!(CACHE_BLOCK_SIZE, 262144);
    assert_eq!(cache_block_offset(262143), 0);
    assert_eq!(cache_block_offset(262144), 262144);
    assert_eq!(cache_block_offset(300000), 262144);
    assert_eq!(cache_block_offset(3 * 262144 + 7), 3 * 262144);
    assert_eq!(cache_block_offset(u64::MAX), u64::MAX - 262143);
}

#[test]
fn slice_block_gives_what_the_block_has() {
    let data = vec![10u8, 11, 12, 13, 14];
    assert_eq!(slice_block(&data, 1, 3), vec![11, 12, 13]);
    assert_eq!(slice_block(&data, 3, 10), vec![13, 14]);
    assert_eq!(slice_block(&data, 0, 5), vec![10, 11, 12, 13, 14]);
    assert_eq!(slice_block(&data, 5, 4), Vec::<u8>::new());
    assert_eq!(slice_block(&data, 9, 4), Vec::<u8>::new());
    assert_eq!(slice_block(&data, 2, 0), Vec::<u8>::new());
}

#[test]
fn new_cache_is_empty_and_misses() {
    let mut cache = BlockCache::new();
    assert_eq!(cache.len(), 0);
    assert_eq!(cache.access_counter(), 0);
    assert!(!cache.contains(0));
    assert_eq!(cache.lookup(0, 16), None);
    assert_eq!(cache.access_counter(), 0);
}

#[test]
fn lookup_returns_the_slice_inside_the_block() {
    let mut cache = BlockCache::new();
    cache.insert(CACHE_BLOCK_SIZE, block_of(1000, 0));
    assert!(cache.contains(CACHE_BLOCK_SIZE + 999));
    assert!(!cache.contains(0));
    let got = cache.lookup(CACHE_BLOCK_SIZE + 10, 4);
    assert_eq!(got, Some(vec![10, 11, 12, 13]));
    assert_eq!(cache.access_counter(), 2);
}

#[test]
fn lookup_of_a_short_block_returns_fewer_bytes() {
    let mut cache = BlockCache::new();
    cache.insert(0, block_of(100, 0));
    assert_eq!(cache.lookup(90, 50), Some((90u8..100).collect::<Vec<u8>>()));
    assert_eq!(cache.lookup(100, 50), Some(vec![]));
    assert_eq!(cache.lookup(5000, 50), Some(vec![]));
    assert_eq!(cache.lookup(0, 0), Some(vec![]));
    assert_eq!(cache.access_counter(), 5);
    assert_eq!(cache.len(), 1);
}

#[test]
fn lookup_is_empty_handed_only_where_no_block_is_stored() {
    let mut cache = BlockCache::new();
    cache.insert(CACHE_BLOCK_SIZE, vec![]);
    assert_eq!(cache.lookup(CACHE_BLOCK_SIZE, 8), Some(vec![]));
    assert_eq!(cache.lookup(2 * CACHE_BLOCK_SIZE - 1, 8), Some(vec![]));
    assert_eq!(cache.lookup(CACHE_BLOCK_SIZE - 1, 8), None);
    assert_eq!(cache.lookup(2 * CACHE_BLOCK_SIZE, 8), None);
    assert_eq!(cache.access_counter(), 3);
}

#[test]
fn a_lookup_without_bytes_still_saves_the_block_from_eviction() {
    let mut cache = BlockCache::new();
    for i in 0..64u64 {
        cache.insert(i * CACHE_BLOCK_SIZE, vec![i as u8]);
    }
    assert_eq!(cache.lookup(100, 1), Some(vec![]));
    cache.insert(64 * CACHE_BLOCK_SIZE, vec![64]);
    assert!(cache.contains(0));
    assert!(!cache.contains(CACHE_BLOCK_SIZE));
}

#[test]
fn insert_keys_the_block_by_its_aligned_start() {
    let mut cache = BlockCache::new();
    cache.insert(CACHE_BLOCK_SIZE + 77, vec![1, 2, 3]);
    assert_eq!(cache.len(), 1);
    assert_eq!(cache.lookup(CACHE_BLOCK_SIZE, 3), Some(vec![1, 2, 3]));
}

#[test]
fn insert_over_a_stored_block_replaces_it() {
    let mut cache = BlockCache::new();
    cache.insert(0, vec![1, 2, 3]);
    cache.insert(0, vec![9, 8]);
    assert_eq!(cache.len(), 1);
    assert_eq!(cache.lookup(0, 10), Some(vec![9, 8]));
}

#[test]
fn cache_never_holds_more_than_its_capacity() {
    let mut cache = BlockCache::new();
    for i in 0..200u64 {
        cache.insert(i * CACHE_BLOCK_SIZE, vec![i as u8]);
        assert!(cache.len() <= MAX_CACHE_BLOCKS);
    }
    assert_eq!(cache.len(), MAX_CACHE_BLOCKS);
    assert_eq!(MAX_CACHE_BLOCKS, 64);
}

#[test]
fn insert_at_capacity_evicts_the_oldest_block() {
    let mut cache = BlockCache::new();
    for i in 0..64u64 {
        cache.insert(i * CACHE_BLOCK_SIZE, vec![i as u8]);
    }
    assert_eq!(cache.len(), 64);
    cache.insert(64 * CACHE_BLOCK_SIZE, vec![64]);
    assert_eq!(cache.len(), 64);
    assert!(!cache.contains(0));
    for i in 1..=64u64 {
        assert!(cache.contains(i * CACHE_BLOCK_SIZE));
    }
}

#[test]
fn a_lookup_hit_saves_the_block_from_eviction() {
    let mut cache = BlockCache::new();
    for i in 0..64u64 {
        cache.insert(i * CACHE_BLOCK_SIZE, vec![i as u8]);
    }
    assert_eq!(cache.lookup(0, 1), Some(vec![0]));
    cache.insert(64 * CACHE_BLOCK_SIZE, vec![64]);
    assert!(cache.contains(0));
    assert!(!cache.contains(CACHE_BLOCK_SIZE));
    assert!(cache.contains(2 * CACHE_BLOCK_SIZE));
    assert_eq!(cache.len(), 64);
}

#[test]
fn insert_at_capacity_evicts_even_when_the_key_is_stored() {
    let mut cache = BlockCache::new();
    for i in 0..64u64 {
        cache.insert(i * CACHE_BLOCK_SIZE, vec![i as u8]);
    }
    cache.insert(5 * CACHE_BLOCK_SIZE, vec![55]);
    assert!(!cache.contains(0));
    assert_eq!(cache.len(), 63);
    assert_eq!(cache.lookup(5 * CACHE_BLOCK_SIZE, 1), Some(vec![55]));
}
