//! Fixed-size, offset-aligned blocks with least-recently-used eviction.

use std::collections::HashMap;
use vstd::prelude::*;

verus! {

/// Size of one cache block in bytes (256 KiB).
pub const CACHE_BLOCK_SIZE: u64 = 262144;

/// Largest number of blocks the cache holds at once.
pub const MAX_CACHE_BLOCKS: usize = 64;

/// Start of the block that contains `offset`.
pub open spec fn block_start(offset: int) -> int {
    (offset / (CACHE_BLOCK_SIZE as int)) * (CACHE_BLOCK_SIZE as int)
}

/// Whether `offset` lies on a block boundary.
pub open spec fn block_aligned(offset: int) -> bool {
    offset % (CACHE_BLOCK_SIZE as int) == 0
}

/// The part of `data` that answers a request for `size` bytes starting
/// `within` bytes into the block: as many bytes as the block still has from
/// there on, and never more than `size`.
pub open spec fn block_slice(data: Seq<u8>, within: int, size: int) -> Seq<u8> {
    let available = if data.len() > within {
        data.len() - within
    } else {
        0
    };
    let count = if size < available {
        size
    } else {
        available
    };
    if count > 0 {
        data.subrange(within, within + count)
    } else {
        Seq::empty()
    }
}

/// The block that holds `offset` starts at or before it, on a boundary,
/// less than one block away.
pub proof fn lemma_block_start_bounds(offset: int)
    requires
        0 <= offset,
    ensures
        0 <= block_start(offset) <= offset,
        offset - block_start(offset) < CACHE_BLOCK_SIZE,
        block_aligned(block_start(offset)),
{
    let index = offset / 262144;
    assert(0 <= index * 262144 <= offset) by (nonlinear_arith)
        requires
            index == offset / 262144,
            0 <= offset,
    ;
    assert(offset - index * 262144 < 262144) by (nonlinear_arith)
        requires
            index == offset / 262144,
    ;
}

/// Rounds `offset` down to the start of its block.
pub fn cache_block_offset(offset: u64) -> (start: u64)
    ensures
        start as int == block_start(offset as int),
        block_aligned(start as int),
        start <= offset,
        offset - start < CACHE_BLOCK_SIZE,
{
    let index: u64 = offset / CACHE_BLOCK_SIZE;
    assert(index * 262144 <= offset) by (nonlinear_arith)
        requires
            index == offset / 262144,
    ;
    assert(offset - index * 262144 < 262144) by (nonlinear_arith)
        requires
            index == offset / 262144,
    ;
    index * CACHE_BLOCK_SIZE
}

/// Copies the answer to a request out of a block's bytes.
pub fn slice_block(data: &Vec<u8>, within: usize, size: u32) -> (out: Vec<u8>)
    ensures
        out@ == block_slice(data@, within as int, size as int),
{
    let available: usize = if data.len() > within {
        data.len() - within
    } else {
        0
    };
    let wanted: usize = size as usize;
    let count: usize = if wanted < available {
        wanted
    } else {
        available
    };
    let mut out: Vec<u8> = Vec::new();
    let mut i: usize = 0;
    while i < count
        invariant
            i <= count,
            within + count <= data.len() || count == 0,
            out@.len() == i,
            forall|j: int| 0 <= j < i ==> out@[j] == data@[within + j],
        decreases count - i,
    {
        out.push(data[within + i]);
        i = i + 1;
    }
    out
}

/// One cached block: its bytes and the tick of its latest use.
struct CacheEntry {
    data: Vec<u8>,
    access_order: u64,
}

/// What a cache holds, as mathematics: the bytes of each block by its start
/// offset, the tick at which each block was last used, and the tick counter.
pub struct CacheModel {
    pub blocks: Map<u64, Seq<u8>>,
    pub order: Map<u64, u64>,
    pub clock: u64,
}

impl CacheModel {
    /// The cache invariant: at most `MAX_CACHE_BLOCKS` blocks, each keyed by
    /// a block-aligned offset and stamped with a tick of its own that the
    /// counter has already passed.
    pub open spec fn wf(self) -> bool {
        &&& self.blocks.dom().finite()
        &&& self.order.dom() == self.blocks.dom()
        &&& self.blocks.dom().len() <= MAX_CACHE_BLOCKS
        &&& forall|k: u64| #[trigger]
            self.blocks.contains_key(k) ==> block_aligned(k as int) && 1 <= self.order[k]
                <= self.clock
        &&& forall|j: u64, k: u64|
            self.blocks.contains_key(j) && self.blocks.contains_key(k) && j != k
                ==> #[trigger] self.order[j] != #[trigger] self.order[k]
    }

    /// Whether no stored block is longer than a block: what holds of a
    /// cache into which no more than a block's bytes were ever stored at
    /// once.
    pub open spec fn bounded(self) -> bool {
        forall|k: u64| #[trigger]
            self.blocks.contains_key(k) ==> self.blocks[k].len() <= CACHE_BLOCK_SIZE
    }

    /// Whether `k` is a stored block that no other stored block is older than.
    pub open spec fn is_lru(self, k: u64) -> bool {
        &&& self.blocks.contains_key(k)
        &&& forall|j: u64| #[trigger]
            self.blocks.contains_key(j) ==> self.order[k] <= self.order[j]
    }

    /// The least recently used block.
    pub open spec fn lru(self) -> u64 {
        choose|k: u64| self.is_lru(k)
    }

    /// Whether the cache is at capacity, so that the next insert evicts.
    pub open spec fn full(self) -> bool {
        self.blocks.dom().len() >= MAX_CACHE_BLOCKS
    }

    /// The model once room has been made for one insert: unchanged below
    /// capacity, without the least recently used block at capacity.
    pub open spec fn make_room(self) -> CacheModel {
        if self.full() {
            CacheModel {
                blocks: self.blocks.remove(self.lru()),
                order: self.order.remove(self.lru()),
                clock: self.clock,
            }
        } else {
            self
        }
    }

    /// The model after `key` was used: it carries the next tick.
    pub open spec fn touch(self, key: u64) -> CacheModel {
        CacheModel {
            blocks: self.blocks,
            order: self.order.insert(key, (self.clock + 1) as u64),
            clock: (self.clock + 1) as u64,
        }
    }

    /// The model after `data` was stored under `key`.
    pub open spec fn store(self, key: u64, data: Seq<u8>) -> CacheModel {
        let room = self.make_room();
        CacheModel {
            blocks: room.blocks.insert(key, data),
            order: room.order.insert(key, (self.clock + 1) as u64),
            clock: (self.clock + 1) as u64,
        }
    }

    /// What a lookup of `size` bytes at `offset` answers. A stored block
    /// always answers, with the bytes it has from `offset` on, at most
    /// `size` of them and none where it ends at or before `offset`; only
    /// an absent block gives no answer.
    pub open spec fn answer(self, offset: u64, size: u32) -> Option<Seq<u8>> {
        let key = block_start(offset as int) as u64;
        if self.blocks.contains_key(key) {
            Some(block_slice(self.blocks[key], offset - key, size as int))
        } else {
            None
        }
    }

    /// The model after a lookup at `offset`: a stored block is touched,
    /// whether or not it had bytes to give; an absent block changes
    /// nothing.
    pub open spec fn after_lookup(self, offset: u64) -> CacheModel {
        let key = block_start(offset as int) as u64;
        if self.blocks.contains_key(key) {
            self.touch(key)
        } else {
            self
        }
    }
}

/// In a well-formed cache no two blocks are least recently used: a block
/// that no stored block is older than is the one that `lru` names. That
/// there is such a block as soon as any block is stored is
/// `lemma_lru_exists`.
pub proof fn lemma_lru_unique(m: CacheModel, k: u64)
    requires
        m.wf(),
        m.is_lru(k),
    ensures
        m.lru() == k,
{
}

/// Among finitely many keys, at least one, some key carries the least tick.
proof fn lemma_least_tick_exists(keys: Set<u64>, order: Map<u64, u64>)
    requires
        keys.finite(),
        keys.len() > 0,
    ensures
        exists|k: u64|
            keys.contains(k) && forall|j: u64| keys.contains(j) ==> order[k] <= #[trigger] order[j],
    decreases keys.len(),
{
    let a = keys.choose();
    let rest = keys.remove(a);
    if rest.len() == 0 {
        assert forall|j: u64| keys.contains(j) implies order[a] <= #[trigger] order[j] by {
            if j != a {
                assert(rest.contains(j));
            }
        }
    } else {
        lemma_least_tick_exists(rest, order);
        let m = choose|k: u64|
            rest.contains(k) && forall|j: u64| rest.contains(j) ==> order[k] <= #[trigger] order[j];
        let best = if order[a] <= order[m] {
            a
        } else {
            m
        };
        assert forall|j: u64| keys.contains(j) implies order[best] <= #[trigger] order[j] by {
            if j != a {
                assert(rest.contains(j));
            }
        }
    }
}

/// A well-formed cache that holds a block has a least recently used
/// block, and `lru` names it.
pub proof fn lemma_lru_exists(m: CacheModel)
    requires
        m.wf(),
        m.blocks.dom().len() > 0,
    ensures
        m.is_lru(m.lru()),
{
    lemma_least_tick_exists(m.blocks.dom(), m.order);
    let k = choose|k: u64|
        m.blocks.dom().contains(k) && forall|j: u64|
            m.blocks.dom().contains(j) ==> m.order[k] <= #[trigger] m.order[j];
    assert(m.is_lru(k));
}

/// A lookup keeps the cache well-formed: the block that it touches gets a
/// tick that no block has had, and no block comes or goes.
pub proof fn lemma_lookup_keeps_order(m: CacheModel, offset: u64)
    requires
        m.wf(),
        m.clock < u64::MAX,
    ensures
        m.after_lookup(offset).wf(),
        m.after_lookup(offset).blocks == m.blocks,
{
    let after = m.after_lookup(offset);
    assert(after.order.dom() =~= after.blocks.dom());
}

/// One insert keeps the cache within capacity. At capacity the block that
/// leaves is the one with the smallest tick of all; every other block
/// stays as it was, and the stored block carries the newest tick.
pub proof fn lemma_store_evicts_oldest(m: CacheModel, key: u64, data: Seq<u8>)
    requires
        m.wf(),
        block_aligned(key as int),
        m.clock < u64::MAX,
    ensures
        m.store(key, data).wf(),
        m.store(key, data).blocks.dom().len() <= MAX_CACHE_BLOCKS,
        m.store(key, data).blocks.contains_key(key),
        m.store(key, data).blocks[key] == data,
        m.store(key, data).order[key] == m.clock + 1,
        m.store(key, data).clock == m.clock + 1,
        m.full() ==> m.is_lru(m.lru()),
        m.full() && m.lru() != key ==> !m.store(key, data).blocks.contains_key(m.lru()),
        forall|k: u64|
            m.blocks.contains_key(k) && k != key && !(m.full() && k == m.lru()) ==> {
                &&& #[trigger] m.store(key, data).blocks.contains_key(k)
                &&& m.store(key, data).blocks[k] == m.blocks[k]
                &&& m.store(key, data).order[k] == m.order[k]
            },
        forall|k: u64| #[trigger]
            m.store(key, data).blocks.contains_key(k) ==> k == key || m.blocks.contains_key(k),
{
    if m.full() {
        lemma_lru_exists(m);
    }
}

/// Lookups and inserts of at most a block's bytes leave every stored block
/// at most a block long.
pub proof fn lemma_blocks_stay_bounded(m: CacheModel, key: u64, data: Seq<u8>, offset: u64)
    requires
        m.bounded(),
        data.len() <= CACHE_BLOCK_SIZE,
    ensures
        m.store(key, data).bounded(),
        m.after_lookup(offset).bounded(),
{
}

/// The model after the blocks of `items` were stored one after the other.
pub open spec fn store_all(m: CacheModel, items: Seq<(u64, Seq<u8>)>) -> CacheModel
    decreases items.len(),
{
    if items.len() == 0 {
        m
    } else {
        store_all(m, items.drop_last()).store(items.last().0, items.last().1)
    }
}

/// Whatever is inserted, and however often, the cache stays within
/// capacity and its ticks stay distinct.
pub proof fn lemma_inserts_keep_capacity(m: CacheModel, items: Seq<(u64, Seq<u8>)>)
    requires
        m.wf(),
        forall|i: int| 0 <= i < items.len() ==> block_aligned((#[trigger] items[i]).0 as int),
        m.clock + items.len() <= u64::MAX,
    ensures
        store_all(m, items).wf(),
        store_all(m, items).blocks.dom().len() <= MAX_CACHE_BLOCKS,
        store_all(m, items).clock == m.clock + items.len(),
    decreases items.len(),
{
    if items.len() > 0 {
        let head = items.drop_last();
        lemma_inserts_keep_capacity(m, head);
        lemma_store_evicts_oldest(store_all(m, head), items.last().0, items.last().1);
    }
}

/// A bounded cache of blocks keyed by their start offset. A lookup or an
/// insert stamps the block with a fresh tick; an insert at capacity first
/// evicts the block with the oldest tick.
pub struct BlockCache {
    blocks: HashMap<u64, CacheEntry>,
    access_counter: u64,
}

impl View for BlockCache {
    type V = CacheModel;

    closed spec fn view(&self) -> CacheModel {
        CacheModel {
            blocks: self.blocks@.map_values(|e: CacheEntry| e.data@),
            order: self.blocks@.map_values(|e: CacheEntry| e.access_order),
            clock: self.access_counter,
        }
    }
}

impl BlockCache {
    /// The cache invariant, on the cache's model.
    pub open spec fn wf(&self) -> bool {
        self@.wf()
    }

    /// An empty cache whose tick counter stands at zero.
    pub fn new() -> (cache: BlockCache)
        ensures
            cache.wf(),
            cache@.blocks == Map::<u64, Seq<u8>>::empty(),
            cache@.order == Map::<u64, u64>::empty(),
            cache@.clock == 0,
    {
        let cache = BlockCache { blocks: HashMap::new(), access_counter: 0 };
        assert(cache@.order =~= Map::<u64, u64>::empty());
        cache
    }

    /// Number of blocks held.
    pub fn len(&self) -> (n: usize)
        requires
            self.wf(),
        ensures
            n == self@.blocks.dom().len(),
            n <= MAX_CACHE_BLOCKS,
    {
        broadcast use vstd::std_specs::hash::group_hash_axioms;

        assert(self@.blocks.dom() =~= self.blocks@.dom());
        self.blocks.len()
    }

    /// The tick given to the latest lookup hit or insert.
    pub fn access_counter(&self) -> (ticks: u64)
        ensures
            ticks == self@.clock,
    {
        self.access_counter
    }

    /// Whether the block that holds `offset` is stored.
    pub fn contains(&self, offset: u64) -> (held: bool)
        ensures
            held == self@.blocks.contains_key(block_start(offset as int) as u64),
    {
        broadcast use vstd::std_specs::hash::group_hash_axioms;

        let key: u64 = cache_block_offset(offset);
        self.blocks.contains_key(&key)
    }

    /// Looks up `size` bytes at `offset`. A stored block is touched and
    /// answers with the bytes it has from `offset` on, at most `size` of
    /// them, which may be none; the answer is `None` only where the block
    /// is absent.
    pub fn lookup(&mut self, offset: u64, size: u32) -> (found: Option<Vec<u8>>)
        requires
            old(self).wf(),
            old(self)@.clock < u64::MAX,
        ensures
            final(self).wf(),
            final(self)@ == old(self)@.after_lookup(offset),
            match found {
                Some(bytes) => old(self)@.answer(offset, size) == Some(bytes@),
                None => old(self)@.answer(offset, size) is None,
            },
    {
        broadcast use vstd::std_specs::hash::group_hash_axioms;

        let key: u64 = cache_block_offset(offset);
        let ghost before = self@;
        match self.blocks.remove(&key) {
            None => {
                assert(self.blocks@ =~= old(self).blocks@);
                None
            },
            Some(entry) => {
                let within: usize = (offset - key) as usize;
                let bytes = slice_block(&entry.data, within, size);
                self.access_counter = self.access_counter + 1;
                let touched = CacheEntry { data: entry.data, access_order: self.access_counter };
                self.blocks.insert(key, touched);
                proof {
                    let want = before.touch(key);
                    lemma_lookup_keeps_order(before, offset);
                    assert(self@.blocks =~= want.blocks);
                    assert(self@.order =~= want.order);
                }
                Some(bytes)
            },
        }
    }

    /// The stored block with the oldest tick, if any block is stored.
    fn oldest(&self) -> (victim: Option<u64>)
        ensures
            match victim {
                Some(k) => self@.is_lru(k),
                None => self@.blocks.dom() =~= Set::<u64>::empty(),
            },
    {
        broadcast use vstd::std_specs::hash::group_hash_axioms;

        let mut best: Option<(u64, u64)> = None;
        for pair in it: self.blocks.iter()
            invariant
                match best {
                    Some((k, tick)) => {
                        &&& self.blocks@.contains_key(k)
                        &&& self.blocks@[k].access_order == tick
                        &&& forall|i: int|
                            0 <= i < it.index() ==> tick <= (#[trigger] it.seq()[i]).1.access_order
                    },
                    None => it.index() == 0,
                },
        {
            let (k, entry) = pair;
            match best {
                Some((_, tick)) => {
                    if entry.access_order < tick {
                        best = Some((*k, entry.access_order));
                    }
                },
                None => {
                    best = Some((*k, entry.access_order));
                },
            }
        }
        match best {
            Some((k, _)) => Some(k),
            None => None,
        }
    }

    /// Stores `data` as the block that holds `offset`. At capacity the least
    /// recently used block is evicted first; the stored block carries the
    /// next tick. Storing over a block that is already held replaces its
    /// bytes and refreshes its tick.
    pub fn insert(&mut self, offset: u64, data: Vec<u8>)
        requires
            old(self).wf(),
            old(self)@.clock < u64::MAX,
        ensures
            final(self).wf(),
            final(self)@ == old(self)@.store(block_start(offset as int) as u64, data@),
    {
        broadcast use vstd::std_specs::hash::group_hash_axioms;

        let key: u64 = cache_block_offset(offset);
        let ghost before = self@;
        let ghost bytes = data@;
        assert(before.blocks.dom() =~= self.blocks@.dom());
        if self.blocks.len() >= MAX_CACHE_BLOCKS {
            let victim = self.oldest();
            if let Some(k) = victim {
                proof {
                    lemma_lru_unique(before, k);
                }
                self.blocks.remove(&k);
            }
        }
        self.access_counter = self.access_counter + 1;
        self.blocks.insert(key, CacheEntry { data, access_order: self.access_counter });
        proof {
            let want = before.store(key, bytes);
            lemma_store_evicts_oldest(before, key, bytes);
            assert(self@.blocks =~= want.blocks);
            assert(self@.order =~= want.order);
        }
    }
}

} // verus!
