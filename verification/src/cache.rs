//! The `lru` crate's `LruCache` and the `rangemap` crate's `RangeMap`, as used by the readers.
//!
//! Each cache is described by what it holds (a map from keys to values); which
//! entries an insertion evicts is left open, as the `lru` crate evicts the least
//! recently used entry and recency is not modelled.
use vstd::prelude::*;
use std::sync::Arc;

verus! {

#[verifier::external_type_specification]
#[verifier::external_body]
#[verifier::reject_recursive_types(K)]
#[verifier::reject_recursive_types(V)]
#[verifier::reject_recursive_types(S)]
pub struct ExLruCache<K, V, S>(lru::LruCache<K, V, S>);

/// A cache of blocks, keyed by block offset.
pub type BlocksLRUCache = lru::LruCache<u64, Arc<Vec<u8>>, std::collections::hash_map::RandomState>;

/// A cache of find results: `(kind, next file offset, key of the found item)`.
pub type FindLRUCache = lru::LruCache<u64, (u8, u64, u64), std::collections::hash_map::RandomState>;

/// The contents of a block cache: block offset to block bytes.
pub uninterp spec fn blocks_cache_contents(c: BlocksLRUCache) -> Map<u64, Seq<u8>>;

/// The contents of a find cache.
pub uninterp spec fn find_cache_contents(c: FindLRUCache) -> Map<u64, (u8, u64, u64)>;

/// `new` holds `old` with `(k, v)` inserted, less possibly some other entries.
pub open spec fn put_result<V>(old: Map<u64, V>, new: Map<u64, V>, k: u64, v: V) -> bool {
    &&& new.contains_key(k)
    &&& new[k] == v
    &&& forall|k2: u64| #[trigger] new.contains_key(k2) && k2 != k ==> old.contains_key(k2) && new[k2] == old[k2]
}

/// `new` holds some of the entries of `old`.
pub open spec fn shrunk<V>(old: Map<u64, V>, new: Map<u64, V>) -> bool {
    forall|k2: u64| #[trigger] new.contains_key(k2) ==> old.contains_key(k2) && new[k2] == old[k2]
}

/// Calls `LruCache::with_hasher` with capacity `cap` and std's `RandomState`; the new cache is empty.
#[verifier::external_body]
pub(crate) fn blocks_cache_new(cap: usize) -> (c: BlocksLRUCache)
    requires
        cap > 0,
    ensures
        forall|k: u64| !blocks_cache_contents(c).contains_key(k),
{
    lru::LruCache::with_hasher(std::num::NonZeroUsize::new(cap).unwrap(), std::collections::hash_map::RandomState::new())
}

/// Calls `LruCache::get`: the block stored at `k`, if any. Only recency changes.
#[verifier::external_body]
pub(crate) fn blocks_cache_get(c: &mut BlocksLRUCache, k: u64) -> (r: Option<Arc<Vec<u8>>>)
    ensures
        blocks_cache_contents(*final(c)) == blocks_cache_contents(*old(c)),
        r is Some <==> blocks_cache_contents(*old(c)).contains_key(k),
        r matches Some(b) ==> b@ == blocks_cache_contents(*old(c))[k],
{
    c.get(&k).cloned()
}

/// Calls `LruCache::put`: `(k, v)` is stored; the least recently used entry may be evicted.
#[verifier::external_body]
pub(crate) fn blocks_cache_put(c: &mut BlocksLRUCache, k: u64, v: Arc<Vec<u8>>)
    ensures
        put_result(blocks_cache_contents(*old(c)), blocks_cache_contents(*final(c)), k, v@),
{
    c.put(k, v);
}

/// Calls `LruCache::pop`: the entry at `k` is removed.
#[verifier::external_body]
pub(crate) fn blocks_cache_pop(c: &mut BlocksLRUCache, k: u64) -> (r: bool)
    ensures
        blocks_cache_contents(*final(c)) == blocks_cache_contents(*old(c)).remove(k),
        r == blocks_cache_contents(*old(c)).contains_key(k),
{
    c.pop(&k).is_some()
}

/// Calls `LruCache::clear`: the cache is empty.
#[verifier::external_body]
pub(crate) fn blocks_cache_clear(c: &mut BlocksLRUCache)
    ensures
        forall|k: u64| !blocks_cache_contents(*final(c)).contains_key(k),
{
    c.clear();
}

/// Calls `LruCache::resize`: entries may be evicted to fit the new capacity.
#[verifier::external_body]
pub(crate) fn blocks_cache_resize(c: &mut BlocksLRUCache, cap: usize)
    requires
        cap > 0,
    ensures
        shrunk(blocks_cache_contents(*old(c)), blocks_cache_contents(*final(c))),
{
    c.resize(std::num::NonZeroUsize::new(cap).unwrap());
}

/// Calls `LruCache::with_hasher` with capacity `cap` and std's `RandomState`; the new cache is empty.
#[verifier::external_body]
pub(crate) fn find_cache_new(cap: usize) -> (c: FindLRUCache)
    requires
        cap > 0,
    ensures
        forall|k: u64| !find_cache_contents(c).contains_key(k),
{
    lru::LruCache::with_hasher(std::num::NonZeroUsize::new(cap).unwrap(), std::collections::hash_map::RandomState::new())
}

/// Calls `LruCache::get`: the value stored at `k`, if any. Only recency changes.
#[verifier::external_body]
pub(crate) fn find_cache_get(c: &mut FindLRUCache, k: u64) -> (r: Option<(u8, u64, u64)>)
    ensures
        find_cache_contents(*final(c)) == find_cache_contents(*old(c)),
        r is Some <==> find_cache_contents(*old(c)).contains_key(k),
        r matches Some(v) ==> v == find_cache_contents(*old(c))[k],
{
    c.get(&k).copied()
}

/// Calls `LruCache::put`: `(k, v)` is stored; the least recently used entry may be evicted.
#[verifier::external_body]
pub(crate) fn find_cache_put(c: &mut FindLRUCache, k: u64, v: (u8, u64, u64))
    ensures
        put_result(find_cache_contents(*old(c)), find_cache_contents(*final(c)), k, v),
{
    c.put(k, v);
}

/// Calls `LruCache::pop`: the entry at `k` is removed.
#[verifier::external_body]
pub(crate) fn find_cache_pop(c: &mut FindLRUCache, k: u64)
    ensures
        find_cache_contents(*final(c)) == find_cache_contents(*old(c)).remove(k),
{
    c.pop(&k);
}

/// Calls `LruCache::clear`: the cache is empty.
#[verifier::external_body]
pub(crate) fn find_cache_clear(c: &mut FindLRUCache)
    ensures
        forall|k: u64| !find_cache_contents(*final(c)).contains_key(k),
{
    c.clear();
}

/// Calls `LruCache::resize`: entries may be evicted to fit the new capacity.
#[verifier::external_body]
pub(crate) fn find_cache_resize(c: &mut FindLRUCache, cap: usize)
    requires
        cap > 0,
    ensures
        shrunk(find_cache_contents(*old(c)), find_cache_contents(*final(c))),
{
    c.resize(std::num::NonZeroUsize::new(cap).unwrap());
}


/// A cache of datetime parse results, keyed by the offset at which a line begins:
/// `(1, dt_beg, dt_end, secs, nsecs, offset)` for a datetime found, `(0, ..)` for none.
pub type ParseLRUCache = lru::LruCache<u64, (u8, usize, usize, i64, u32, i32), std::collections::hash_map::RandomState>;

/// The contents of a parse cache.
pub uninterp spec fn parse_cache_contents(c: ParseLRUCache) -> Map<u64, (u8, usize, usize, i64, u32, i32)>;

/// Calls `LruCache::with_hasher` with capacity `cap` and std's `RandomState`; the new cache is empty.
#[verifier::external_body]
pub(crate) fn parse_cache_new(cap: usize) -> (c: ParseLRUCache)
    requires
        cap > 0,
    ensures
        forall|k: u64| !parse_cache_contents(c).contains_key(k),
{
    lru::LruCache::with_hasher(std::num::NonZeroUsize::new(cap).unwrap(), std::collections::hash_map::RandomState::new())
}

/// Calls `LruCache::get`: the value stored at `k`, if any. Only recency changes.
#[verifier::external_body]
pub(crate) fn parse_cache_get(c: &mut ParseLRUCache, k: u64) -> (r: Option<(u8, usize, usize, i64, u32, i32)>)
    ensures
        parse_cache_contents(*final(c)) == parse_cache_contents(*old(c)),
        r is Some <==> parse_cache_contents(*old(c)).contains_key(k),
        r matches Some(v) ==> v == parse_cache_contents(*old(c))[k],
{
    c.get(&k).copied()
}

/// Calls `LruCache::put`: `(k, v)` is stored; the least recently used entry may be evicted.
#[verifier::external_body]
pub(crate) fn parse_cache_put(c: &mut ParseLRUCache, k: u64, v: (u8, usize, usize, i64, u32, i32))
    ensures
        put_result(parse_cache_contents(*old(c)), parse_cache_contents(*final(c)), k, v),
{
    c.put(k, v);
}

/// Calls `LruCache::clear`: the cache is empty.
#[verifier::external_body]
pub(crate) fn parse_cache_clear(c: &mut ParseLRUCache)
    ensures
        forall|k: u64| !parse_cache_contents(*final(c)).contains_key(k),
{
    c.clear();
}

/// Calls `LruCache::resize`: entries may be evicted to fit the new capacity.
#[verifier::external_body]
pub(crate) fn parse_cache_resize(c: &mut ParseLRUCache, cap: usize)
    requires
        cap > 0,
    ensures
        shrunk(parse_cache_contents(*old(c)), parse_cache_contents(*final(c))),
{
    c.resize(std::num::NonZeroUsize::new(cap).unwrap());
}

#[verifier::external_type_specification]
#[verifier::external_body]
#[verifier::reject_recursive_types(K)]
#[verifier::reject_recursive_types(V)]
pub struct ExRangeMap<K, V>(rangemap::RangeMap<K, V>);

/// A map from ranges of file offsets to file offsets.
pub type FoRangeMap = rangemap::RangeMap<u64, u64>;

/// The contents of a range map: each offset covered, with its value.
pub uninterp spec fn rangemap_contents(m: FoRangeMap) -> Map<u64, u64>;

/// Calls `RangeMap::new`; the map is empty.
#[verifier::external_body]
pub(crate) fn rangemap_new() -> (m: FoRangeMap)
    ensures
        forall|k: u64| !rangemap_contents(m).contains_key(k),
{
    rangemap::RangeMap::new()
}

/// Calls `RangeMap::insert` of `[start, end)`: each offset of the range now has the
/// value `v`; the others keep theirs (the crate's source: overlapped parts of stored
/// ranges are cut away, and touching ranges of the same value are joined).
#[verifier::external_body]
pub(crate) fn rangemap_insert(m: &mut FoRangeMap, start: u64, end: u64, v: u64)
    requires
        start < end,
    ensures
        forall|k: u64| #[trigger] rangemap_contents(*final(m)).contains_key(k) <==>
            ((start <= k < end) || rangemap_contents(*old(m)).contains_key(k)),
        forall|k: u64| #[trigger] rangemap_contents(*final(m)).contains_key(k) ==>
            rangemap_contents(*final(m))[k] == if start <= k < end { v } else { rangemap_contents(*old(m))[k] },
{
    m.insert(start..end, v);
}

/// Calls `RangeMap::get_key_value`: the stored range that covers `k` and its value,
/// as `(start, end, value)`.
#[verifier::external_body]
pub(crate) fn rangemap_get_key_value(m: &FoRangeMap, k: u64) -> (r: Option<(u64, u64, u64)>)
    ensures
        r is Some <==> rangemap_contents(*m).contains_key(k),
        r matches Some((a, b, v)) ==> a <= k < b && v == rangemap_contents(*m)[k],
{
    m.get_key_value(&k).map(|(range, v)| (range.start, range.end, *v))
}

} // verus!
