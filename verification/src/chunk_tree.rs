//! Chunk parsing, the two-phase construction of the chunk interval map,
//! and logical-to-physical resolution.
//!
//! Phase one seeds the map from the superblock's embedded system chunk
//! array, which covers at least the chunk tree's own blocks.  Phase two
//! walks the chunk tree itself: a driver feeds each block here, leaves
//! contribute their chunk items to the map, and internal nodes hand back
//! the logical addresses of their children.

use vstd::prelude::*;

use crate::chunk_map::spec_covers;
use crate::chunk_map::spec_find;
use crate::chunk_map::spec_insert;
use crate::chunk_map::spec_overlaps;
use crate::chunk_map::spec_phys;
use crate::chunk_map::ChunkTreeCache;
use crate::chunk_map::ChunkTreeKey;
use crate::chunk_map::ChunkTreeValue;
use crate::codec::le16;
use crate::codec::le32;
use crate::codec::le64;
use crate::codec::read_u16;
use crate::codec::read_u32;
use crate::codec::read_u64;
use crate::codec::read_u8;
use crate::codec::read_vec;
use crate::defs::WalkError;
use crate::defs::BTRFS_CHUNK_ITEM_KEY;
use crate::node::leaf_items_in_bounds;
use crate::node::node_ptrs_in_bounds;
use crate::node::parse_btrfs_leaf;
use crate::node::parse_btrfs_node;
use crate::node::spec_item_at;
use crate::node::spec_key_ptr_at;
use crate::node::spec_level;
use crate::node::spec_nritems;
use crate::structs::BtrfsChunk;
use crate::structs::BtrfsStripe;
use crate::structs::BtrfsSuperblock;

verus! {

/// `s` is the typed view of the 32 packed stripe bytes at `off` in `b`.
pub open spec fn stripe_matches(s: BtrfsStripe, b: Seq<u8>, off: int) -> bool {
    &&& s.devid == le64(b, off)
    &&& s.offset == le64(b, off + 8)
    &&& s.dev_uuid@ == b.subrange(off + 16, off + 32)
}

/// `c` is the typed view of the 80 packed chunk bytes at `off` in `b`
/// (the fixed fields plus the first inline stripe).
pub open spec fn chunk_matches(c: BtrfsChunk, b: Seq<u8>, off: int) -> bool {
    &&& c.length == le64(b, off)
    &&& c.owner == le64(b, off + 8)
    &&& c.stripe_len == le64(b, off + 16)
    &&& c.ty == le64(b, off + 24)
    &&& c.io_align == le32(b, off + 32)
    &&& c.io_width == le32(b, off + 36)
    &&& c.sector_size == le32(b, off + 40)
    &&& c.num_stripes == le16(b, off + 44)
    &&& c.sub_stripes == le16(b, off + 46)
    &&& stripe_matches(c.stripe, b, off + 48)
}

/// Reads the packed chunk record (with its first stripe) at `off`.
pub fn parse_chunk(b: &[u8], off: usize) -> (r: BtrfsChunk)
    requires
        off + 80 <= b@.len(),
    ensures
        r.wf(),
        chunk_matches(r, b@, off as int),
{
    let n = b.len();
    proof {
        assert(off + 80 <= n);
    }
    BtrfsChunk {
        length: read_u64(b, off),
        owner: read_u64(b, off + 8),
        stripe_len: read_u64(b, off + 16),
        ty: read_u64(b, off + 24),
        io_align: read_u32(b, off + 32),
        io_width: read_u32(b, off + 36),
        sector_size: read_u32(b, off + 40),
        num_stripes: read_u16(b, off + 44),
        sub_stripes: read_u16(b, off + 46),
        stripe: BtrfsStripe {
            devid: read_u64(b, off + 48),
            offset: read_u64(b, off + 56),
            dev_uuid: read_vec(b, off + 64, 16),
        },
    }
}

/// What one chunk record contributes to the interval map: the logical
/// range start (from its key), the range size, the physical offset of
/// stripe 0, and the stripe count.
#[derive(Clone, Copy, Debug, PartialEq, Eq, Structural)]
pub struct ChunkMapping {
    pub start: u64,
    pub size: u64,
    pub phys: u64,
    pub num_stripes: u16,
}

/// The interval map after inserting every mapping of `s`, in order,
/// starting from `init`.  Colliding ranges are dropped by `spec_insert`,
/// so the earliest mapping of an address wins.
pub open spec fn apply_chunk_mappings(
    init: Seq<(ChunkTreeKey, ChunkTreeValue)>,
    s: Seq<ChunkMapping>,
) -> Seq<(ChunkTreeKey, ChunkTreeValue)>
    decreases s.len(),
{
    if s.len() == 0 {
        init
    } else {
        spec_insert(
            apply_chunk_mappings(init, s.drop_last()),
            ChunkTreeKey { start: s.last().start, size: s.last().size },
            ChunkTreeValue { offset: s.last().phys },
        )
    }
}

/// The range a mapping inserts.
pub open spec fn mapping_key(m: ChunkMapping) -> ChunkTreeKey {
    ChunkTreeKey { start: m.start, size: m.size }
}

/// The map entry a mapping inserts.
pub open spec fn mapping_entry(m: ChunkMapping) -> (ChunkTreeKey, ChunkTreeValue) {
    (mapping_key(m), ChunkTreeValue { offset: m.phys })
}

/// Applying a run of mappings keeps every entry of the initial map, and
/// every entry of the result stems from the initial map or from one of
/// the mappings.
pub proof fn lemma_apply_entries(init: Seq<(ChunkTreeKey, ChunkTreeValue)>, s: Seq<ChunkMapping>)
    ensures
        forall|e: (ChunkTreeKey, ChunkTreeValue)| #[trigger]
            apply_chunk_mappings(init, s).contains(e) ==> init.contains(e) || exists|i: int|
                0 <= i < s.len() && e == mapping_entry(s[i]),
        forall|e: (ChunkTreeKey, ChunkTreeValue)|
            init.contains(e) ==> #[trigger] apply_chunk_mappings(init, s).contains(e),
    decreases s.len(),
{
    if s.len() > 0 {
        let t = s.drop_last();
        let prev = apply_chunk_mappings(init, t);
        lemma_apply_entries(init, t);
        crate::chunk_map::lemma_insert_entries(
            prev,
            mapping_key(s.last()),
            ChunkTreeValue { offset: s.last().phys },
        );
        assert forall|e: (ChunkTreeKey, ChunkTreeValue)| #[trigger]
            apply_chunk_mappings(init, s).contains(e) implies init.contains(e) || exists|i: int|
            0 <= i < s.len() && e == mapping_entry(s[i]) by {
            if prev.contains(e) {
                if !init.contains(e) {
                    let i = choose|i: int| 0 <= i < t.len() && e == mapping_entry(t[i]);
                    assert(s[i] == t[i]);
                    assert(e == mapping_entry(s[i]));
                }
            } else {
                assert(e == mapping_entry(s[s.len() - 1]));
            }
        }
    }
}

/// When the mapped ranges are pairwise disjoint, no insertion collides:
/// every non-empty mapping of the run ends up in the map.
pub proof fn lemma_disjoint_mappings_all_mapped(s: Seq<ChunkMapping>, j: int)
    requires
        0 <= j < s.len(),
        s[j].size > 0,
        forall|i1: int, i2: int|
            0 <= i1 < i2 < s.len() ==> !spec_overlaps(
                mapping_key(#[trigger] s[i1]),
                mapping_key(#[trigger] s[i2]),
            ),
    ensures
        apply_chunk_mappings(Seq::empty(), s).contains(mapping_entry(s[j])),
    decreases s.len(),
{
    let t = s.drop_last();
    let last = s.last();
    let prev = apply_chunk_mappings(Seq::empty(), t);
    let k = mapping_key(last);
    let v = ChunkTreeValue { offset: last.phys };
    crate::chunk_map::lemma_insert_entries(prev, k, v);
    if j == s.len() - 1 {
        assert(!crate::chunk_map::spec_collides(prev, k)) by {
            if crate::chunk_map::spec_collides(prev, k) {
                let i = choose|i: int|
                    0 <= i < prev.len() && spec_overlaps(#[trigger] prev[i].0, k);
                assert(prev.contains(prev[i]));
                lemma_apply_entries(Seq::empty(), t);
                let i2 = choose|i2: int| 0 <= i2 < t.len() && prev[i] == mapping_entry(t[i2]);
                assert(s[i2] == t[i2]);
                assert(spec_overlaps(mapping_key(s[i2]), mapping_key(s[j])));
            }
        }
    } else {
        assert forall|i1: int, i2: int| 0 <= i1 < i2 < t.len() implies !spec_overlaps(
            mapping_key(#[trigger] t[i1]),
            mapping_key(#[trigger] t[i2]),
        ) by {
            assert(t[i1] == s[i1] && t[i2] == s[i2]);
        }
        assert(t[j] == s[j]);
        lemma_disjoint_mappings_all_mapped(t, j);
    }
}

/// Any address covered by one mapping of a pairwise-disjoint run, such
/// as the chunk tree root inside the system chunk array's ranges, is
/// found by a point query on the bootstrapped map.
pub proof fn lemma_covered_mapping_found(s: Seq<ChunkMapping>, j: int, l: u64)
    requires
        0 <= j < s.len(),
        spec_covers(mapping_key(s[j]), l),
        forall|i1: int, i2: int|
            0 <= i1 < i2 < s.len() ==> !spec_overlaps(
                mapping_key(#[trigger] s[i1]),
                mapping_key(#[trigger] s[i2]),
            ),
    ensures
        spec_find(apply_chunk_mappings(Seq::empty(), s), l) is Some,
{
    let cache = apply_chunk_mappings(Seq::empty(), s);
    lemma_disjoint_mappings_all_mapped(s, j);
    let i = choose|i: int| 0 <= i < cache.len() && cache[i] == mapping_entry(s[j]);
    assert(spec_covers(cache[i].0, l));
    crate::chunk_map::lemma_find_covers(cache, l);
}

/// The stripe counts worth warning about (more than one stripe), in
/// encounter order.
pub open spec fn multi_stripe_warnings(s: Seq<ChunkMapping>) -> Seq<u16>
    decreases s.len(),
{
    if s.len() == 0 {
        Seq::empty()
    } else {
        multi_stripe_warnings(s.drop_last()) + (if s.last().num_stripes > 1 {
            seq![s.last().num_stripes]
        } else {
            Seq::<u16>::empty()
        })
    }
}

/// The parse of the system chunk array `b` from cursor `off` up to
/// `size`: alternating 17-byte keys and variable-size chunk records.
/// Mirrors, check for check, what the bootstrap loop does.
pub open spec fn sys_parse(b: Seq<u8>, size: int, off: int) -> Result<Seq<ChunkMapping>, WalkError>
    decreases size - off,
{
    if off >= size {
        Ok(Seq::empty())
    } else if off + 17 > size {
        Err(WalkError::ShortRead)
    } else if b[off + 8] != BTRFS_CHUNK_ITEM_KEY {
        Err(WalkError::UnexpectedSysArrayKey)
    } else if off + 97 > size {
        Err(WalkError::ShortRead)
    } else if le16(b, off + 61) == 0 {
        Err(WalkError::ZeroStripes)
    } else {
        let ns = le16(b, off + 61) as int;
        let next = off + 97 + 32 * (ns - 1);
        if next > size {
            Err(WalkError::ShortRead)
        } else {
            let m = ChunkMapping {
                start: le64(b, off + 9),
                size: le64(b, off + 17),
                phys: le64(b, off + 73),
                num_stripes: le16(b, off + 61),
            };
            match sys_parse(b, size, next) {
                Ok(rest) => Ok(seq![m] + rest),
                Err(e) => Err(e),
            }
        }
    }
}

/// Seeds a fresh interval map from the superblock's system chunk array.
///
/// Returns the map together with the stripe counts of every multi-stripe
/// chunk met, in order, for the driver to warn about.  Fails with
/// `ShortRead` when a cursor would overrun the array (or the declared
/// array size overruns the 2048-byte buffer), `UnexpectedSysArrayKey` on
/// a key that is not a chunk item key, and `ZeroStripes` on a stripeless
/// chunk, each exactly as the spec-level parse does.
pub fn bootstrap_chunk_tree(sb: &BtrfsSuperblock) -> (r: Result<
    (ChunkTreeCache, Vec<u16>),
    WalkError,
>)
    requires
        sb.wf(),
    ensures
        sb.sys_chunk_array_size > 2048 ==> r == Err::<(ChunkTreeCache, Vec<u16>), WalkError>(
            WalkError::ShortRead,
        ),
        sb.sys_chunk_array_size <= 2048 ==> match sys_parse(
            sb.sys_chunk_array@,
            sb.sys_chunk_array_size as int,
            0,
        ) {
            Ok(mappings) => {
                &&& r matches Ok((cache, warnings))
                &&& cache.wf()
                &&& cache@ == apply_chunk_mappings(Seq::empty(), mappings)
                &&& warnings@ == multi_stripe_warnings(mappings)
            },
            Err(e) => r == Err::<(ChunkTreeCache, Vec<u16>), WalkError>(e),
        },
{
    let size32 = sb.sys_chunk_array_size;
    if size32 > 2048 {
        return Err(WalkError::ShortRead);
    }
    let size = size32 as usize;
    let arr = sb.sys_chunk_array.as_slice();
    let ghost b = sb.sys_chunk_array@;
    let mut cache = ChunkTreeCache::new();
    let mut warnings: Vec<u16> = Vec::new();
    let ghost mut done: Seq<ChunkMapping> = Seq::empty();
    let mut off: usize = 0;
    while off < size
        invariant
            sb.wf(),
            b == sb.sys_chunk_array@,
            arr@ == b,
            b.len() == 2048,
            size == sb.sys_chunk_array_size,
            size <= 2048,
            off <= size,
            cache.wf(),
            cache@ == apply_chunk_mappings(Seq::empty(), done),
            warnings@ == multi_stripe_warnings(done),
            sys_parse(b, size as int, 0) == (match sys_parse(b, size as int, off as int) {
                Ok(rest) => Ok::<Seq<ChunkMapping>, WalkError>(done + rest),
                Err(e) => Err::<Seq<ChunkMapping>, WalkError>(e),
            }),
        decreases size - off,
    {
        if off + 17 > size {
            proof {
                assert(sys_parse(b, size as int, off as int) == Err::<Seq<ChunkMapping>, WalkError>(
                    WalkError::ShortRead,
                ));
            }
            return Err(WalkError::ShortRead);
        }
        let ty = read_u8(arr, off + 8);
        if ty != BTRFS_CHUNK_ITEM_KEY {
            proof {
                assert(sys_parse(b, size as int, off as int) == Err::<Seq<ChunkMapping>, WalkError>(
                    WalkError::UnexpectedSysArrayKey,
                ));
            }
            return Err(WalkError::UnexpectedSysArrayKey);
        }
        if off + 97 > size {
            proof {
                assert(sys_parse(b, size as int, off as int) == Err::<Seq<ChunkMapping>, WalkError>(
                    WalkError::ShortRead,
                ));
            }
            return Err(WalkError::ShortRead);
        }
        let ns = read_u16(arr, off + 61);
        if ns == 0 {
            proof {
                assert(sys_parse(b, size as int, off as int) == Err::<Seq<ChunkMapping>, WalkError>(
                    WalkError::ZeroStripes,
                ));
            }
            return Err(WalkError::ZeroStripes);
        }
        let next = off + 97 + 32 * ((ns as usize) - 1);
        if next > size {
            proof {
                assert(sys_parse(b, size as int, off as int) == Err::<Seq<ChunkMapping>, WalkError>(
                    WalkError::ShortRead,
                ));
            }
            return Err(WalkError::ShortRead);
        }
        let start = read_u64(arr, off + 9);
        let length = read_u64(arr, off + 17);
        let phys = read_u64(arr, off + 73);
        let ghost m = ChunkMapping { start, size: length, phys, num_stripes: ns };
        cache.insert(ChunkTreeKey { start, size: length }, ChunkTreeValue { offset: phys });
        if ns > 1 {
            warnings.push(ns);
        }
        proof {
            let rest0 = sys_parse(b, size as int, off as int);
            let rest1 = sys_parse(b, size as int, next as int);
            assert(rest0 == (match rest1 {
                Ok(rest) => Ok::<Seq<ChunkMapping>, WalkError>(seq![m] + rest),
                Err(e) => Err::<Seq<ChunkMapping>, WalkError>(e),
            }));
            let done1 = done.push(m);
            assert(done1.drop_last() =~= done);
            assert(cache@ == apply_chunk_mappings(Seq::empty(), done1));
            assert(warnings@ =~= multi_stripe_warnings(done1));
            if rest1 is Ok {
                assert(done + (seq![m] + rest1->Ok_0) =~= done1 + rest1->Ok_0);
            }
            done = done1;
        }
        off = next;
    }
    proof {
        assert(sys_parse(b, size as int, off as int) == Ok::<Seq<ChunkMapping>, WalkError>(
            Seq::empty(),
        ));
        assert(done + Seq::<ChunkMapping>::empty() =~= done);
    }
    Ok((cache, warnings))
}

/// The chunk mappings contributed by the first `n` items of the chunk
/// tree leaf `b`: one mapping per chunk item, read from the item's
/// payload, in item order.  `ShortRead` marks the first chunk record
/// that would overrun the block.
pub open spec fn leaf_chunk_mappings(b: Seq<u8>, n: int) -> Result<Seq<ChunkMapping>, WalkError>
    decreases n,
{
    if n <= 0 {
        Ok(Seq::empty())
    } else {
        match leaf_chunk_mappings(b, n - 1) {
            Ok(ms) => {
                let item = spec_item_at(b, n - 1);
                if item.key.ty != BTRFS_CHUNK_ITEM_KEY {
                    Ok(ms)
                } else if 101 + item.offset + 80 > b.len() {
                    Err(WalkError::ShortRead)
                } else {
                    let off = 101 + item.offset as int;
                    Ok(
                        ms.push(
                            ChunkMapping {
                                start: item.key.offset,
                                size: le64(b, off),
                                phys: le64(b, off + 56),
                                num_stripes: le16(b, off + 44),
                            },
                        ),
                    )
                }
            },
            Err(e) => Err(e),
        }
    }
}

/// Once the mapping run of a leaf prefix fails, every longer prefix
/// fails the same way.
proof fn lemma_leaf_mappings_err(b: Seq<u8>, k: int, n: int)
    requires
        0 <= k <= n,
        leaf_chunk_mappings(b, k) is Err,
    ensures
        leaf_chunk_mappings(b, n) == leaf_chunk_mappings(b, k),
    decreases n - k,
{
    if k < n {
        lemma_leaf_mappings_err(b, k, n - 1);
    }
}

/// Feeds one chunk tree block into the map.
///
/// A leaf contributes every chunk item's mapping and hands back no
/// children; an internal node leaves the map unchanged and hands back
/// its children's logical addresses, in order, for the driver to
/// resolve, read, and feed back here.
pub fn chunk_tree_block(block: &[u8], cache: &mut ChunkTreeCache) -> (r: Result<
    Vec<u64>,
    WalkError,
>)
    requires
        old(cache).wf(),
    ensures
        final(cache).wf(),
        block@.len() < 101 ==> r == Err::<Vec<u64>, WalkError>(WalkError::ShortRead)
            && final(cache)@ == old(cache)@,
        block@.len() >= 101 && spec_level(block@) == 0 ==> {
            &&& !leaf_items_in_bounds(block@) ==> r == Err::<Vec<u64>, WalkError>(
                WalkError::ShortRead,
            ) && final(cache)@ == old(cache)@
            &&& leaf_items_in_bounds(block@) ==> match leaf_chunk_mappings(
                block@,
                spec_nritems(block@) as int,
            ) {
                Ok(ms) => {
                    &&& r matches Ok(v) && v@ == Seq::<u64>::empty()
                    &&& final(cache)@ == apply_chunk_mappings(old(cache)@, ms)
                },
                Err(e) => r == Err::<Vec<u64>, WalkError>(e),
            }
        },
        block@.len() >= 101 && spec_level(block@) != 0 ==> {
            &&& !node_ptrs_in_bounds(block@) ==> r == Err::<Vec<u64>, WalkError>(
                WalkError::ShortRead,
            )
            &&& node_ptrs_in_bounds(block@) ==> (r matches Ok(v) && v@.len() == spec_nritems(
                block@,
            ) && (forall|i: int|
                0 <= i < v@.len() ==> v@[i] == spec_key_ptr_at(block@, i).blockptr))
            &&& final(cache)@ == old(cache)@
        },
{
    let len = block.len();
    if len < 101 {
        return Err(WalkError::ShortRead);
    }
    let level = read_u8(block, 100);
    if level == 0 {
        let items = match parse_btrfs_leaf(block) {
            Ok(items) => items,
            Err(e) => {
                return Err(e);
            },
        };
        let n = items.len();
        let ghost mut done: Seq<ChunkMapping> = Seq::empty();
        let mut i: usize = 0;
        while i < n
            invariant
                old(cache).wf(),
                cache.wf(),
                block@.len() == len <= usize::MAX,
                block@.len() >= 101,
                spec_level(block@) == 0,
                leaf_items_in_bounds(block@),
                n == spec_nritems(block@),
                n == items@.len(),
                forall|j: int| 0 <= j < n ==> items@[j] == spec_item_at(block@, j),
                i <= n,
                leaf_chunk_mappings(block@, i as int) == Ok::<Seq<ChunkMapping>, WalkError>(done),
                cache@ == apply_chunk_mappings(old(cache)@, done),
            decreases n - i,
        {
            let item = items[i];
            if item.key.ty == BTRFS_CHUNK_ITEM_KEY {
                if 101 + (item.offset as u64) + 80 > len as u64 {
                    proof {
                        lemma_leaf_mappings_err(block@, i + 1, n as int);
                    }
                    return Err(WalkError::ShortRead);
                }
                let off = 101 + (item.offset as usize);
                let length = read_u64(block, off);
                let phys = read_u64(block, off + 56);
                let ns = read_u16(block, off + 44);
                let ghost m = ChunkMapping {
                    start: item.key.offset,
                    size: length,
                    phys,
                    num_stripes: ns,
                };
                cache.insert(
                    ChunkTreeKey { start: item.key.offset, size: length },
                    ChunkTreeValue { offset: phys },
                );
                proof {
                    let done1 = done.push(m);
                    assert(done1.drop_last() =~= done);
                    assert(cache@ == apply_chunk_mappings(old(cache)@, done1));
                    done = done1;
                }
            }
            i = i + 1;
        }
        Ok(Vec::new())
    } else {
        let ptrs = match parse_btrfs_node(block) {
            Ok(ptrs) => ptrs,
            Err(e) => {
                return Err(e);
            },
        };
        let n = ptrs.len();
        let mut children: Vec<u64> = Vec::new();
        let mut i: usize = 0;
        while i < n
            invariant
                n == ptrs@.len(),
                n == spec_nritems(block@),
                forall|j: int| 0 <= j < n ==> ptrs@[j] == spec_key_ptr_at(block@, j),
                i <= n,
                children@.len() == i,
                forall|j: int| 0 <= j < i ==> children@[j] == spec_key_ptr_at(block@, j).blockptr,
            decreases n - i,
        {
            children.push(ptrs[i].blockptr);
            i = i + 1;
        }
        Ok(children)
    }
}

/// Translates a logical address that must resolve.
///
/// Fails with `UnmappedLogical` exactly when no range of the map covers
/// the address, or the translated address does not fit in 64 bits.
pub fn resolve(cache: &ChunkTreeCache, logical: u64) -> (r: Result<u64, WalkError>)
    ensures
        match spec_find(cache@, logical) {
            Some(e) => {
                if spec_phys(e, logical) <= u64::MAX {
                    r matches Ok(p) && p == spec_phys(e, logical)
                } else {
                    r == Err::<u64, WalkError>(WalkError::UnmappedLogical)
                }
            },
            None => r == Err::<u64, WalkError>(WalkError::UnmappedLogical),
        },
{
    match cache.offset(logical) {
        Some(p) => Ok(p),
        None => Err(WalkError::UnmappedLogical),
    }
}

/// Locates the block that a tree root's logical address names: its
/// physical offset and the size of the mapped range holding it.
///
/// Fails with `UnmappedLogical` exactly when the address does not
/// resolve.
pub fn block_location(cache: &ChunkTreeCache, logical: u64) -> (r: Result<(u64, u64), WalkError>)
    ensures
        match spec_find(cache@, logical) {
            Some(e) => {
                if spec_phys(e, logical) <= u64::MAX {
                    r matches Ok(ps) && ps.0 == spec_phys(e, logical) && ps.1 == e.0.size
                } else {
                    r == Err::<(u64, u64), WalkError>(WalkError::UnmappedLogical)
                }
            },
            None => r == Err::<(u64, u64), WalkError>(WalkError::UnmappedLogical),
        },
{
    let kv = match cache.mapping_kv(logical) {
        Some(kv) => kv,
        None => {
            return Err(WalkError::UnmappedLogical);
        },
    };
    match cache.offset(logical) {
        Some(p) => Ok((p, kv.0.size)),
        None => Err(WalkError::UnmappedLogical),
    }
}

} // verus!
