//! Decoding of raw metadata blocks into a typed header plus either leaf
//! item descriptors or internal-node key pointers.

use vstd::prelude::*;

use crate::codec::le32;
use crate::codec::le64;
use crate::codec::read_u32;
use crate::codec::read_u64;
use crate::codec::read_u8;
use crate::codec::read_vec;
use crate::defs::WalkError;
use crate::structs::BtrfsHeader;
use crate::structs::BtrfsItem;
use crate::structs::BtrfsKey;
use crate::structs::BtrfsKeyPtr;

verus! {

/// The key packed at byte offset `off` of `b`.
pub open spec fn spec_key_at(b: Seq<u8>, off: int) -> BtrfsKey {
    BtrfsKey { objectid: le64(b, off), ty: b[off + 8], offset: le64(b, off + 9) }
}

/// The `nritems` field of the header at the start of `b`.
pub open spec fn spec_nritems(b: Seq<u8>) -> u32 {
    le32(b, 96)
}

/// The `level` field of the header at the start of `b`.
pub open spec fn spec_level(b: Seq<u8>) -> u8 {
    b[100]
}

/// `h` is the typed view of the header bytes at the start of `b`.
pub open spec fn header_matches(h: BtrfsHeader, b: Seq<u8>) -> bool {
    &&& h.wf()
    &&& h.csum@ == b.subrange(0, 32)
    &&& h.fsid@ == b.subrange(32, 48)
    &&& h.bytenr == le64(b, 48)
    &&& h.flags == le64(b, 56)
    &&& h.chunk_tree_uuid@ == b.subrange(64, 80)
    &&& h.generation == le64(b, 80)
    &&& h.owner == le64(b, 88)
    &&& h.nritems == spec_nritems(b)
    &&& h.level == spec_level(b)
}

/// The `i`-th leaf item descriptor of the block `b`, packed immediately
/// after the header.
pub open spec fn spec_item_at(b: Seq<u8>, i: int) -> BtrfsItem {
    BtrfsItem {
        key: spec_key_at(b, 101 + 25 * i),
        offset: le32(b, 101 + 25 * i + 17),
        size: le32(b, 101 + 25 * i + 21),
    }
}

/// The `i`-th key pointer of the internal-node block `b`.
pub open spec fn spec_key_ptr_at(b: Seq<u8>, i: int) -> BtrfsKeyPtr {
    BtrfsKeyPtr {
        key: spec_key_at(b, 101 + 33 * i),
        blockptr: le64(b, 101 + 33 * i + 17),
        generation: le64(b, 101 + 33 * i + 25),
    }
}

/// All `nritems` leaf item descriptors of `b` lie within the block.
pub open spec fn leaf_items_in_bounds(b: Seq<u8>) -> bool {
    &&& b.len() >= 101
    &&& 101 + 25 * (spec_nritems(b) as int) <= b.len()
}

/// All `nritems` key pointers of `b` lie within the block.
pub open spec fn node_ptrs_in_bounds(b: Seq<u8>) -> bool {
    &&& b.len() >= 101
    &&& 101 + 33 * (spec_nritems(b) as int) <= b.len()
}

/// Reads the packed key at byte offset `off`.
pub fn parse_key(b: &[u8], off: usize) -> (r: BtrfsKey)
    requires
        off + 17 <= b@.len(),
    ensures
        r == spec_key_at(b@, off as int),
{
    let n = b.len();
    proof {
        assert(off + 17 <= n);
    }
    BtrfsKey {
        objectid: read_u64(b, off),
        ty: read_u8(b, off + 8),
        offset: read_u64(b, off + 9),
    }
}

/// Parses the header that begins the metadata block `block`.
///
/// Fails with `ShortRead` exactly when the block cannot hold a header.
pub fn parse_btrfs_header(block: &[u8]) -> (r: Result<BtrfsHeader, WalkError>)
    ensures
        block@.len() >= 101 ==> (r matches Ok(h) && header_matches(h, block@)),
        block@.len() < 101 ==> r == Err::<BtrfsHeader, WalkError>(WalkError::ShortRead),
{
    if block.len() < 101 {
        return Err(WalkError::ShortRead);
    }
    Ok(BtrfsHeader {
        csum: read_vec(block, 0, 32),
        fsid: read_vec(block, 32, 16),
        bytenr: read_u64(block, 48),
        flags: read_u64(block, 56),
        chunk_tree_uuid: read_vec(block, 64, 16),
        generation: read_u64(block, 80),
        owner: read_u64(block, 88),
        nritems: read_u32(block, 96),
        level: read_u8(block, 100),
    })
}

/// Parses the `nritems` leaf item descriptors packed after the header.
///
/// Fails with `ShortRead` exactly when the descriptor array would overrun
/// the block.
pub fn parse_btrfs_leaf(block: &[u8]) -> (r: Result<Vec<BtrfsItem>, WalkError>)
    ensures
        r is Ok <==> leaf_items_in_bounds(block@),
        r matches Ok(v) ==> {
            &&& v@.len() == spec_nritems(block@)
            &&& forall|i: int| 0 <= i < v@.len() ==> v@[i] == spec_item_at(block@, i)
        },
        r is Err ==> r == Err::<Vec<BtrfsItem>, WalkError>(WalkError::ShortRead),
{
    let len = block.len();
    if len < 101 {
        return Err(WalkError::ShortRead);
    }
    let nritems = read_u32(block, 96);
    if 101 + (nritems as u64) * 25 > len as u64 {
        return Err(WalkError::ShortRead);
    }
    let n = nritems as usize;
    let mut items: Vec<BtrfsItem> = Vec::new();
    let mut i: usize = 0;
    while i < n
        invariant
            n == spec_nritems(block@),
            101 + 25 * (n as int) <= block@.len(),
            block@.len() == len <= usize::MAX,
            i <= n,
            items@.len() == i,
            forall|j: int| 0 <= j < i ==> items@[j] == spec_item_at(block@, j),
        decreases n - i,
    {
        let off = 101 + 25 * i;
        let item = BtrfsItem {
            key: parse_key(block, off),
            offset: read_u32(block, off + 17),
            size: read_u32(block, off + 21),
        };
        items.push(item);
        i = i + 1;
    }
    Ok(items)
}

/// Parses the `nritems` key pointers packed after the header.
///
/// Fails with `ShortRead` exactly when the pointer array would overrun
/// the block.
pub fn parse_btrfs_node(block: &[u8]) -> (r: Result<Vec<BtrfsKeyPtr>, WalkError>)
    ensures
        r is Ok <==> node_ptrs_in_bounds(block@),
        r matches Ok(v) ==> {
            &&& v@.len() == spec_nritems(block@)
            &&& forall|i: int| 0 <= i < v@.len() ==> v@[i] == spec_key_ptr_at(block@, i)
        },
        r is Err ==> r == Err::<Vec<BtrfsKeyPtr>, WalkError>(WalkError::ShortRead),
{
    let len = block.len();
    if len < 101 {
        return Err(WalkError::ShortRead);
    }
    let nritems = read_u32(block, 96);
    if 101 + (nritems as u64) * 33 > len as u64 {
        return Err(WalkError::ShortRead);
    }
    let n = nritems as usize;
    let mut ptrs: Vec<BtrfsKeyPtr> = Vec::new();
    let mut i: usize = 0;
    while i < n
        invariant
            n == spec_nritems(block@),
            101 + 33 * (n as int) <= block@.len(),
            block@.len() == len <= usize::MAX,
            i <= n,
            ptrs@.len() == i,
            forall|j: int| 0 <= j < i ==> ptrs@[j] == spec_key_ptr_at(block@, j),
        decreases n - i,
    {
        let off = 101 + 33 * i;
        let ptr = BtrfsKeyPtr {
            key: parse_key(block, off),
            blockptr: read_u64(block, off + 17),
            generation: read_u64(block, off + 25),
        };
        ptrs.push(ptr);
        i = i + 1;
    }
    Ok(ptrs)
}

} // verus!
