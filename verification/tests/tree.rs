//! Block decoding: headers, leaf items, node pointers, root-tree scan.

use btrfs_walk::chunk_map::ChunkTreeCache;
use btrfs_walk::chunk_tree::chunk_tree_block;
use btrfs_walk::defs::WalkError;
use btrfs_walk::node::parse_btrfs_header;
use btrfs_walk::node::parse_btrfs_leaf;
use btrfs_walk::node::parse_btrfs_node;
use btrfs_walk::root_tree::find_fs_tree_root;

const HEADER_SIZE: usize = 101;

/// A block buffer with the given `nritems` and `level` in its header.
fn block_with_header(size: usize, nritems: u32, level: u8) -> Vec<u8> {
    let mut b = vec![0u8; size];
    b[48..56].copy_from_slice(&0x20000u64.to_le_bytes()); // bytenr
    b[96..100].copy_from_slice(&nritems.to_le_bytes());
    b[100] = level;
    b
}

/// Writes a 17-byte key at `off`.
fn put_key(b: &mut [u8], off: usize, objectid: u64, ty: u8, key_offset: u64) {
    b[off..off + 8].copy_from_slice(&objectid.to_le_bytes());
    b[off + 8] = ty;
    b[off + 9..off + 17].copy_from_slice(&key_offset.to_le_bytes());
}

/// Writes the `i`-th leaf item descriptor.
fn put_item(b: &mut [u8], i: usize, objectid: u64, ty: u8, key_offset: u64, off: u32, size: u32) {
    let base = HEADER_SIZE + 25 * i;
    put_key(b, base, objectid, ty, key_offset);
    b[base + 17..base + 21].copy_from_slice(&off.to_le_bytes());
    b[base + 21..base + 25].copy_from_slice(&size.to_le_bytes());
}

#[test]
fn header_fields_decode() {
    let mut b = block_with_header(4096, 7, 1);
    b[80..88].copy_from_slice(&99u64.to_le_bytes()); // generation
    b[88..96].copy_from_slice(&3u64.to_le_bytes()); // owner
    let h = parse_btrfs_header(&b).expect("full block must parse");
    assert_eq!(h.bytenr, 0x20000);
    assert_eq!(h.generation, 99);
    assert_eq!(h.owner, 3);
    assert_eq!(h.nritems, 7);
    assert_eq!(h.level, 1);
}

#[test]
fn short_block_is_short_read() {
    let b = vec![0u8; 100];
    assert_eq!(parse_btrfs_header(&b).unwrap_err(), WalkError::ShortRead);
    assert_eq!(parse_btrfs_leaf(&b).unwrap_err(), WalkError::ShortRead);
    assert_eq!(parse_btrfs_node(&b).unwrap_err(), WalkError::ShortRead);
}

#[test]
fn leaf_items_decode_in_order() {
    let mut b = block_with_header(4096, 2, 0);
    put_item(&mut b, 0, 10, 0x54, 77, 500, 40);
    put_item(&mut b, 1, 11, 0xe4, 88, 600, 50);
    let items = parse_btrfs_leaf(&b).expect("items in bounds");
    assert_eq!(items.len(), 2);
    assert_eq!(items[0].key.objectid, 10);
    assert_eq!(items[0].key.ty, 0x54);
    assert_eq!(items[0].key.offset, 77);
    assert_eq!(items[0].offset, 500);
    assert_eq!(items[0].size, 40);
    assert_eq!(items[1].key.objectid, 11);
    assert_eq!(items[1].offset, 600);
}

#[test]
fn empty_leaf_yields_no_items() {
    let b = block_with_header(4096, 0, 0);
    let items = parse_btrfs_leaf(&b).expect("empty leaf parses");
    assert!(items.is_empty());
}

#[test]
fn empty_leaf_feeds_nothing_and_recurses_nowhere() {
    let b = block_with_header(4096, 0, 0);
    let mut cache = ChunkTreeCache::new();
    let children = chunk_tree_block(&b, &mut cache).expect("empty leaf is fine");
    assert!(children.is_empty());
    assert_eq!(cache.len(), 0);
}

#[test]
fn overlong_item_array_is_short_read() {
    // 200 items need 101 + 5000 bytes; the block has 1024.
    let b = block_with_header(1024, 200, 0);
    assert_eq!(parse_btrfs_leaf(&b).unwrap_err(), WalkError::ShortRead);
}

#[test]
fn node_ptrs_decode_in_order() {
    let mut b = block_with_header(4096, 2, 1);
    put_key(&mut b, HEADER_SIZE, 1, 0xe4, 0x30000);
    b[HEADER_SIZE + 17..HEADER_SIZE + 25].copy_from_slice(&0xabcd_u64.to_le_bytes());
    b[HEADER_SIZE + 25..HEADER_SIZE + 33].copy_from_slice(&5u64.to_le_bytes());
    put_key(&mut b, HEADER_SIZE + 33, 2, 0xe4, 0x40000);
    b[HEADER_SIZE + 50..HEADER_SIZE + 58].copy_from_slice(&0xef01_u64.to_le_bytes());
    let ptrs = parse_btrfs_node(&b).expect("ptrs in bounds");
    assert_eq!(ptrs.len(), 2);
    assert_eq!(ptrs[0].key.offset, 0x30000);
    assert_eq!(ptrs[0].blockptr, 0xabcd);
    assert_eq!(ptrs[0].generation, 5);
    assert_eq!(ptrs[1].blockptr, 0xef01);
}

#[test]
fn root_tree_internal_node_is_rejected() {
    let b = block_with_header(4096, 0, 1);
    assert_eq!(find_fs_tree_root(&b).unwrap_err(), WalkError::RootTreeNotLeaf);
}

#[test]
fn root_tree_without_fs_item_fails() {
    let mut b = block_with_header(4096, 1, 0);
    put_item(&mut b, 0, 4, 0x84, 0, 500, 439); // objectid 4, not FS_TREE
    assert_eq!(find_fs_tree_root(&b).unwrap_err(), WalkError::FsTreeNotFound);
}

#[test]
fn root_tree_picks_last_fs_item() {
    // Reverse iteration selects the most recent subvolume entry: the
    // later item's payload, not the earlier one's, names the root.
    let mut b = block_with_header(4096, 2, 0);
    put_item(&mut b, 0, 5, 0x84, 0, 500, 439);
    put_item(&mut b, 1, 5, 0x84, 1, 1500, 439);
    // bytenr lives at payload offset 176, level at 238.
    b[HEADER_SIZE + 500 + 176..HEADER_SIZE + 500 + 184]
        .copy_from_slice(&0x111111u64.to_le_bytes());
    b[HEADER_SIZE + 1500 + 176..HEADER_SIZE + 1500 + 184]
        .copy_from_slice(&0x222222u64.to_le_bytes());
    b[HEADER_SIZE + 1500 + 238] = 0;
    let ri = find_fs_tree_root(&b).expect("fs root item exists");
    assert_eq!(ri.bytenr, 0x222222);
    assert_eq!(ri.level, 0);
}

#[test]
fn root_item_payload_out_of_bounds_is_short_read() {
    let mut b = block_with_header(4096, 1, 0);
    put_item(&mut b, 0, 5, 0x84, 0, 3990, 439); // payload would overrun
    assert_eq!(find_fs_tree_root(&b).unwrap_err(), WalkError::ShortRead);
}
