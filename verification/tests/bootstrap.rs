//! Bootstrapping the chunk interval map from the system chunk array.

use btrfs_walk::chunk_tree::bootstrap_chunk_tree;
use btrfs_walk::defs::WalkError;
use btrfs_walk::superblock::parse_superblock;
use btrfs_walk::structs::BtrfsSuperblock;

const SB_SIZE: usize = 3531;

/// One `(key, chunk, stripes)` triple of the system chunk array.
fn sys_triple(start: u64, length: u64, phys: u64, num_stripes: u16) -> Vec<u8> {
    let mut t = Vec::new();
    // Key: objectid, type = CHUNK_ITEM_KEY, offset = logical start.
    t.extend_from_slice(&2u64.to_le_bytes());
    t.push(0xe4);
    t.extend_from_slice(&start.to_le_bytes());
    // Chunk: length, owner, stripe_len, type.
    t.extend_from_slice(&length.to_le_bytes());
    t.extend_from_slice(&2u64.to_le_bytes());
    t.extend_from_slice(&65536u64.to_le_bytes());
    t.extend_from_slice(&2u64.to_le_bytes());
    // io_align, io_width, sector_size.
    t.extend_from_slice(&4096u32.to_le_bytes());
    t.extend_from_slice(&4096u32.to_le_bytes());
    t.extend_from_slice(&4096u32.to_le_bytes());
    // num_stripes, sub_stripes.
    t.extend_from_slice(&num_stripes.to_le_bytes());
    t.extend_from_slice(&0u16.to_le_bytes());
    // One inline stripe per num_stripes; stripe 0 carries `phys`.
    for i in 0..num_stripes {
        t.extend_from_slice(&1u64.to_le_bytes());
        t.extend_from_slice(&(phys + (i as u64) * 0x1000_0000).to_le_bytes());
        t.extend_from_slice(&[0u8; 16]);
    }
    t
}

fn superblock_with_sys_array(chunk_root: u64, array: &[u8]) -> BtrfsSuperblock {
    let mut b = vec![0u8; SB_SIZE];
    b[64..72].copy_from_slice(b"_BHRfS_M");
    b[88..96].copy_from_slice(&chunk_root.to_le_bytes());
    b[148..152].copy_from_slice(&4096u32.to_le_bytes());
    b[160..164].copy_from_slice(&(array.len() as u32).to_le_bytes());
    b[811..811 + array.len()].copy_from_slice(array);
    parse_superblock(&b).expect("valid magic must parse")
}

#[test]
fn single_triple_parses_cleanly() {
    let array = sys_triple(0x20000, 0x100000, 0x20000, 1);
    let sb = superblock_with_sys_array(0x20000, &array);
    let (cache, warnings) = bootstrap_chunk_tree(&sb).expect("one triple must bootstrap");
    assert_eq!(cache.len(), 1);
    assert_eq!(cache.entry_at(0).0.start, 0x20000);
    assert_eq!(cache.entry_at(0).0.size, 0x100000);
    assert_eq!(cache.entry_at(0).1.offset, 0x20000);
    assert!(warnings.is_empty());
}

#[test]
fn bootstrap_covers_chunk_root() {
    let array = sys_triple(0x20000, 0x100000, 0x77000, 1);
    let sb = superblock_with_sys_array(0x20000, &array);
    let (cache, _) = bootstrap_chunk_tree(&sb).expect("must bootstrap");
    // After bootstrap the chunk tree root's logical address resolves.
    assert_eq!(cache.offset(sb.chunk_root), Some(0x77000));
}

#[test]
fn single_stripe_cursor_lands_on_next_key() {
    // Two triples back to back: the cursor must leave the first chunk
    // exactly at the second key, or the second triple is misread.
    let mut array = sys_triple(0x20000, 0x1000, 0x20000, 1);
    array.extend_from_slice(&sys_triple(0x50000, 0x1000, 0x50000, 1));
    let sb = superblock_with_sys_array(0x20000, &array);
    let (cache, warnings) = bootstrap_chunk_tree(&sb).expect("two triples must bootstrap");
    assert_eq!(cache.len(), 2);
    assert_eq!(cache.offset(0x20000), Some(0x20000));
    assert_eq!(cache.offset(0x50000), Some(0x50000));
    assert!(warnings.is_empty());
}

#[test]
fn multi_stripe_cursor_skips_inline_stripes() {
    // A two-stripe chunk is followed by another triple; the cursor must
    // advance past both inline stripes before reading the next key.
    let mut array = sys_triple(0x20000, 0x1000, 0x20000, 2);
    array.extend_from_slice(&sys_triple(0x50000, 0x1000, 0x50000, 1));
    let sb = superblock_with_sys_array(0x20000, &array);
    let (cache, warnings) = bootstrap_chunk_tree(&sb).expect("must bootstrap");
    assert_eq!(cache.len(), 2);
    // Stripe 0's physical offset is used, not stripe 1's.
    assert_eq!(cache.offset(0x20000), Some(0x20000));
    assert_eq!(cache.offset(0x50000), Some(0x50000));
    assert_eq!(warnings, vec![2u16]);
}

#[test]
fn zero_stripes_is_rejected() {
    let mut array = sys_triple(0x20000, 0x1000, 0x20000, 1);
    // Overwrite num_stripes (offset 17 + 44 within the triple) with 0.
    array[61] = 0;
    array[62] = 0;
    array.truncate(97); // keep the stripe bytes consistent with one stripe
    let sb = superblock_with_sys_array(0x20000, &array);
    assert_eq!(bootstrap_chunk_tree(&sb).unwrap_err(), WalkError::ZeroStripes);
}

#[test]
fn unexpected_key_type_is_rejected() {
    let mut array = sys_triple(0x20000, 0x1000, 0x20000, 1);
    array[8] = 0x84; // not a chunk item key
    let sb = superblock_with_sys_array(0x20000, &array);
    assert_eq!(
        bootstrap_chunk_tree(&sb).unwrap_err(),
        WalkError::UnexpectedSysArrayKey
    );
}

#[test]
fn truncated_key_is_short_read() {
    let array = sys_triple(0x20000, 0x1000, 0x20000, 1);
    let sb = superblock_with_sys_array(0x20000, &array[..10]);
    assert_eq!(bootstrap_chunk_tree(&sb).unwrap_err(), WalkError::ShortRead);
}

#[test]
fn truncated_chunk_is_short_read() {
    let array = sys_triple(0x20000, 0x1000, 0x20000, 1);
    let sb = superblock_with_sys_array(0x20000, &array[..40]);
    assert_eq!(bootstrap_chunk_tree(&sb).unwrap_err(), WalkError::ShortRead);
}

#[test]
fn truncated_extra_stripe_is_short_read() {
    // A two-stripe chunk whose second stripe is cut off mid-record.
    let array = sys_triple(0x20000, 0x1000, 0x20000, 2);
    let sb = superblock_with_sys_array(0x20000, &array[..110]);
    assert_eq!(bootstrap_chunk_tree(&sb).unwrap_err(), WalkError::ShortRead);
}

#[test]
fn oversized_declared_array_is_short_read() {
    let mut b = vec![0u8; SB_SIZE];
    b[64..72].copy_from_slice(b"_BHRfS_M");
    b[160..164].copy_from_slice(&3000u32.to_le_bytes());
    let sb = parse_superblock(&b).expect("valid magic must parse");
    assert_eq!(bootstrap_chunk_tree(&sb).unwrap_err(), WalkError::ShortRead);
}

#[test]
fn duplicate_sys_entries_keep_first_mapping() {
    // The same logical range appears twice with different stripe
    // offsets: the first mapping wins.
    let mut array = sys_triple(0x20000, 0x1000, 0x11111, 1);
    array.extend_from_slice(&sys_triple(0x20000, 0x1000, 0x22222, 1));
    let sb = superblock_with_sys_array(0x20000, &array);
    let (cache, _) = bootstrap_chunk_tree(&sb).expect("must bootstrap");
    assert_eq!(cache.len(), 1);
    assert_eq!(cache.offset(0x20000), Some(0x11111));
}
