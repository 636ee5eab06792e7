//! End-to-end walks over synthetic in-memory images, and path
//! reconstruction.

use btrfs_walk::chunk_tree::block_location;
use btrfs_walk::chunk_tree::bootstrap_chunk_tree;
use btrfs_walk::chunk_tree::chunk_tree_block;
use btrfs_walk::chunk_tree::resolve;
use btrfs_walk::defs::WalkError;
use btrfs_walk::fs_tree::format_line;
use btrfs_walk::fs_tree::fs_tree_block;
use btrfs_walk::fs_tree::inode_ref_step;
use btrfs_walk::fs_tree::FsStep;
use btrfs_walk::fs_tree::InodeRefStep;
use btrfs_walk::fs_tree::PathBuilder;
use btrfs_walk::root_tree::find_fs_tree_root;
use btrfs_walk::structs::BtrfsKey;
use btrfs_walk::superblock::parse_superblock;

const HEADER_SIZE: usize = 101;
const NODE_SIZE: usize = 4096;

fn read_at(image: &[u8], off: u64, len: usize) -> Result<Vec<u8>, WalkError> {
    let off = off as usize;
    if off.checked_add(len).map_or(true, |end| end > image.len()) {
        return Err(WalkError::IoFailure);
    }
    Ok(image[off..off + len].to_vec())
}

/// The driver loop: reads blocks and feeds them to the library, exactly
/// as the command-line front end does.
fn walk_image(image: &[u8]) -> Result<(Vec<String>, Vec<u16>), WalkError> {
    let sb_bytes = read_at(image, 0x10000, 3531)?;
    let sb = parse_superblock(&sb_bytes)?;
    let (mut cache, warnings) = bootstrap_chunk_tree(&sb)?;

    // Load the full chunk tree, depth first.
    let (phys, size) = block_location(&cache, sb.chunk_root)?;
    let chunk_root = read_at(image, phys, size as usize)?;
    let mut pending = chunk_tree_block(&chunk_root, &mut cache)?;
    pending.reverse();
    while let Some(logical) = pending.pop() {
        let phys = resolve(&cache, logical)?;
        let block = read_at(image, phys, sb.node_size as usize)?;
        let mut children = chunk_tree_block(&block, &mut cache)?;
        children.reverse();
        pending.append(&mut children);
    }

    // Find the filesystem tree root through the root tree.
    let (rphys, rsize) = block_location(&cache, sb.root)?;
    let root_tree_root = read_at(image, rphys, rsize as usize)?;
    let ri = find_fs_tree_root(&root_tree_root)?;
    let fphys = resolve(&cache, ri.bytenr)?;
    let fs_root = read_at(image, fphys, sb.node_size as usize)?;

    // Walk the filesystem tree, emitting one line per regular file.
    let mut lines: Vec<String> = Vec::new();
    let mut blocks = vec![fs_root.clone()];
    while let Some(block) = blocks.pop() {
        match fs_tree_block(&block)? {
            FsStep::Leaf(entries) => {
                for e in entries {
                    let mut pb = PathBuilder::start(e.parent_inode);
                    while let Some(inode) = pb.target() {
                        let mut search = fs_root.clone();
                        loop {
                            match inode_ref_step(&search, inode)? {
                                InodeRefStep::Found(k, name) => {
                                    assert_eq!(k.objectid, inode);
                                    pb.feed(k, &name);
                                    break;
                                }
                                InodeRefStep::Descend(l) => {
                                    let p = resolve(&cache, l)?;
                                    search = read_at(image, p, sb.node_size as usize)?;
                                }
                                InodeRefStep::NotFound => {
                                    panic!("no inode ref for inode {}", inode)
                                }
                            }
                        }
                    }
                    let line = format_line(&pb.prefix, &e.name);
                    lines.push(String::from_utf8(line).expect("names were validated"));
                }
            }
            FsStep::Internal(children) => {
                for l in children.into_iter().rev() {
                    let p = resolve(&cache, l)?;
                    blocks.push(read_at(image, p, sb.node_size as usize)?);
                }
            }
        }
    }
    Ok((lines, warnings))
}

/// One `(key, chunk, stripes)` triple of the system chunk array.
fn sys_triple(start: u64, length: u64, phys: u64, num_stripes: u16) -> Vec<u8> {
    let mut t = Vec::new();
    t.extend_from_slice(&2u64.to_le_bytes());
    t.push(0xe4);
    t.extend_from_slice(&start.to_le_bytes());
    t.extend_from_slice(&length.to_le_bytes());
    t.extend_from_slice(&2u64.to_le_bytes());
    t.extend_from_slice(&65536u64.to_le_bytes());
    t.extend_from_slice(&2u64.to_le_bytes());
    t.extend_from_slice(&4096u32.to_le_bytes());
    t.extend_from_slice(&4096u32.to_le_bytes());
    t.extend_from_slice(&4096u32.to_le_bytes());
    t.extend_from_slice(&num_stripes.to_le_bytes());
    t.extend_from_slice(&0u16.to_le_bytes());
    for i in 0..num_stripes {
        t.extend_from_slice(&1u64.to_le_bytes());
        // Stripe 0 carries the real offset; later stripes point nowhere
        // readable, so any use of them would fail the walk.
        t.extend_from_slice(&(phys + (i as u64) * 0x1000_0000).to_le_bytes());
        t.extend_from_slice(&[0u8; 16]);
    }
    t
}

fn put_header(img: &mut [u8], at: usize, bytenr: u64, nritems: u32, level: u8) {
    img[at + 48..at + 56].copy_from_slice(&bytenr.to_le_bytes());
    img[at + 96..at + 100].copy_from_slice(&nritems.to_le_bytes());
    img[at + 100] = level;
}

fn put_key(b: &mut [u8], off: usize, objectid: u64, ty: u8, key_offset: u64) {
    b[off..off + 8].copy_from_slice(&objectid.to_le_bytes());
    b[off + 8] = ty;
    b[off + 9..off + 17].copy_from_slice(&key_offset.to_le_bytes());
}

fn put_item(
    b: &mut [u8],
    i: usize,
    objectid: u64,
    ty: u8,
    key_offset: u64,
    off: u32,
    size: u32,
) {
    let base = HEADER_SIZE + 25 * i;
    put_key(b, base, objectid, ty, key_offset);
    b[base + 17..base + 21].copy_from_slice(&off.to_le_bytes());
    b[base + 21..base + 25].copy_from_slice(&size.to_le_bytes());
}

/// A directory-item payload for a regular file called `name`.
fn dir_item_payload(name: &[u8]) -> Vec<u8> {
    let mut p = Vec::new();
    put_key_vec(&mut p, 300, 1, 0); // location: the file's inode item
    p.extend_from_slice(&1u64.to_le_bytes()); // transid
    p.extend_from_slice(&0u16.to_le_bytes()); // data_len
    p.extend_from_slice(&(name.len() as u16).to_le_bytes());
    p.push(1); // FT_REG_FILE
    p.extend_from_slice(name);
    p
}

fn put_key_vec(p: &mut Vec<u8>, objectid: u64, ty: u8, key_offset: u64) {
    p.extend_from_slice(&objectid.to_le_bytes());
    p.push(ty);
    p.extend_from_slice(&key_offset.to_le_bytes());
}

/// An inode-ref payload holding `name`.
fn inode_ref_payload(name: &[u8]) -> Vec<u8> {
    let mut p = Vec::new();
    p.extend_from_slice(&0u64.to_le_bytes()); // index
    p.extend_from_slice(&(name.len() as u16).to_le_bytes());
    p.extend_from_slice(name);
    p
}

/// A whole image: superblock at 0x10000, chunk tree root at 0x20000,
/// root tree root at 0x21000, filesystem tree root at 0x22000 (all
/// identity-mapped by one bootstrap chunk), plus any extra blocks.
fn build_image(sys_array: &[u8], chunk_root_block: &[u8], fs_blocks: &[(usize, Vec<u8>)]) -> Vec<u8> {
    let mut img = vec![0u8; 0x130000];
    // Superblock.
    let sb = 0x10000;
    img[sb + 64..sb + 72].copy_from_slice(b"_BHRfS_M");
    img[sb + 80..sb + 88].copy_from_slice(&0x21000u64.to_le_bytes()); // root
    img[sb + 88..sb + 96].copy_from_slice(&0x20000u64.to_le_bytes()); // chunk_root
    img[sb + 148..sb + 152].copy_from_slice(&(NODE_SIZE as u32).to_le_bytes());
    img[sb + 160..sb + 164].copy_from_slice(&(sys_array.len() as u32).to_le_bytes());
    img[sb + 811..sb + 811 + sys_array.len()].copy_from_slice(sys_array);
    // Chunk tree root.
    img[0x20000..0x20000 + chunk_root_block.len()].copy_from_slice(chunk_root_block);
    // Root tree root: one root item for the filesystem tree.
    put_header(&mut img, 0x21000, 0x21000, 1, 0);
    put_item(&mut img[0x21000..0x22000], 0, 5, 0x84, 0, 500, 439);
    let payload = 0x21000 + HEADER_SIZE + 500;
    img[payload + 176..payload + 184].copy_from_slice(&0x22000u64.to_le_bytes());
    img[payload + 238] = 0;
    // Filesystem tree blocks.
    for (at, block) in fs_blocks {
        img[*at..*at + block.len()].copy_from_slice(block);
    }
    img
}

fn empty_leaf(bytenr: u64) -> Vec<u8> {
    let mut b = vec![0u8; NODE_SIZE];
    put_header(&mut b, 0, bytenr, 0, 0);
    b
}

/// A flat filesystem leaf: files a, b, c in the root directory
/// (inode 256), plus the root directory's self-referencing inode ref.
fn flat_fs_leaf() -> Vec<u8> {
    let mut b = vec![0u8; NODE_SIZE];
    put_header(&mut b, 0, 0x22000, 4, 0);
    let payloads: [(u64, u8, u64, u32, Vec<u8>); 4] = [
        (256, 0x54, 0, 300, dir_item_payload(b"a")),
        (256, 0x54, 1, 400, dir_item_payload(b"b")),
        (256, 0x54, 2, 500, dir_item_payload(b"c")),
        (256, 0x0c, 256, 600, inode_ref_payload(b"")),
    ];
    for (i, (objectid, ty, key_offset, off, payload)) in payloads.iter().enumerate() {
        put_item(&mut b, i, *objectid, *ty, *key_offset, *off, payload.len() as u32);
        let at = HEADER_SIZE + *off as usize;
        b[at..at + payload.len()].copy_from_slice(payload);
    }
    b
}

fn identity_sys_array() -> Vec<u8> {
    sys_triple(0x20000, 0x100000, 0x20000, 1)
}

#[test]
fn empty_fs_tree_emits_no_lines() {
    let img = build_image(
        &identity_sys_array(),
        &empty_leaf(0x20000),
        &[(0x22000, empty_leaf(0x22000))],
    );
    let (lines, warnings) = walk_image(&img).expect("empty tree walks fine");
    assert!(lines.is_empty());
    assert!(warnings.is_empty());
}

#[test]
fn flat_directory_lists_files_in_leaf_order() {
    let img = build_image(
        &identity_sys_array(),
        &empty_leaf(0x20000),
        &[(0x22000, flat_fs_leaf())],
    );
    let (lines, _) = walk_image(&img).expect("flat image walks fine");
    assert_eq!(lines, vec!["filename=/a", "filename=/b", "filename=/c"]);
}

#[test]
fn nested_directory_reconstructs_full_path() {
    // /d/e/f: f is a file in directory e (inode 258), e sits in d
    // (inode 257), d sits in the subvolume root (inode 256).  The
    // filesystem tree root is an internal node, so the walk and the
    // inode-ref search both descend a level.
    let mut leaf = vec![0u8; NODE_SIZE];
    put_header(&mut leaf, 0, 0x23000, 4, 0);
    let payloads: [(u64, u8, u64, u32, Vec<u8>); 4] = [
        (256, 0x0c, 256, 300, inode_ref_payload(b"")),
        (257, 0x0c, 256, 400, inode_ref_payload(b"d")),
        (258, 0x0c, 257, 500, inode_ref_payload(b"e")),
        (258, 0x54, 7, 600, dir_item_payload(b"f")),
    ];
    for (i, (objectid, ty, key_offset, off, payload)) in payloads.iter().enumerate() {
        put_item(&mut leaf, i, *objectid, *ty, *key_offset, *off, payload.len() as u32);
        let at = HEADER_SIZE + *off as usize;
        leaf[at..at + payload.len()].copy_from_slice(payload);
    }
    let mut root = vec![0u8; NODE_SIZE];
    put_header(&mut root, 0, 0x22000, 1, 1);
    put_key(&mut root, HEADER_SIZE, 0, 0, 0);
    root[HEADER_SIZE + 17..HEADER_SIZE + 25].copy_from_slice(&0x23000u64.to_le_bytes());
    let img = build_image(
        &identity_sys_array(),
        &empty_leaf(0x20000),
        &[(0x22000, root), (0x23000, leaf)],
    );
    let (lines, _) = walk_image(&img).expect("nested image walks fine");
    assert_eq!(lines, vec!["filename=/d/e/f"]);
}

#[test]
fn multi_stripe_chunk_warns_and_uses_stripe_zero() {
    let img = build_image(
        &sys_triple(0x20000, 0x100000, 0x20000, 2),
        &empty_leaf(0x20000),
        &[(0x22000, flat_fs_leaf())],
    );
    let (lines, warnings) = walk_image(&img).expect("stripe 0 maps every block");
    assert_eq!(warnings, vec![2u16]);
    assert_eq!(lines.len(), 3);
}

#[test]
fn walking_twice_gives_identical_output() {
    let img = build_image(
        &identity_sys_array(),
        &empty_leaf(0x20000),
        &[(0x22000, flat_fs_leaf())],
    );
    let first = walk_image(&img).expect("first walk");
    let second = walk_image(&img).expect("second walk");
    assert_eq!(first, second);
}

#[test]
fn unmapped_chunk_tree_pointer_fails() {
    // The chunk tree root is an internal node whose child pointer lies
    // outside everything the bootstrap map covers.
    let mut root = vec![0u8; NODE_SIZE];
    put_header(&mut root, 0, 0x20000, 1, 1);
    put_key(&mut root, HEADER_SIZE, 0, 0xe4, 0);
    root[HEADER_SIZE + 17..HEADER_SIZE + 25].copy_from_slice(&0x900000u64.to_le_bytes());
    let img = build_image(&identity_sys_array(), &root, &[(0x22000, empty_leaf(0x22000))]);
    assert_eq!(walk_image(&img).unwrap_err(), WalkError::UnmappedLogical);
}

#[test]
fn chunk_tree_leaf_extends_the_map() {
    // A chunk item in the chunk tree leaf maps a second logical range;
    // afterwards addresses in that range resolve.
    let mut leaf = vec![0u8; NODE_SIZE];
    put_header(&mut leaf, 0, 0x20000, 1, 0);
    let mut chunk = Vec::new();
    chunk.extend_from_slice(&0x1000u64.to_le_bytes()); // length
    chunk.extend_from_slice(&2u64.to_le_bytes());
    chunk.extend_from_slice(&65536u64.to_le_bytes());
    chunk.extend_from_slice(&2u64.to_le_bytes());
    chunk.extend_from_slice(&4096u32.to_le_bytes());
    chunk.extend_from_slice(&4096u32.to_le_bytes());
    chunk.extend_from_slice(&4096u32.to_le_bytes());
    chunk.extend_from_slice(&1u16.to_le_bytes());
    chunk.extend_from_slice(&0u16.to_le_bytes());
    chunk.extend_from_slice(&1u64.to_le_bytes()); // stripe devid
    chunk.extend_from_slice(&0x5000u64.to_le_bytes()); // stripe offset
    chunk.extend_from_slice(&[0u8; 16]);
    put_item(&mut leaf, 0, 2, 0xe4, 0x800000, 300, chunk.len() as u32);
    leaf[HEADER_SIZE + 300..HEADER_SIZE + 300 + chunk.len()].copy_from_slice(&chunk);

    let sb_bytes = {
        let img = build_image(&identity_sys_array(), &leaf, &[]);
        read_at(&img, 0x10000, 3531).unwrap()
    };
    let sb = parse_superblock(&sb_bytes).unwrap();
    let (mut cache, _) = bootstrap_chunk_tree(&sb).unwrap();
    assert_eq!(cache.offset(0x800000), None);
    let children = chunk_tree_block(&leaf, &mut cache).unwrap();
    assert!(children.is_empty());
    assert_eq!(cache.offset(0x800000), Some(0x5000));
    assert_eq!(cache.offset(0x800123), Some(0x5123));
}

#[test]
fn invalid_utf8_name_is_bad_name() {
    let mut b = vec![0u8; NODE_SIZE];
    put_header(&mut b, 0, 0x22000, 1, 0);
    let payload = dir_item_payload(&[0xff, 0xfe]);
    put_item(&mut b, 0, 256, 0x54, 0, 300, payload.len() as u32);
    b[HEADER_SIZE + 300..HEADER_SIZE + 300 + payload.len()].copy_from_slice(&payload);
    assert_eq!(fs_tree_block(&b).unwrap_err(), WalkError::BadName);
}

#[test]
fn non_regular_entries_are_skipped() {
    // A directory item whose file type is not a regular file yields no
    // line and its name is never validated.
    let mut b = vec![0u8; NODE_SIZE];
    put_header(&mut b, 0, 0x22000, 1, 0);
    let mut payload = dir_item_payload(b"sub");
    payload[29] = 2; // FT_DIR
    put_item(&mut b, 0, 256, 0x54, 0, 300, payload.len() as u32);
    b[HEADER_SIZE + 300..HEADER_SIZE + 300 + payload.len()].copy_from_slice(&payload);
    match fs_tree_block(&b).unwrap() {
        FsStep::Leaf(entries) => assert!(entries.is_empty()),
        FsStep::Internal(_) => panic!("leaf expected"),
    }
}

#[test]
fn self_referencing_inode_ref_roots_the_path() {
    let mut pb = PathBuilder::start(256);
    assert_eq!(pb.target(), Some(256));
    let key = BtrfsKey { objectid: 256, ty: 0x0c, offset: 256 };
    pb.feed(key, b"");
    assert_eq!(pb.target(), None);
    assert_eq!(pb.prefix, b"/");
}

#[test]
fn path_prefix_prepends_parent_names() {
    let mut pb = PathBuilder::start(258);
    pb.feed(BtrfsKey { objectid: 258, ty: 0x0c, offset: 257 }, b"e");
    assert_eq!(pb.target(), Some(257));
    pb.feed(BtrfsKey { objectid: 257, ty: 0x0c, offset: 256 }, b"d");
    pb.feed(BtrfsKey { objectid: 256, ty: 0x0c, offset: 256 }, b"");
    assert_eq!(pb.target(), None);
    assert_eq!(pb.prefix, b"/d/e/");
    let line = format_line(&pb.prefix, b"f");
    assert_eq!(line, b"filename=/d/e/f");
}
