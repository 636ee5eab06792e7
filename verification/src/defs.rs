//! Well-known btrfs constants and the walker's error taxonomy.

use vstd::prelude::*;

verus! {

/// Physical address of the primary superblock.
pub const BTRFS_SUPERBLOCK_OFFSET: u64 = 0x10000;

/// Size in bytes of the packed on-disk superblock record.
pub const BTRFS_SUPERBLOCK_SIZE: usize = 3531;

/// Size in bytes of the superblock's embedded system chunk array.
pub const BTRFS_SYS_CHUNK_ARRAY_SIZE: usize = 2048;

/// Size in bytes of a packed on-disk key `(objectid, type, offset)`.
pub const BTRFS_KEY_SIZE: usize = 17;

/// Size in bytes of a packed metadata block header.
pub const BTRFS_HEADER_SIZE: usize = 101;

/// Size in bytes of a packed leaf item descriptor `(key, offset, size)`.
pub const BTRFS_ITEM_SIZE: usize = 25;

/// Size in bytes of a packed internal-node record `(key, blockptr, generation)`.
pub const BTRFS_KEY_PTR_SIZE: usize = 33;

/// Size in bytes of a packed chunk record including its first inline stripe.
pub const BTRFS_CHUNK_SIZE: usize = 80;

/// Size in bytes of a packed stripe record.
pub const BTRFS_STRIPE_SIZE: usize = 32;

/// Size in bytes of the fixed prefix of a packed directory item.
pub const BTRFS_DIR_ITEM_SIZE: usize = 30;

/// Size in bytes of the fixed prefix of a packed inode ref.
pub const BTRFS_INODE_REF_SIZE: usize = 10;

/// Byte offset of `bytenr` within a packed root item.
pub const BTRFS_ROOT_ITEM_BYTENR_OFFSET: usize = 176;

/// Byte offset of `level` within a packed root item.
pub const BTRFS_ROOT_ITEM_LEVEL_OFFSET: usize = 238;

/// Minimum size in bytes of a packed root item (through its `level` field).
pub const BTRFS_ROOT_ITEM_SIZE: usize = 239;

/// Key type of a chunk item.
pub const BTRFS_CHUNK_ITEM_KEY: u8 = 0xe4;

/// Key type of a root item.
pub const BTRFS_ROOT_ITEM_KEY: u8 = 0x84;

/// Key type of an inode ref.
pub const BTRFS_INODE_REF_KEY: u8 = 0x0c;

/// Key type of a directory item.
pub const BTRFS_DIR_ITEM_KEY: u8 = 0x54;

/// Objectid of the filesystem tree in the root tree.
pub const BTRFS_FS_TREE_OBJECTID: u64 = 5;

/// Directory-item file type of a regular file.
pub const BTRFS_FT_REG_FILE: u8 = 1;

/// The superblock magic, `_BHRfS_M`, as a byte sequence.
pub open spec fn magic_seq() -> Seq<u8> {
    seq![0x5fu8, 0x42u8, 0x48u8, 0x52u8, 0x66u8, 0x53u8, 0x5fu8, 0x4du8]
}

/// Everything that can go wrong during a walk.  Every error is fatal to
/// the walk; nothing is retried.
#[derive(Clone, Copy, Debug, PartialEq, Eq, Structural)]
pub enum WalkError {
    /// A positioned read returned fewer bytes than requested or failed.
    IoFailure,
    /// The superblock magic is not `_BHRfS_M`.
    BadMagic,
    /// A cursor would overrun the system chunk array or a leaf payload.
    ShortRead,
    /// A key in the system chunk array is not a chunk item key.
    UnexpectedSysArrayKey,
    /// A chunk record reports `num_stripes == 0`.
    ZeroStripes,
    /// A logical address that must resolve has no mapping.
    UnmappedLogical,
    /// The root tree root is not a leaf.
    RootTreeNotLeaf,
    /// The root tree holds no root item for the filesystem tree.
    FsTreeNotFound,
    /// A directory or inode name is not valid UTF-8.
    BadName,
}

} // verus!
