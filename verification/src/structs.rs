//! Typed views of the packed on-disk btrfs records.
//!
//! Each struct mirrors one packed little-endian record.  Fixed byte arrays
//! are held as vectors whose lengths are pinned by each record's
//! well-formedness predicate.

use vstd::prelude::*;

verus! {

/// A 17-byte on-disk key `(objectid, type, offset)`.
#[derive(Clone, Copy, Debug, PartialEq, Eq, Structural)]
pub struct BtrfsKey {
    pub objectid: u64,
    pub ty: u8,
    pub offset: u64,
}

impl BtrfsKey {
    /// Lexicographic order over `(objectid, ty, offset)`.
    pub open spec fn spec_le(self, other: BtrfsKey) -> bool {
        if self.objectid != other.objectid {
            self.objectid < other.objectid
        } else if self.ty != other.ty {
            self.ty < other.ty
        } else {
            self.offset <= other.offset
        }
    }

    /// Compares keys in lexicographic order over `(objectid, ty, offset)`.
    pub fn le(&self, other: &BtrfsKey) -> (r: bool)
        ensures
            r == self.spec_le(*other),
    {
        if self.objectid != other.objectid {
            self.objectid < other.objectid
        } else if self.ty != other.ty {
            self.ty < other.ty
        } else {
            self.offset <= other.offset
        }
    }
}

/// One device-side segment of a chunk; only stripe 0 is ever consulted.
#[derive(Clone, Debug)]
pub struct BtrfsStripe {
    pub devid: u64,
    pub offset: u64,
    pub dev_uuid: Vec<u8>,
}

impl BtrfsStripe {
    pub open spec fn wf(self) -> bool {
        self.dev_uuid@.len() == 16
    }
}

/// A chunk record: one logical range and its first inline stripe.
#[derive(Clone, Debug)]
pub struct BtrfsChunk {
    /// Size in bytes of the logical range this chunk maps.
    pub length: u64,
    pub owner: u64,
    pub stripe_len: u64,
    pub ty: u64,
    pub io_align: u32,
    pub io_width: u32,
    pub sector_size: u32,
    pub num_stripes: u16,
    pub sub_stripes: u16,
    /// The first inline stripe.
    pub stripe: BtrfsStripe,
}

impl BtrfsChunk {
    pub open spec fn wf(self) -> bool {
        self.stripe.wf()
    }
}

/// The header that begins every metadata block (node or leaf).
#[derive(Clone, Debug)]
pub struct BtrfsHeader {
    pub csum: Vec<u8>,
    pub fsid: Vec<u8>,
    /// This block's own logical address.
    pub bytenr: u64,
    pub flags: u64,
    pub chunk_tree_uuid: Vec<u8>,
    pub generation: u64,
    pub owner: u64,
    pub nritems: u32,
    /// `0` denotes a leaf; any other value an internal node.
    pub level: u8,
}

impl BtrfsHeader {
    pub open spec fn wf(self) -> bool {
        &&& self.csum@.len() == 32
        &&& self.fsid@.len() == 16
        &&& self.chunk_tree_uuid@.len() == 16
    }
}

/// A leaf item descriptor.  `offset` is measured from the end of the
/// header; the payload is `size` bytes long.
#[derive(Clone, Copy, Debug, PartialEq, Eq, Structural)]
pub struct BtrfsItem {
    pub key: BtrfsKey,
    pub offset: u32,
    pub size: u32,
}

/// An internal-node record; `blockptr` is a logical address.
#[derive(Clone, Copy, Debug, PartialEq, Eq, Structural)]
pub struct BtrfsKeyPtr {
    pub key: BtrfsKey,
    pub blockptr: u64,
    pub generation: u64,
}

/// The fixed prefix of a directory item; `name_len` name bytes follow it.
#[derive(Clone, Copy, Debug, PartialEq, Eq, Structural)]
pub struct BtrfsDirItem {
    pub location: BtrfsKey,
    pub transid: u64,
    pub data_len: u16,
    pub name_len: u16,
    pub ty: u8,
}

/// The fixed prefix of an inode ref; `name_len` name bytes follow it.
/// Its enclosing key has `objectid` = child inode, `offset` = parent inode.
#[derive(Clone, Copy, Debug, PartialEq, Eq, Structural)]
pub struct BtrfsInodeRef {
    pub index: u64,
    pub name_len: u16,
}

/// The fields of a root item that the walk consumes: the logical address
/// of the subvolume's tree root and that root's level.
#[derive(Clone, Copy, Debug, PartialEq, Eq, Structural)]
pub struct BtrfsRootItem {
    pub bytenr: u64,
    pub level: u8,
}

/// The superblock's embedded device description.
#[derive(Clone, Debug)]
pub struct BtrfsDevItem {
    /// the internal btrfs device id
    pub devid: u64,
    /// size of the device
    pub total_bytes: u64,
    /// bytes used
    pub bytes_used: u64,
    /// optimal io alignment for this device
    pub io_align: u32,
    /// optimal io width for this device
    pub io_width: u32,
    /// minimal io size for this device
    pub sector_size: u32,
    /// type and info about this device
    pub ty: u64,
    /// expected generation for this device
    pub generation: u64,
    /// starting byte of this partition on the device
    pub start_offset: u64,
    /// grouping information for allocation decisions
    pub dev_group: u32,
    /// seek speed 0-100 where 100 is fastest
    pub seek_speed: u8,
    /// bandwidth 0-100 where 100 is fastest
    pub bandwidth: u8,
    /// btrfs generated uuid for this device
    pub uuid: Vec<u8>,
    /// uuid of the filesystem that owns this device
    pub fsid: Vec<u8>,
}

impl BtrfsDevItem {
    pub open spec fn wf(self) -> bool {
        &&& self.uuid@.len() == 16
        &&& self.fsid@.len() == 16
    }
}

/// One of the superblock's four root-backup slots.
#[derive(Clone, Debug)]
pub struct BtrfsRootBackup {
    pub tree_root: u64,
    pub tree_root_gen: u64,
    pub chunk_root: u64,
    pub chunk_root_gen: u64,
    pub extent_root: u64,
    pub extent_root_gen: u64,
    pub fs_root: u64,
    pub fs_root_gen: u64,
    pub dev_root: u64,
    pub dev_root_gen: u64,
    pub csum_root: u64,
    pub csum_root_gen: u64,
    pub total_bytes: u64,
    pub bytes_used: u64,
    pub num_devices: u64,
    /// future
    pub unused_64: Vec<u64>,
    pub tree_root_level: u8,
    pub chunk_root_level: u8,
    pub extent_root_level: u8,
    pub fs_root_level: u8,
    pub dev_root_level: u8,
    pub csum_root_level: u8,
    /// future and to align
    pub unused_8: Vec<u8>,
}

impl BtrfsRootBackup {
    pub open spec fn wf(self) -> bool {
        &&& self.unused_64@.len() == 4
        &&& self.unused_8@.len() == 10
    }
}

/// The primary superblock, read once from physical offset 0x10000.
#[derive(Clone, Debug)]
pub struct BtrfsSuperblock {
    pub csum: Vec<u8>,
    pub fsid: Vec<u8>,
    /// Physical address of this block
    pub bytenr: u64,
    pub flags: u64,
    pub magic: Vec<u8>,
    pub generation: u64,
    /// Logical address of the root tree root
    pub root: u64,
    /// Logical address of the chunk tree root
    pub chunk_root: u64,
    /// Logical address of the log tree root
    pub log_root: u64,
    pub log_root_transid: u64,
    pub total_bytes: u64,
    pub bytes_used: u64,
    pub root_dir_objectid: u64,
    pub num_devices: u64,
    pub sector_size: u32,
    pub node_size: u32,
    /// Unused and must be equal to `node_size`
    pub leafsize: u32,
    pub stripesize: u32,
    pub sys_chunk_array_size: u32,
    pub chunk_root_generation: u64,
    pub compat_flags: u64,
    pub compat_ro_flags: u64,
    pub incompat_flags: u64,
    pub csum_type: u16,
    pub root_level: u8,
    pub chunk_root_level: u8,
    pub log_root_level: u8,
    pub dev_item: BtrfsDevItem,
    pub label: Vec<u8>,
    pub cache_generation: u64,
    pub uuid_tree_generation: u64,
    pub metadata_uuid: Vec<u8>,
    /// Future expansion
    pub reserved: Vec<u64>,
    pub sys_chunk_array: Vec<u8>,
    pub root_backups: Vec<BtrfsRootBackup>,
}

impl BtrfsSuperblock {
    pub open spec fn wf(self) -> bool {
        &&& self.csum@.len() == 32
        &&& self.fsid@.len() == 16
        &&& self.magic@.len() == 8
        &&& self.dev_item.wf()
        &&& self.label@.len() == 256
        &&& self.metadata_uuid@.len() == 16
        &&& self.reserved@.len() == 28
        &&& self.sys_chunk_array@.len() == 2048
        &&& self.root_backups@.len() == 4
        &&& forall|i: int| 0 <= i < 4 ==> (#[trigger] self.root_backups@[i]).wf()
    }
}

} // verus!
