//! The superblock reader and writer.
//!
//! The superblock is a packed little-endian record at physical offset
//! 0x10000.  Parsing validates the magic; writing re-encodes the typed
//! view, and a proved round trip shows that re-encoding a parsed
//! superblock yields the original bytes, with no padding inserted.

use vstd::bytes::spec_u16_to_le_bytes;
use vstd::bytes::spec_u32_to_le_bytes;
use vstd::bytes::spec_u64_to_le_bytes;
use vstd::prelude::*;

use crate::codec::le16;
use crate::codec::le32;
use crate::codec::le64;
use crate::codec::lemma_u64s_round_trip;
use crate::codec::put_bytes;
use crate::codec::put_u16;
use crate::codec::put_u32;
use crate::codec::put_u64;
use crate::codec::put_u64s;
use crate::codec::put_u8;
use crate::codec::read_u16;
use crate::codec::read_u32;
use crate::codec::read_u64;
use crate::codec::read_u64s;
use crate::codec::read_u8;
use crate::codec::read_vec;
use crate::codec::u64s_le_bytes;
use crate::defs::magic_seq;
use crate::defs::WalkError;
use crate::defs::BTRFS_SUPERBLOCK_SIZE;
use crate::structs::BtrfsDevItem;
use crate::structs::BtrfsRootBackup;
use crate::structs::BtrfsSuperblock;

verus! {

/// `d` is the typed view of the 98 packed bytes at `off` in `b`.
pub open spec fn dev_item_matches(d: BtrfsDevItem, b: Seq<u8>, off: int) -> bool {
    &&& d.devid == le64(b, off)
    &&& d.total_bytes == le64(b, off + 8)
    &&& d.bytes_used == le64(b, off + 16)
    &&& d.io_align == le32(b, off + 24)
    &&& d.io_width == le32(b, off + 28)
    &&& d.sector_size == le32(b, off + 32)
    &&& d.ty == le64(b, off + 36)
    &&& d.generation == le64(b, off + 44)
    &&& d.start_offset == le64(b, off + 52)
    &&& d.dev_group == le32(b, off + 60)
    &&& d.seek_speed == b[off + 64]
    &&& d.bandwidth == b[off + 65]
    &&& d.uuid@ == b.subrange(off + 66, off + 82)
    &&& d.fsid@ == b.subrange(off + 82, off + 98)
}

/// The 98-byte packed encoding of a device item.
pub open spec fn spec_dev_item_bytes(d: BtrfsDevItem) -> Seq<u8> {
    spec_u64_to_le_bytes(d.devid) + spec_u64_to_le_bytes(d.total_bytes) + spec_u64_to_le_bytes(
        d.bytes_used,
    ) + spec_u32_to_le_bytes(d.io_align) + spec_u32_to_le_bytes(d.io_width)
        + spec_u32_to_le_bytes(d.sector_size) + spec_u64_to_le_bytes(d.ty) + spec_u64_to_le_bytes(
        d.generation,
    ) + spec_u64_to_le_bytes(d.start_offset) + spec_u32_to_le_bytes(d.dev_group) + seq![
        d.seek_speed,
    ] + seq![d.bandwidth] + d.uuid@ + d.fsid@
}

/// `rb` is the typed view of the 168 packed bytes at `off` in `b`.
pub open spec fn root_backup_matches(rb: BtrfsRootBackup, b: Seq<u8>, off: int) -> bool {
    &&& rb.tree_root == le64(b, off)
    &&& rb.tree_root_gen == le64(b, off + 8)
    &&& rb.chunk_root == le64(b, off + 16)
    &&& rb.chunk_root_gen == le64(b, off + 24)
    &&& rb.extent_root == le64(b, off + 32)
    &&& rb.extent_root_gen == le64(b, off + 40)
    &&& rb.fs_root == le64(b, off + 48)
    &&& rb.fs_root_gen == le64(b, off + 56)
    &&& rb.dev_root == le64(b, off + 64)
    &&& rb.dev_root_gen == le64(b, off + 72)
    &&& rb.csum_root == le64(b, off + 80)
    &&& rb.csum_root_gen == le64(b, off + 88)
    &&& rb.total_bytes == le64(b, off + 96)
    &&& rb.bytes_used == le64(b, off + 104)
    &&& rb.num_devices == le64(b, off + 112)
    &&& rb.unused_64@.len() == 4
    &&& forall|i: int| 0 <= i < 4 ==> rb.unused_64@[i] == le64(b, off + 120 + 8 * i)
    &&& rb.tree_root_level == b[off + 152]
    &&& rb.chunk_root_level == b[off + 153]
    &&& rb.extent_root_level == b[off + 154]
    &&& rb.fs_root_level == b[off + 155]
    &&& rb.dev_root_level == b[off + 156]
    &&& rb.csum_root_level == b[off + 157]
    &&& rb.unused_8@ == b.subrange(off + 158, off + 168)
}

/// The 168-byte packed encoding of a root backup.
pub open spec fn spec_root_backup_bytes(rb: BtrfsRootBackup) -> Seq<u8> {
    spec_u64_to_le_bytes(rb.tree_root) + spec_u64_to_le_bytes(rb.tree_root_gen)
        + spec_u64_to_le_bytes(rb.chunk_root) + spec_u64_to_le_bytes(rb.chunk_root_gen)
        + spec_u64_to_le_bytes(rb.extent_root) + spec_u64_to_le_bytes(rb.extent_root_gen)
        + spec_u64_to_le_bytes(rb.fs_root) + spec_u64_to_le_bytes(rb.fs_root_gen)
        + spec_u64_to_le_bytes(rb.dev_root) + spec_u64_to_le_bytes(rb.dev_root_gen)
        + spec_u64_to_le_bytes(rb.csum_root) + spec_u64_to_le_bytes(rb.csum_root_gen)
        + spec_u64_to_le_bytes(rb.total_bytes) + spec_u64_to_le_bytes(rb.bytes_used)
        + spec_u64_to_le_bytes(rb.num_devices) + u64s_le_bytes(rb.unused_64@) + seq![
        rb.tree_root_level,
    ] + seq![rb.chunk_root_level] + seq![rb.extent_root_level] + seq![rb.fs_root_level] + seq![
        rb.dev_root_level,
    ] + seq![rb.csum_root_level] + rb.unused_8@
}

/// The packed encodings of a run of root backups, in order.
pub open spec fn root_backups_bytes(s: Seq<BtrfsRootBackup>) -> Seq<u8>
    decreases s.len(),
{
    if s.len() == 0 {
        Seq::empty()
    } else {
        root_backups_bytes(s.drop_last()) + spec_root_backup_bytes(s.last())
    }
}

/// `sb` is the typed view of the 3531 packed superblock bytes `b`.
pub open spec fn superblock_matches(sb: BtrfsSuperblock, b: Seq<u8>) -> bool {
    &&& sb.csum@ == b.subrange(0, 32)
    &&& sb.fsid@ == b.subrange(32, 48)
    &&& sb.bytenr == le64(b, 48)
    &&& sb.flags == le64(b, 56)
    &&& sb.magic@ == b.subrange(64, 72)
    &&& sb.generation == le64(b, 72)
    &&& sb.root == le64(b, 80)
    &&& sb.chunk_root == le64(b, 88)
    &&& sb.log_root == le64(b, 96)
    &&& sb.log_root_transid == le64(b, 104)
    &&& sb.total_bytes == le64(b, 112)
    &&& sb.bytes_used == le64(b, 120)
    &&& sb.root_dir_objectid == le64(b, 128)
    &&& sb.num_devices == le64(b, 136)
    &&& sb.sector_size == le32(b, 144)
    &&& sb.node_size == le32(b, 148)
    &&& sb.leafsize == le32(b, 152)
    &&& sb.stripesize == le32(b, 156)
    &&& sb.sys_chunk_array_size == le32(b, 160)
    &&& sb.chunk_root_generation == le64(b, 164)
    &&& sb.compat_flags == le64(b, 172)
    &&& sb.compat_ro_flags == le64(b, 180)
    &&& sb.incompat_flags == le64(b, 188)
    &&& sb.csum_type == le16(b, 196)
    &&& sb.root_level == b[198]
    &&& sb.chunk_root_level == b[199]
    &&& sb.log_root_level == b[200]
    &&& dev_item_matches(sb.dev_item, b, 201)
    &&& sb.label@ == b.subrange(299, 555)
    &&& sb.cache_generation == le64(b, 555)
    &&& sb.uuid_tree_generation == le64(b, 563)
    &&& sb.metadata_uuid@ == b.subrange(571, 587)
    &&& sb.reserved@.len() == 28
    &&& forall|i: int| 0 <= i < 28 ==> sb.reserved@[i] == le64(b, 587 + 8 * i)
    &&& sb.sys_chunk_array@ == b.subrange(811, 2859)
    &&& sb.root_backups@.len() == 4
    &&& forall|i: int|
        0 <= i < 4 ==> root_backup_matches(#[trigger] sb.root_backups@[i], b, 2859 + 168 * i)
}

/// The 3531-byte packed encoding of a superblock.
pub open spec fn spec_superblock_bytes(sb: BtrfsSuperblock) -> Seq<u8> {
    sb.csum@ + sb.fsid@ + spec_u64_to_le_bytes(sb.bytenr) + spec_u64_to_le_bytes(sb.flags)
        + sb.magic@ + spec_u64_to_le_bytes(sb.generation) + spec_u64_to_le_bytes(sb.root)
        + spec_u64_to_le_bytes(sb.chunk_root) + spec_u64_to_le_bytes(sb.log_root)
        + spec_u64_to_le_bytes(sb.log_root_transid) + spec_u64_to_le_bytes(sb.total_bytes)
        + spec_u64_to_le_bytes(sb.bytes_used) + spec_u64_to_le_bytes(sb.root_dir_objectid)
        + spec_u64_to_le_bytes(sb.num_devices) + spec_u32_to_le_bytes(sb.sector_size)
        + spec_u32_to_le_bytes(sb.node_size) + spec_u32_to_le_bytes(sb.leafsize)
        + spec_u32_to_le_bytes(sb.stripesize) + spec_u32_to_le_bytes(sb.sys_chunk_array_size)
        + spec_u64_to_le_bytes(sb.chunk_root_generation) + spec_u64_to_le_bytes(sb.compat_flags)
        + spec_u64_to_le_bytes(sb.compat_ro_flags) + spec_u64_to_le_bytes(sb.incompat_flags)
        + spec_u16_to_le_bytes(sb.csum_type) + seq![sb.root_level] + seq![sb.chunk_root_level]
        + seq![sb.log_root_level] + spec_dev_item_bytes(sb.dev_item) + sb.label@
        + spec_u64_to_le_bytes(sb.cache_generation) + spec_u64_to_le_bytes(sb.uuid_tree_generation)
        + sb.metadata_uuid@ + u64s_le_bytes(sb.reserved@) + sb.sys_chunk_array@
        + root_backups_bytes(sb.root_backups@)
}

/// Reads the packed device item at byte offset `off`.
pub fn parse_dev_item(b: &[u8], off: usize) -> (r: BtrfsDevItem)
    requires
        off + 98 <= b@.len(),
    ensures
        r.wf(),
        dev_item_matches(r, b@, off as int),
{
    let n = b.len();
    proof {
        assert(off + 98 <= n);
    }
    BtrfsDevItem {
        devid: read_u64(b, off),
        total_bytes: read_u64(b, off + 8),
        bytes_used: read_u64(b, off + 16),
        io_align: read_u32(b, off + 24),
        io_width: read_u32(b, off + 28),
        sector_size: read_u32(b, off + 32),
        ty: read_u64(b, off + 36),
        generation: read_u64(b, off + 44),
        start_offset: read_u64(b, off + 52),
        dev_group: read_u32(b, off + 60),
        seek_speed: read_u8(b, off + 64),
        bandwidth: read_u8(b, off + 65),
        uuid: read_vec(b, off + 66, 16),
        fsid: read_vec(b, off + 82, 16),
    }
}

/// Reads the packed root backup at byte offset `off`.
pub fn parse_root_backup(b: &[u8], off: usize) -> (r: BtrfsRootBackup)
    requires
        off + 168 <= b@.len(),
    ensures
        r.wf(),
        root_backup_matches(r, b@, off as int),
{
    let n = b.len();
    proof {
        assert(off + 168 <= n);
    }
    BtrfsRootBackup {
        tree_root: read_u64(b, off),
        tree_root_gen: read_u64(b, off + 8),
        chunk_root: read_u64(b, off + 16),
        chunk_root_gen: read_u64(b, off + 24),
        extent_root: read_u64(b, off + 32),
        extent_root_gen: read_u64(b, off + 40),
        fs_root: read_u64(b, off + 48),
        fs_root_gen: read_u64(b, off + 56),
        dev_root: read_u64(b, off + 64),
        dev_root_gen: read_u64(b, off + 72),
        csum_root: read_u64(b, off + 80),
        csum_root_gen: read_u64(b, off + 88),
        total_bytes: read_u64(b, off + 96),
        bytes_used: read_u64(b, off + 104),
        num_devices: read_u64(b, off + 112),
        unused_64: read_u64s(b, off + 120, 4),
        tree_root_level: read_u8(b, off + 152),
        chunk_root_level: read_u8(b, off + 153),
        extent_root_level: read_u8(b, off + 154),
        fs_root_level: read_u8(b, off + 155),
        dev_root_level: read_u8(b, off + 156),
        csum_root_level: read_u8(b, off + 157),
        unused_8: read_vec(b, off + 158, 10),
    }
}

/// Compares the eight magic bytes at offset 64 with `_BHRfS_M`.
fn magic_ok(b: &[u8]) -> (r: bool)
    requires
        b@.len() == BTRFS_SUPERBLOCK_SIZE,
    ensures
        r == (b@.subrange(64, 72) == magic_seq()),
{
    let r = read_u8(b, 64) == 0x5f && read_u8(b, 65) == 0x42 && read_u8(b, 66) == 0x48 && read_u8(
        b,
        67,
    ) == 0x52 && read_u8(b, 68) == 0x66 && read_u8(b, 69) == 0x53 && read_u8(b, 70) == 0x5f
        && read_u8(b, 71) == 0x4d;
    proof {
        let s = b@.subrange(64, 72);
        assert(s[0] == b@[64] && s[1] == b@[65] && s[2] == b@[66] && s[3] == b@[67] && s[4]
            == b@[68] && s[5] == b@[69] && s[6] == b@[70] && s[7] == b@[71]);
        if r {
            assert(s =~= magic_seq());
        } else {
            assert(s != magic_seq()) by {
                if s == magic_seq() {
                    assert(s[0] == 0x5f && s[1] == 0x42 && s[2] == 0x48 && s[3] == 0x52 && s[4]
                        == 0x66 && s[5] == 0x53 && s[6] == 0x5f && s[7] == 0x4d);
                }
            }
        }
    }
    r
}

/// Parses the superblock from its 3531 packed bytes.
///
/// Succeeds if and only if the magic is `_BHRfS_M`; every field of the
/// result is the decoding of its packed range.
pub fn parse_superblock(b: &[u8]) -> (r: Result<BtrfsSuperblock, WalkError>)
    requires
        b@.len() == BTRFS_SUPERBLOCK_SIZE,
    ensures
        r is Ok <==> b@.subrange(64, 72) == magic_seq(),
        r matches Ok(sb) ==> sb.wf() && superblock_matches(sb, b@) && sb.magic@ == magic_seq(),
        r is Err ==> r == Err::<BtrfsSuperblock, WalkError>(WalkError::BadMagic),
{
    if !magic_ok(b) {
        return Err(WalkError::BadMagic);
    }
    let mut root_backups: Vec<BtrfsRootBackup> = Vec::new();
    root_backups.push(parse_root_backup(b, 2859));
    root_backups.push(parse_root_backup(b, 3027));
    root_backups.push(parse_root_backup(b, 3195));
    root_backups.push(parse_root_backup(b, 3363));
    let sb = BtrfsSuperblock {
        csum: read_vec(b, 0, 32),
        fsid: read_vec(b, 32, 16),
        bytenr: read_u64(b, 48),
        flags: read_u64(b, 56),
        magic: read_vec(b, 64, 8),
        generation: read_u64(b, 72),
        root: read_u64(b, 80),
        chunk_root: read_u64(b, 88),
        log_root: read_u64(b, 96),
        log_root_transid: read_u64(b, 104),
        total_bytes: read_u64(b, 112),
        bytes_used: read_u64(b, 120),
        root_dir_objectid: read_u64(b, 128),
        num_devices: read_u64(b, 136),
        sector_size: read_u32(b, 144),
        node_size: read_u32(b, 148),
        leafsize: read_u32(b, 152),
        stripesize: read_u32(b, 156),
        sys_chunk_array_size: read_u32(b, 160),
        chunk_root_generation: read_u64(b, 164),
        compat_flags: read_u64(b, 172),
        compat_ro_flags: read_u64(b, 180),
        incompat_flags: read_u64(b, 188),
        csum_type: read_u16(b, 196),
        root_level: read_u8(b, 198),
        chunk_root_level: read_u8(b, 199),
        log_root_level: read_u8(b, 200),
        dev_item: parse_dev_item(b, 201),
        label: read_vec(b, 299, 256),
        cache_generation: read_u64(b, 555),
        uuid_tree_generation: read_u64(b, 563),
        metadata_uuid: read_vec(b, 571, 16),
        reserved: read_u64s(b, 587, 28),
        sys_chunk_array: read_vec(b, 811, 2048),
        root_backups,
    };
    Ok(sb)
}

/// Appends the 98-byte packed encoding of a device item.
fn put_dev_item(out: &mut Vec<u8>, d: &BtrfsDevItem)
    ensures
        final(out)@ == old(out)@ + spec_dev_item_bytes(*d),
{
    put_u64(out, d.devid);
    put_u64(out, d.total_bytes);
    put_u64(out, d.bytes_used);
    put_u32(out, d.io_align);
    put_u32(out, d.io_width);
    put_u32(out, d.sector_size);
    put_u64(out, d.ty);
    put_u64(out, d.generation);
    put_u64(out, d.start_offset);
    put_u32(out, d.dev_group);
    put_u8(out, d.seek_speed);
    put_u8(out, d.bandwidth);
    put_bytes(out, d.uuid.as_slice());
    put_bytes(out, d.fsid.as_slice());
    proof {
        assert(out@ =~= old(out)@ + spec_dev_item_bytes(*d));
    }
}

/// Appends the 168-byte packed encoding of a root backup.
fn put_root_backup(out: &mut Vec<u8>, rb: &BtrfsRootBackup)
    ensures
        final(out)@ == old(out)@ + spec_root_backup_bytes(*rb),
{
    put_u64(out, rb.tree_root);
    put_u64(out, rb.tree_root_gen);
    put_u64(out, rb.chunk_root);
    put_u64(out, rb.chunk_root_gen);
    put_u64(out, rb.extent_root);
    put_u64(out, rb.extent_root_gen);
    put_u64(out, rb.fs_root);
    put_u64(out, rb.fs_root_gen);
    put_u64(out, rb.dev_root);
    put_u64(out, rb.dev_root_gen);
    put_u64(out, rb.csum_root);
    put_u64(out, rb.csum_root_gen);
    put_u64(out, rb.total_bytes);
    put_u64(out, rb.bytes_used);
    put_u64(out, rb.num_devices);
    put_u64s(out, &rb.unused_64);
    put_u8(out, rb.tree_root_level);
    put_u8(out, rb.chunk_root_level);
    put_u8(out, rb.extent_root_level);
    put_u8(out, rb.fs_root_level);
    put_u8(out, rb.dev_root_level);
    put_u8(out, rb.csum_root_level);
    put_bytes(out, rb.unused_8.as_slice());
    proof {
        assert(out@ =~= old(out)@ + spec_root_backup_bytes(*rb));
    }
}

/// Re-encodes a superblock into its 3531 packed bytes.
pub fn superblock_bytes(sb: &BtrfsSuperblock) -> (r: Vec<u8>)
    requires
        sb.wf(),
    ensures
        r@ == spec_superblock_bytes(*sb),
{
    let mut out: Vec<u8> = Vec::new();
    put_bytes(&mut out, sb.csum.as_slice());
    put_bytes(&mut out, sb.fsid.as_slice());
    put_u64(&mut out, sb.bytenr);
    put_u64(&mut out, sb.flags);
    put_bytes(&mut out, sb.magic.as_slice());
    put_u64(&mut out, sb.generation);
    put_u64(&mut out, sb.root);
    put_u64(&mut out, sb.chunk_root);
    put_u64(&mut out, sb.log_root);
    put_u64(&mut out, sb.log_root_transid);
    put_u64(&mut out, sb.total_bytes);
    put_u64(&mut out, sb.bytes_used);
    put_u64(&mut out, sb.root_dir_objectid);
    put_u64(&mut out, sb.num_devices);
    put_u32(&mut out, sb.sector_size);
    put_u32(&mut out, sb.node_size);
    put_u32(&mut out, sb.leafsize);
    put_u32(&mut out, sb.stripesize);
    put_u32(&mut out, sb.sys_chunk_array_size);
    put_u64(&mut out, sb.chunk_root_generation);
    put_u64(&mut out, sb.compat_flags);
    put_u64(&mut out, sb.compat_ro_flags);
    put_u64(&mut out, sb.incompat_flags);
    put_u16(&mut out, sb.csum_type);
    put_u8(&mut out, sb.root_level);
    put_u8(&mut out, sb.chunk_root_level);
    put_u8(&mut out, sb.log_root_level);
    put_dev_item(&mut out, &sb.dev_item);
    put_bytes(&mut out, sb.label.as_slice());
    put_u64(&mut out, sb.cache_generation);
    put_u64(&mut out, sb.uuid_tree_generation);
    put_bytes(&mut out, sb.metadata_uuid.as_slice());
    put_u64s(&mut out, &sb.reserved);
    put_bytes(&mut out, sb.sys_chunk_array.as_slice());
    put_root_backup(&mut out, &sb.root_backups[0]);
    put_root_backup(&mut out, &sb.root_backups[1]);
    put_root_backup(&mut out, &sb.root_backups[2]);
    put_root_backup(&mut out, &sb.root_backups[3]);
    proof {
        let s = sb.root_backups@;
        assert(s.drop_last() =~= s.subrange(0, 3));
        assert(s.subrange(0, 3).drop_last() =~= s.subrange(0, 2));
        assert(s.subrange(0, 2).drop_last() =~= s.subrange(0, 1));
        assert(s.subrange(0, 1).drop_last() =~= s.subrange(0, 0));
        assert(root_backups_bytes(s.subrange(0, 0)) == Seq::<u8>::empty());
        assert(s.subrange(0, 1).last() == s[0]);
        assert(s.subrange(0, 2).last() == s[1]);
        assert(s.subrange(0, 3).last() == s[2]);
        assert(s.last() == s[3]);
        assert(root_backups_bytes(s.subrange(0, 1)) =~= spec_root_backup_bytes(s[0]));
        assert(root_backups_bytes(s.subrange(0, 2)) =~= root_backups_bytes(s.subrange(0, 1))
            + spec_root_backup_bytes(s[1]));
        assert(root_backups_bytes(s.subrange(0, 3)) =~= root_backups_bytes(s.subrange(0, 2))
            + spec_root_backup_bytes(s[2]));
        assert(root_backups_bytes(s) =~= root_backups_bytes(s.subrange(0, 3))
            + spec_root_backup_bytes(s[3]));
        assert(out@ =~= spec_superblock_bytes(*sb));
    }
    out
}

/// The bytes of `sb.root_backups` re-encode to the packed range they
/// were read from.
proof fn lemma_root_backups_round_trip(b: Seq<u8>, s: Seq<BtrfsRootBackup>)
    requires
        b.len() == BTRFS_SUPERBLOCK_SIZE,
        s.len() == 4,
        forall|i: int| 0 <= i < 4 ==> root_backup_matches(#[trigger] s[i], b, 2859 + 168 * i),
    ensures
        root_backups_bytes(s) == b.subrange(2859, 3531),
{
    lemma_root_backup_round_trip(b, s[0], 2859);
    lemma_root_backup_round_trip(b, s[1], 3027);
    lemma_root_backup_round_trip(b, s[2], 3195);
    lemma_root_backup_round_trip(b, s[3], 3363);
    assert(s.drop_last() =~= s.subrange(0, 3));
    assert(s.subrange(0, 3).drop_last() =~= s.subrange(0, 2));
    assert(s.subrange(0, 2).drop_last() =~= s.subrange(0, 1));
    assert(s.subrange(0, 1).drop_last() =~= s.subrange(0, 0));
    assert(root_backups_bytes(s.subrange(0, 0)) == Seq::<u8>::empty());
    assert(s.subrange(0, 1).last() == s[0]);
    assert(s.subrange(0, 2).last() == s[1]);
    assert(s.subrange(0, 3).last() == s[2]);
    assert(s.last() == s[3]);
    assert(root_backups_bytes(s.subrange(0, 1)) =~= b.subrange(2859, 3027));
    assert(root_backups_bytes(s.subrange(0, 2)) =~= b.subrange(2859, 3195));
    assert(root_backups_bytes(s.subrange(0, 3)) =~= b.subrange(2859, 3363));
    assert(root_backups_bytes(s) =~= b.subrange(2859, 3531));
}

/// A parsed device item re-encodes to the packed range it was read from.
proof fn lemma_dev_item_round_trip(b: Seq<u8>, d: BtrfsDevItem, off: int)
    requires
        0 <= off,
        off + 98 <= b.len(),
        dev_item_matches(d, b, off),
    ensures
        spec_dev_item_bytes(d) == b.subrange(off, off + 98),
{
    vstd::bytes::lemma_auto_spec_u32_to_from_le_bytes();
    vstd::bytes::lemma_auto_spec_u64_to_from_le_bytes();
    assert(seq![d.seek_speed] =~= b.subrange(off + 64, off + 65));
    assert(seq![d.bandwidth] =~= b.subrange(off + 65, off + 66));
    assert(spec_dev_item_bytes(d) =~= b.subrange(off, off + 98));
}

/// A parsed root backup re-encodes to the packed range it was read from.
proof fn lemma_root_backup_round_trip(b: Seq<u8>, rb: BtrfsRootBackup, off: int)
    requires
        0 <= off,
        off + 168 <= b.len(),
        root_backup_matches(rb, b, off),
    ensures
        spec_root_backup_bytes(rb) == b.subrange(off, off + 168),
{
    vstd::bytes::lemma_auto_spec_u64_to_from_le_bytes();
    lemma_u64s_round_trip(b, off + 120, rb.unused_64@);
    assert(seq![rb.tree_root_level] =~= b.subrange(off + 152, off + 153));
    assert(seq![rb.chunk_root_level] =~= b.subrange(off + 153, off + 154));
    assert(seq![rb.extent_root_level] =~= b.subrange(off + 154, off + 155));
    assert(seq![rb.fs_root_level] =~= b.subrange(off + 155, off + 156));
    assert(seq![rb.dev_root_level] =~= b.subrange(off + 156, off + 157));
    assert(seq![rb.csum_root_level] =~= b.subrange(off + 157, off + 158));
    assert(spec_root_backup_bytes(rb) =~= b.subrange(off, off + 168));
}

/// Round trip: a superblock parsed from `b` re-encodes to exactly `b`.
/// The packed byte view is preserved bit for bit; no padding appears.
pub proof fn lemma_superblock_round_trip(sb: BtrfsSuperblock, b: Seq<u8>)
    requires
        b.len() == BTRFS_SUPERBLOCK_SIZE,
        superblock_matches(sb, b),
    ensures
        spec_superblock_bytes(sb) == b,
{
    vstd::bytes::lemma_auto_spec_u16_to_from_le_bytes();
    vstd::bytes::lemma_auto_spec_u32_to_from_le_bytes();
    vstd::bytes::lemma_auto_spec_u64_to_from_le_bytes();
    lemma_dev_item_round_trip(b, sb.dev_item, 201);
    lemma_u64s_round_trip(b, 587, sb.reserved@);
    lemma_root_backups_round_trip(b, sb.root_backups@);
    assert(seq![sb.root_level] =~= b.subrange(198, 199));
    assert(seq![sb.chunk_root_level] =~= b.subrange(199, 200));
    assert(seq![sb.log_root_level] =~= b.subrange(200, 201));
    assert(spec_superblock_bytes(sb) =~= b);
}

} // verus!
