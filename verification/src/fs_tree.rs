//! The filesystem-tree side of the walk: regular-file directory entries,
//! the inode-ref point lookup, path reconstruction, and output lines.
//!
//! A driver feeds blocks here.  A leaf yields the regular-file entries
//! it holds (parent inode and file name); an internal node yields its
//! children's logical addresses.  For each entry the driver then runs
//! the inode-ref search step by step to climb parent-ward while a
//! `PathBuilder` accumulates the path prefix.

use vstd::prelude::*;

use crate::codec::le16;
use crate::codec::le64;
use crate::codec::put_bytes;
use crate::codec::read_u16;
use crate::codec::read_u8;
use crate::codec::read_vec;
use crate::defs::WalkError;
use crate::defs::BTRFS_DIR_ITEM_KEY;
use crate::defs::BTRFS_FT_REG_FILE;
use crate::defs::BTRFS_INODE_REF_KEY;
use crate::node::leaf_items_in_bounds;
use crate::node::node_ptrs_in_bounds;
use crate::node::parse_btrfs_leaf;
use crate::node::parse_btrfs_node;
use crate::node::spec_item_at;
use crate::node::spec_key_at;
use crate::node::spec_key_ptr_at;
use crate::node::spec_level;
use crate::node::spec_nritems;
use crate::structs::BtrfsDirItem;
use crate::structs::BtrfsInodeRef;
use crate::structs::BtrfsKey;

verus! {

/// The byte `/`, which joins and roots the reconstructed paths.
pub const SLASH: u8 = 0x2f;

/// Whether a byte sequence is valid UTF-8.  Validity depends on the
/// bytes alone; the walker rejects invalid names with `BadName`.
pub uninterp spec fn is_utf8(s: Seq<u8>) -> bool;

/// Relies on core::str::from_utf8: it accepts exactly the valid UTF-8
/// byte sequences.
#[verifier::external_body]
fn utf8_ok(b: &[u8]) -> (r: bool)
    ensures
        r == is_utf8(b@),
{
    core::str::from_utf8(b).is_ok()
}

/// The fixed prefix of the directory item packed at `off` in `b`.
pub open spec fn spec_dir_item_at(b: Seq<u8>, off: int) -> BtrfsDirItem {
    BtrfsDirItem {
        location: spec_key_at(b, off),
        transid: le64(b, off + 17),
        data_len: le16(b, off + 25),
        name_len: le16(b, off + 27),
        ty: b[off + 29],
    }
}

/// The fixed prefix of the inode ref packed at `off` in `b`.
pub open spec fn spec_inode_ref_at(b: Seq<u8>, off: int) -> BtrfsInodeRef {
    BtrfsInodeRef { index: le64(b, off), name_len: le16(b, off + 8) }
}

/// One regular file found in a leaf: the parent directory's inode (the
/// enclosing key's objectid) and the file's name.
#[derive(Clone, Debug)]
pub struct DirEntry {
    pub parent_inode: u64,
    pub name: Vec<u8>,
}

/// What one filesystem-tree block contributes to the walk.
#[derive(Debug)]
pub enum FsStep {
    /// A leaf: the regular-file entries it holds, in item order.
    Leaf(Vec<DirEntry>),
    /// An internal node: its children's logical addresses, in order.
    Internal(Vec<u64>),
}

/// The regular-file entries among the first `n` items of the leaf `b`:
/// for each directory item whose file type is a regular file, the parent
/// inode and the name bytes that follow the fixed prefix.  `ShortRead`
/// marks the first payload that would overrun the block, `BadName` the
/// first name that is not valid UTF-8.
pub open spec fn leaf_reg_file_entries(b: Seq<u8>, n: int) -> Result<Seq<(u64, Seq<u8>)>, WalkError>
    decreases n,
{
    if n <= 0 {
        Ok(Seq::empty())
    } else {
        match leaf_reg_file_entries(b, n - 1) {
            Ok(es) => {
                let item = spec_item_at(b, n - 1);
                if item.key.ty != BTRFS_DIR_ITEM_KEY {
                    Ok(es)
                } else if 101 + item.offset + 30 > b.len() {
                    Err(WalkError::ShortRead)
                } else {
                    let off = 101 + item.offset as int;
                    let d = spec_dir_item_at(b, off);
                    if d.ty != BTRFS_FT_REG_FILE {
                        Ok(es)
                    } else if off + 30 + d.name_len > b.len() {
                        Err(WalkError::ShortRead)
                    } else {
                        let name = b.subrange(off + 30, off + 30 + d.name_len);
                        if !is_utf8(name) {
                            Err(WalkError::BadName)
                        } else {
                            Ok(es.push((item.key.objectid, name)))
                        }
                    }
                }
            },
            Err(e) => Err(e),
        }
    }
}

/// Once the entry run of a leaf prefix fails, every longer prefix fails
/// the same way.
proof fn lemma_reg_entries_err(b: Seq<u8>, k: int, n: int)
    requires
        0 <= k <= n,
        leaf_reg_file_entries(b, k) is Err,
    ensures
        leaf_reg_file_entries(b, n) == leaf_reg_file_entries(b, k),
    decreases n - k,
{
    if k < n {
        lemma_reg_entries_err(b, k, n - 1);
    }
}

/// Reads one filesystem-tree block.
///
/// A leaf yields its regular-file entries (each name checked to be
/// UTF-8); an internal node yields its children's logical addresses for
/// the driver to resolve, read, and feed back here.
pub fn fs_tree_block(block: &[u8]) -> (r: Result<FsStep, WalkError>)
    ensures
        block@.len() < 101 ==> r == Err::<FsStep, WalkError>(WalkError::ShortRead),
        block@.len() >= 101 && spec_level(block@) == 0 ==> {
            &&& !leaf_items_in_bounds(block@) ==> r == Err::<FsStep, WalkError>(
                WalkError::ShortRead,
            )
            &&& leaf_items_in_bounds(block@) ==> match leaf_reg_file_entries(
                block@,
                spec_nritems(block@) as int,
            ) {
                Ok(es) => (r matches Ok(step) && step matches FsStep::Leaf(v) && v@.len()
                    == es.len() && (forall|i: int|
                    0 <= i < es.len() ==> (#[trigger] v@[i]).parent_inode == es[i].0
                        && v@[i].name@ == es[i].1)),
                Err(e) => r == Err::<FsStep, WalkError>(e),
            }
        },
        block@.len() >= 101 && spec_level(block@) != 0 ==> {
            &&& !node_ptrs_in_bounds(block@) ==> r == Err::<FsStep, WalkError>(
                WalkError::ShortRead,
            )
            &&& node_ptrs_in_bounds(block@) ==> (r matches Ok(step) && step matches
                FsStep::Internal(v) && v@.len() == spec_nritems(block@) && (forall|i: int|
                0 <= i < v@.len() ==> v@[i] == spec_key_ptr_at(block@, i).blockptr))
        },
{
    let len = block.len();
    if len < 101 {
        return Err(WalkError::ShortRead);
    }
    let level = read_u8(block, 100);
    if level == 0 {
        let items = match parse_btrfs_leaf(block) {
            Ok(items) => items,
            Err(e) => {
                return Err(e);
            },
        };
        let n = items.len();
        let ghost mut done: Seq<(u64, Seq<u8>)> = Seq::empty();
        let mut entries: Vec<DirEntry> = Vec::new();
        let mut i: usize = 0;
        while i < n
            invariant
                block@.len() == len <= usize::MAX,
                block@.len() >= 101,
                spec_level(block@) == 0,
                leaf_items_in_bounds(block@),
                n == spec_nritems(block@),
                n == items@.len(),
                forall|j: int| 0 <= j < n ==> items@[j] == spec_item_at(block@, j),
                i <= n,
                leaf_reg_file_entries(block@, i as int) == Ok::<Seq<(u64, Seq<u8>)>, WalkError>(
                    done,
                ),
                entries@.len() == done.len(),
                forall|j: int|
                    0 <= j < done.len() ==> (#[trigger] entries@[j]).parent_inode == done[j].0
                        && entries@[j].name@ == done[j].1,
            decreases n - i,
        {
            let item = items[i];
            if item.key.ty == BTRFS_DIR_ITEM_KEY {
                if 101 + (item.offset as u64) + 30 > len as u64 {
                    proof {
                        lemma_reg_entries_err(block@, i + 1, n as int);
                    }
                    return Err(WalkError::ShortRead);
                }
                let off = 101 + (item.offset as usize);
                let name_len = read_u16(block, off + 27);
                let ty = read_u8(block, off + 29);
                if ty == BTRFS_FT_REG_FILE {
                    if (off as u64) + 30 + (name_len as u64) > len as u64 {
                        proof {
                            lemma_reg_entries_err(block@, i + 1, n as int);
                        }
                        return Err(WalkError::ShortRead);
                    }
                    let name = read_vec(block, off + 30, name_len as usize);
                    if !utf8_ok(name.as_slice()) {
                        proof {
                            lemma_reg_entries_err(block@, i + 1, n as int);
                        }
                        return Err(WalkError::BadName);
                    }
                    entries.push(DirEntry { parent_inode: item.key.objectid, name });
                    proof {
                        done = done.push((item.key.objectid, block@.subrange(
                            off + 30,
                            off + 30 + name_len as int,
                        )));
                    }
                }
            }
            i = i + 1;
        }
        Ok(FsStep::Leaf(entries))
    } else {
        let ptrs = match parse_btrfs_node(block) {
            Ok(ptrs) => ptrs,
            Err(e) => {
                return Err(e);
            },
        };
        let n = ptrs.len();
        let mut children: Vec<u64> = Vec::new();
        let mut i: usize = 0;
        while i < n
            invariant
                n == ptrs@.len(),
                n == spec_nritems(block@),
                forall|j: int| 0 <= j < n ==> ptrs@[j] == spec_key_ptr_at(block@, j),
                i <= n,
                children@.len() == i,
                forall|j: int| 0 <= j < i ==> children@[j] == spec_key_ptr_at(block@, j).blockptr,
            decreases n - i,
        {
            children.push(ptrs[i].blockptr);
            i = i + 1;
        }
        Ok(FsStep::Internal(children))
    }
}

/// The first item among `[i, n)` of leaf `b` whose key is the inode ref
/// of `inode`.
pub open spec fn spec_find_inode_ref(b: Seq<u8>, inode: u64, i: int, n: int) -> Option<int>
    decreases n - i,
{
    if i >= n {
        None
    } else if spec_item_at(b, i).key.objectid == inode && spec_item_at(b, i).key.ty
        == BTRFS_INODE_REF_KEY {
        Some(i)
    } else {
        spec_find_inode_ref(b, inode, i + 1, n)
    }
}

/// The key an inode-ref search descends towards.
pub open spec fn spec_ref_target(inode: u64) -> BtrfsKey {
    BtrfsKey { objectid: inode, ty: BTRFS_INODE_REF_KEY, offset: 0 }
}

/// The child an internal node hands the search to: the last slot among
/// the first `n` whose key is at most the target.
pub open spec fn spec_child_slot(b: Seq<u8>, inode: u64, n: int) -> Option<int>
    decreases n,
{
    if n <= 0 {
        None
    } else if spec_key_ptr_at(b, n - 1).key.spec_le(spec_ref_target(inode)) {
        Some(n - 1)
    } else {
        spec_child_slot(b, inode, n - 1)
    }
}

/// One step of the inode-ref point lookup.
#[derive(Clone, Debug)]
pub enum InodeRefStep {
    /// The leaf item was found: its enclosing key (whose `offset` is the
    /// parent inode) and this inode's own name within that parent.
    Found(BtrfsKey, Vec<u8>),
    /// Descend to the child block at this logical address.
    Descend(u64),
    /// No inode ref for the inode exists down this path.
    NotFound,
}

/// Runs one block's worth of the inode-ref lookup for `inode`.
///
/// On a leaf, scans for the first item keyed `(inode, INODE_REF)` and
/// returns its key and trailing name (`BadName` if the name is not
/// UTF-8, `ShortRead` if the payload overruns the block).  On an
/// internal node, picks the child whose key range can hold the target.
pub fn inode_ref_step(block: &[u8], inode: u64) -> (r: Result<InodeRefStep, WalkError>)
    ensures
        block@.len() < 101 ==> r == Err::<InodeRefStep, WalkError>(WalkError::ShortRead),
        block@.len() >= 101 && spec_level(block@) == 0 ==> {
            &&& !leaf_items_in_bounds(block@) ==> r == Err::<InodeRefStep, WalkError>(
                WalkError::ShortRead,
            )
            &&& leaf_items_in_bounds(block@) ==> match spec_find_inode_ref(
                block@,
                inode,
                0,
                spec_nritems(block@) as int,
            ) {
                Some(i) => {
                    let item = spec_item_at(block@, i);
                    let off = 101 + item.offset as int;
                    if off + 10 > block@.len() {
                        r == Err::<InodeRefStep, WalkError>(WalkError::ShortRead)
                    } else if off + 10 + spec_inode_ref_at(block@, off).name_len > block@.len() {
                        r == Err::<InodeRefStep, WalkError>(WalkError::ShortRead)
                    } else if !is_utf8(
                        block@.subrange(
                            off + 10,
                            off + 10 + spec_inode_ref_at(block@, off).name_len,
                        ),
                    ) {
                        r == Err::<InodeRefStep, WalkError>(WalkError::BadName)
                    } else {
                        r matches Ok(step) && step matches InodeRefStep::Found(k, name) && k
                            == item.key && k.objectid == inode && name@ == block@.subrange(
                            off + 10,
                            off + 10 + spec_inode_ref_at(block@, off).name_len,
                        )
                    }
                },
                None => r matches Ok(step) && step matches InodeRefStep::NotFound,
            }
        },
        block@.len() >= 101 && spec_level(block@) != 0 ==> {
            &&& !node_ptrs_in_bounds(block@) ==> r == Err::<InodeRefStep, WalkError>(
                WalkError::ShortRead,
            )
            &&& node_ptrs_in_bounds(block@) ==> match spec_child_slot(
                block@,
                inode,
                spec_nritems(block@) as int,
            ) {
                Some(i) => r matches Ok(step) && step matches InodeRefStep::Descend(p) && p
                    == spec_key_ptr_at(block@, i).blockptr,
                None => r matches Ok(step) && step matches InodeRefStep::NotFound,
            }
        },
{
    let len = block.len();
    if len < 101 {
        return Err(WalkError::ShortRead);
    }
    let level = read_u8(block, 100);
    if level == 0 {
        let items = match parse_btrfs_leaf(block) {
            Ok(items) => items,
            Err(e) => {
                return Err(e);
            },
        };
        let n = items.len();
        let mut i: usize = 0;
        while i < n
            invariant
                block@.len() == len <= usize::MAX,
                block@.len() >= 101,
                spec_level(block@) == 0,
                leaf_items_in_bounds(block@),
                n == spec_nritems(block@),
                n == items@.len(),
                forall|j: int| 0 <= j < n ==> items@[j] == spec_item_at(block@, j),
                i <= n,
                spec_find_inode_ref(block@, inode, 0, n as int) == spec_find_inode_ref(
                    block@,
                    inode,
                    i as int,
                    n as int,
                ),
            decreases n - i,
        {
            let item = items[i];
            if item.key.objectid == inode && item.key.ty == BTRFS_INODE_REF_KEY {
                if 101 + (item.offset as u64) + 10 > len as u64 {
                    return Err(WalkError::ShortRead);
                }
                let off = 101 + (item.offset as usize);
                let name_len = read_u16(block, off + 8);
                if (off as u64) + 10 + (name_len as u64) > len as u64 {
                    return Err(WalkError::ShortRead);
                }
                let name = read_vec(block, off + 10, name_len as usize);
                if !utf8_ok(name.as_slice()) {
                    return Err(WalkError::BadName);
                }
                return Ok(InodeRefStep::Found(item.key, name));
            }
            i = i + 1;
        }
        Ok(InodeRefStep::NotFound)
    } else {
        let ptrs = match parse_btrfs_node(block) {
            Ok(ptrs) => ptrs,
            Err(e) => {
                return Err(e);
            },
        };
        let n = ptrs.len();
        let target = BtrfsKey { objectid: inode, ty: BTRFS_INODE_REF_KEY, offset: 0 };
        let mut j: usize = n;
        while j > 0
            invariant
                block@.len() >= 101,
                spec_level(block@) != 0,
                node_ptrs_in_bounds(block@),
                n == spec_nritems(block@),
                n == ptrs@.len(),
                forall|k: int| 0 <= k < n ==> ptrs@[k] == spec_key_ptr_at(block@, k),
                j <= n,
                target == spec_ref_target(inode),
                spec_child_slot(block@, inode, n as int) == spec_child_slot(
                    block@,
                    inode,
                    j as int,
                ),
            decreases j,
        {
            if ptrs[j - 1].key.le(&target) {
                return Ok(InodeRefStep::Descend(ptrs[j - 1].blockptr));
            }
            j = j - 1;
        }
        Ok(InodeRefStep::NotFound)
    }
}

/// Path reconstruction state: the prefix built so far, the inode whose
/// ref is wanted next, and whether the subvolume root was reached.
#[derive(Clone, Debug)]
pub struct PathBuilder {
    pub prefix: Vec<u8>,
    pub current: u64,
    pub done: bool,
}

impl PathBuilder {
    /// Starts a path at the directory holding the file: `parent_inode`
    /// is the enclosing key's objectid of the directory item.
    pub fn start(parent_inode: u64) -> (r: Self)
        ensures
            r.prefix@ == Seq::<u8>::empty(),
            r.current == parent_inode,
            !r.done,
    {
        PathBuilder { prefix: Vec::new(), current: parent_inode, done: false }
    }

    /// The inode whose ref the driver must look up next, if any.
    pub fn target(&self) -> (r: Option<u64>)
        ensures
            self.done ==> r is None,
            !self.done ==> r == Some(self.current),
    {
        if self.done {
            None
        } else {
            Some(self.current)
        }
    }

    /// Consumes one inode-ref lookup result.  A ref whose enclosing key
    /// satisfies `offset == objectid == current` marks the subvolume
    /// root: the prefix is rooted with a leading `/` and the walk ends.
    /// Otherwise the ref's name is prepended (with a trailing `/`) and
    /// the parent inode becomes the next target.
    pub fn feed(&mut self, key: BtrfsKey, name: &[u8])
        requires
            !old(self).done,
            key.objectid == old(self).current,
        ensures
            key.offset == old(self).current ==> final(self).done && final(self).prefix@ == seq![
                SLASH,
            ] + old(self).prefix@ && final(self).current == old(self).current,
            key.offset != old(self).current ==> !final(self).done && final(self).prefix@ == name@
                + seq![SLASH] + old(self).prefix@ && final(self).current == key.offset,
    {
        if key.offset == self.current {
            let mut p: Vec<u8> = Vec::new();
            p.push(SLASH);
            put_bytes(&mut p, self.prefix.as_slice());
            proof {
                assert(p@ =~= seq![SLASH] + old(self).prefix@);
            }
            self.prefix = p;
            self.done = true;
        } else {
            let mut p: Vec<u8> = Vec::new();
            put_bytes(&mut p, name);
            p.push(SLASH);
            put_bytes(&mut p, self.prefix.as_slice());
            proof {
                assert(p@ =~= name@ + seq![SLASH] + old(self).prefix@);
            }
            self.prefix = p;
            self.current = key.offset;
        }
    }
}

/// The nine bytes of `filename=`, the tag each output line begins with.
pub open spec fn filename_tag() -> Seq<u8> {
    seq![0x66u8, 0x69u8, 0x6cu8, 0x65u8, 0x6eu8, 0x61u8, 0x6du8, 0x65u8, 0x3du8]
}

/// Builds one output line: `filename=` followed by the path prefix and
/// the file's name.
pub fn format_line(prefix: &[u8], name: &[u8]) -> (r: Vec<u8>)
    ensures
        r@ == filename_tag() + prefix@ + name@,
{
    let mut out: Vec<u8> = Vec::new();
    out.push(0x66);
    out.push(0x69);
    out.push(0x6c);
    out.push(0x65);
    out.push(0x6e);
    out.push(0x61);
    out.push(0x6d);
    out.push(0x65);
    out.push(0x3d);
    proof {
        assert(out@ =~= filename_tag());
    }
    put_bytes(&mut out, prefix);
    put_bytes(&mut out, name);
    proof {
        assert(out@ =~= filename_tag() + prefix@ + name@);
    }
    out
}

} // verus!
