//! Locating the filesystem subvolume's root in the root tree.
//!
//! The root tree root is expected to be a leaf; its items are scanned in
//! reverse so that the most recent root item for the filesystem tree
//! wins, and that item's payload names the subvolume tree root's logical
//! address.

use vstd::prelude::*;

use crate::codec::le64;
use crate::codec::read_u64;
use crate::codec::read_u8;
use crate::defs::WalkError;
use crate::defs::BTRFS_FS_TREE_OBJECTID;
use crate::defs::BTRFS_ROOT_ITEM_KEY;
use crate::node::leaf_items_in_bounds;
use crate::node::parse_btrfs_leaf;
use crate::node::spec_item_at;
use crate::node::spec_level;
use crate::node::spec_nritems;
use crate::structs::BtrfsRootItem;

verus! {

/// The `i`-th item of `b` is a root item for the filesystem tree.
pub open spec fn is_fs_root_item(b: Seq<u8>, i: int) -> bool {
    &&& spec_item_at(b, i).key.objectid == BTRFS_FS_TREE_OBJECTID
    &&& spec_item_at(b, i).key.ty == BTRFS_ROOT_ITEM_KEY
}

/// The index of the filesystem tree's root item among the first `n`
/// items of `b`, taking the last match: reverse iteration selects the
/// most recent subvolume entry.
pub open spec fn spec_find_fs_root(b: Seq<u8>, n: int) -> Option<int>
    decreases n,
{
    if n <= 0 {
        None
    } else if is_fs_root_item(b, n - 1) {
        Some(n - 1)
    } else {
        spec_find_fs_root(b, n - 1)
    }
}

/// Scans the root tree root (which must be a leaf) for the filesystem
/// tree's root item and returns the fields of its payload that the walk
/// needs.
///
/// Fails with `RootTreeNotLeaf` when the block is an internal node,
/// `FsTreeNotFound` when no item has `(objectid, type)` equal to the
/// filesystem tree's, and `ShortRead` when the block or the chosen
/// payload is too short.
pub fn find_fs_tree_root(block: &[u8]) -> (r: Result<BtrfsRootItem, WalkError>)
    ensures
        block@.len() < 101 ==> r == Err::<BtrfsRootItem, WalkError>(WalkError::ShortRead),
        block@.len() >= 101 && spec_level(block@) != 0 ==> r == Err::<BtrfsRootItem, WalkError>(
            WalkError::RootTreeNotLeaf,
        ),
        block@.len() >= 101 && spec_level(block@) == 0 ==> {
            &&& !leaf_items_in_bounds(block@) ==> r == Err::<BtrfsRootItem, WalkError>(
                WalkError::ShortRead,
            )
            &&& leaf_items_in_bounds(block@) ==> match spec_find_fs_root(
                block@,
                spec_nritems(block@) as int,
            ) {
                Some(i) => {
                    let off = 101 + spec_item_at(block@, i).offset as int;
                    if off + 239 > block@.len() {
                        r == Err::<BtrfsRootItem, WalkError>(WalkError::ShortRead)
                    } else {
                        r matches Ok(ri) && ri.bytenr == le64(block@, off + 176) && ri.level
                            == block@[off + 238]
                    }
                },
                None => r == Err::<BtrfsRootItem, WalkError>(WalkError::FsTreeNotFound),
            }
        },
{
    let len = block.len();
    if len < 101 {
        return Err(WalkError::ShortRead);
    }
    let level = read_u8(block, 100);
    if level != 0 {
        return Err(WalkError::RootTreeNotLeaf);
    }
    let items = match parse_btrfs_leaf(block) {
        Ok(items) => items,
        Err(e) => {
            return Err(e);
        },
    };
    let n = items.len();
    let mut j: usize = n;
    while j > 0
        invariant
            block@.len() == len <= usize::MAX,
            block@.len() >= 101,
            spec_level(block@) == 0,
            leaf_items_in_bounds(block@),
            n == spec_nritems(block@),
            n == items@.len(),
            forall|k: int| 0 <= k < n ==> items@[k] == spec_item_at(block@, k),
            j <= n,
            spec_find_fs_root(block@, n as int) == spec_find_fs_root(block@, j as int),
        decreases j,
    {
        let item = items[j - 1];
        if item.key.objectid == BTRFS_FS_TREE_OBJECTID && item.key.ty == BTRFS_ROOT_ITEM_KEY {
            if 101 + (item.offset as u64) + 239 > len as u64 {
                return Err(WalkError::ShortRead);
            }
            let off = 101 + (item.offset as usize);
            return Ok(
                BtrfsRootItem { bytenr: read_u64(block, off + 176), level: read_u8(block, off + 238) },
            );
        }
        j = j - 1;
    }
    Err(WalkError::FsTreeNotFound)
}

} // verus!
