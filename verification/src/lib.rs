//! A read-only walker for btrfs disk images.
//!
//! The crate parses the packed on-disk records of a btrfs filesystem
//! (superblock, B-tree headers, items, chunks), maintains the
//! logical-to-physical chunk interval map, and carries out every decision
//! of the walk: bootstrapping the map from the superblock's system chunk
//! array, loading the chunk tree, locating the filesystem tree root, and
//! turning leaf items into `filename=` output lines.  A thin driver owns
//! the backing file and feeds raw blocks to these functions.

pub mod chunk_map;
pub mod chunk_tree;
pub mod codec;
pub mod defs;
pub mod fs_tree;
pub mod node;
pub mod root_tree;
pub mod structs;
pub mod superblock;
