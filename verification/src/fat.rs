//! FAT16/FAT32 specific types.

use vstd::prelude::*;
use crate::blockdevice::{BlockCount, BlockIdx};
use crate::filesystem::ClusterId;

verus! {

/// The number of bytes in one on-disk directory entry.
pub const DIR_ENTRY_LEN: usize = 32;

/// Which kind of FAT a volume is formatted with.
#[derive(Debug, Clone, Copy, PartialEq, Eq, Structural)]
pub enum FatType {
    /// FAT16 formatted volume
    Fat16,
    /// FAT32 formatted volume
    Fat32,
}

/// What FAT16 volumes keep about their root directory.
#[derive(Debug, Clone, Copy, PartialEq, Eq, Structural)]
pub struct Fat16Info {
    /// The block where the fixed-size root directory starts
    pub first_root_dir_block: BlockCount,
    /// How many entries the root directory holds
    pub root_entries_count: u16,
}

/// What FAT32 volumes keep about their root directory.
#[derive(Debug, Clone, Copy, PartialEq, Eq, Structural)]
pub struct Fat32Info {
    /// The first cluster of the root directory
    pub first_root_dir_cluster: ClusterId,
    /// The block that holds the FS information sector
    pub info_location: BlockIdx,
}

/// The parts of a FAT volume's layout that differ between FAT16 and FAT32.
#[derive(Debug, Clone, Copy, PartialEq, Eq, Structural)]
pub enum FatSpecificInfo {
    /// FAT16 layout
    Fat16(Fat16Info),
    /// FAT32 layout
    Fat32(Fat32Info),
}

/// The layout of a FAT16 or FAT32 volume within a partition.
#[derive(Debug, Clone, Copy, PartialEq, Eq, Structural)]
pub struct FatVolume {
    /// The block number of the start of the partition
    pub lba_start: BlockIdx,
    /// The number of blocks in the partition
    pub num_blocks: BlockCount,
    /// The number of blocks in each cluster
    pub blocks_per_cluster: u8,
    /// The number of clusters in the volume
    pub cluster_count: u32,
    /// The FAT16 or FAT32 specific layout
    pub fat_specific_info: FatSpecificInfo,
}

} // verus!
