//! Block device types: block numbers, block counts and the device trait.

use vstd::prelude::*;

verus! {

/// The number of bytes in one block.
pub const BLOCK_LEN: usize = 512;

/// One block of bytes, as read from or written to a block device.
#[derive(Clone)]
pub struct Block {
    /// The bytes of the block
    pub contents: [u8; 512],
}

/// The linear number of a block on a device.
#[derive(Debug, Clone, Copy, PartialEq, Eq, Structural)]
pub struct BlockIdx(pub u32);

/// A number of blocks.
#[derive(Debug, Clone, Copy, PartialEq, Eq, Structural)]
pub struct BlockCount(pub u32);

/// A device that stores 512-byte blocks, such as an SD card.
pub trait BlockDevice {
    /// The errors that the device can report.
    type Error: core::fmt::Debug;
}

} // verus!
