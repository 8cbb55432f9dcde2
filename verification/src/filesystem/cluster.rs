use vstd::prelude::*;

verus! {

/// The number of a cluster on disk; the FAT tells us which cluster follows it.
#[derive(Debug, Clone, Copy, PartialEq, Eq, Structural)]
pub struct ClusterId(pub u32);

/// The marker cluster number that stands for the root directory.
pub const ROOT_DIR_CLUSTER: u32 = 0xFFFF_FFFC;

} // verus!
