use vstd::prelude::*;

verus! {

/// The attribute byte of a FAT directory entry (read-only, hidden, system,
/// volume label, directory, archive).
#[derive(Debug, Clone, Copy, PartialEq, Eq, Structural)]
pub struct Attributes(pub u8);

} // verus!
