use vstd::prelude::*;

verus! {

/// The ways in which a file name can be refused.
#[derive(Debug, Clone, Copy, PartialEq, Eq, Structural)]
pub enum FilenameError {
    /// Tried to create a file with an invalid character.
    InvalidCharacter,
    /// Tried to create a file with no file name.
    FilenameEmpty,
    /// Given name was too long (we are limited to 8.3).
    NameTooLong,
    /// Can't start a file with a period, or after 8 characters.
    MisplacedPeriod,
    /// Can't extract utf8 from file name
    Utf8Error,
}

/// An MS-DOS 8.3 file name: eight bytes of base name and three of extension,
/// padded with spaces.
#[derive(Debug, Clone, PartialEq, Eq)]
pub struct ShortFileName {
    /// The eleven bytes of the name as they stand on disk.
    pub contents: [u8; 11],
}

} // verus!
