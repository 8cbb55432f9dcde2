//! An SD/MMC library: FAT directory entries, volume handles and the
//! bookkeeping of open volumes and directories.

pub mod blockdevice;
pub mod fat;
pub mod filesystem;
mod volume_mgr;

pub use crate::blockdevice::{Block, BlockCount, BlockDevice, BlockIdx};
pub use crate::fat::{FatType, FatVolume};
pub use crate::filesystem::{
    Attributes, ClusterId, DirEntry, Directory, FilenameError, RawDirectory, SearchId, ShortFileName,
    TimeSource, Timestamp,
};
pub use crate::volume_mgr::{read_partition, ManagerState, PartitionInfo, VolumeManager};

use vstd::prelude::*;

verus! {

/// Represents all the ways the functions in this crate can fail.
#[derive(Debug, Clone)]
pub enum Error<E> where E: core::fmt::Debug {
    /// The underlying block device threw an error.
    DeviceError(E),
    /// The filesystem is badly formatted (or this code is buggy).
    FormatError(&'static str),
    /// The given `VolumeIdx` was bad,
    NoSuchVolume,
    /// The given filename was bad
    FilenameError(FilenameError),
    /// Out of memory opening volumes
    TooManyOpenVolumes,
    /// Out of memory opening directories
    TooManyOpenDirs,
    /// Out of memory opening files
    TooManyOpenFiles,
    /// Bad handle given
    BadHandle,
    /// That file doesn't exist
    FileNotFound,
    /// You can't open a file twice or delete an open file
    FileAlreadyOpen,
    /// You can't open a directory twice
    DirAlreadyOpen,
    /// You can't open a directory as a file
    OpenedDirAsFile,
    /// You can't open a file as a directory
    OpenedFileAsDir,
    /// You can't delete a directory as a file
    DeleteDirAsFile,
    /// You can't close a volume with open files or directories
    VolumeStillInUse,
    /// You can't open a volume twice
    VolumeAlreadyOpen,
    /// We can't do that yet
    Unsupported,
    /// Tried to read beyond end of file
    EndOfFile,
    /// Found a bad cluster
    BadCluster,
    /// Error while converting types
    ConversionError,
    /// The device does not have enough space for the operation
    NotEnoughSpace,
    /// Cluster was not properly allocated by the library
    AllocationError,
    /// Jumped to free space during FAT traversing
    UnterminatedFatChain,
    /// Tried to open Read-Only file with write mode
    ReadOnly,
    /// Tried to create an existing file
    FileAlreadyExists,
    /// Bad block size - only 512 byte blocks supported
    BadBlockSize(u16),
    /// Bad offset given when seeking
    InvalidOffset,
    /// Disk is full
    DiskFull,
}

impl<E> From<E> for Error<E> where E: core::fmt::Debug {
    fn from(value: E) -> (r: Error<E>) {
        Error::DeviceError(value)
    }
}

impl<E> vstd::std_specs::convert::FromSpecImpl<E> for Error<E> where E: core::fmt::Debug {
    open spec fn obeys_from_spec() -> bool {
        true
    }

    open spec fn from_spec(v: E) -> Error<E> {
        Error::DeviceError(v)
    }
}

/// Represents a partition with a filesystem within it.
#[derive(Debug, Copy, Clone, PartialEq, Eq, Structural)]
pub struct RawVolume(pub SearchId);

impl RawVolume {
    /// Convert a raw volume into a [`Volume`] that holds the manager.
    pub fn to_volume<
        D,
        T,
        const MAX_DIRS: usize,
        const MAX_FILES: usize,
        const MAX_VOLUMES: usize,
    >(
        self,
        volume_mgr: &mut VolumeManager<D, T, MAX_DIRS, MAX_FILES, MAX_VOLUMES>,
    ) -> (v: Volume<'_, D, T, MAX_DIRS, MAX_FILES, MAX_VOLUMES>) where
        D: crate::BlockDevice,
        T: crate::TimeSource,

        ensures
            v.raw_volume() == self,
            v.manager() == *old(volume_mgr),
            *final(v.manager_ref()) == *final(volume_mgr),
    {
        Volume::new(self, volume_mgr)
    }
}

/// Represents an open volume on disk, together with the mutable borrow of
/// its parent `VolumeManager`, which restricts which operations you can
/// perform while it lives.
///
/// Dropping a `Volume` leaves the volume open in its manager; call
/// [`Volume::close`] to close it, or [`Volume::to_raw_volume`] to keep the
/// handle.
pub struct Volume<'a, D, T, const MAX_DIRS: usize, const MAX_FILES: usize, const MAX_VOLUMES: usize>
    where D: crate::BlockDevice, T: crate::TimeSource {
    raw_volume: RawVolume,
    volume_mgr: &'a mut VolumeManager<D, T, MAX_DIRS, MAX_FILES, MAX_VOLUMES>,
}

impl<'a, D, T, const MAX_DIRS: usize, const MAX_FILES: usize, const MAX_VOLUMES: usize> Volume<
    'a,
    D,
    T,
    MAX_DIRS,
    MAX_FILES,
    MAX_VOLUMES,
> where D: crate::BlockDevice, T: crate::TimeSource {
    /// The handle of this volume.
    pub closed spec fn raw_volume(self) -> RawVolume {
        self.raw_volume
    }

    /// The current value of the manager that this volume borrows.
    pub closed spec fn manager(self) -> VolumeManager<D, T, MAX_DIRS, MAX_FILES, MAX_VOLUMES> {
        *self.volume_mgr
    }

    /// The borrow of the manager that this volume holds.
    pub closed spec fn manager_ref(self) -> &'a mut VolumeManager<
        D,
        T,
        MAX_DIRS,
        MAX_FILES,
        MAX_VOLUMES,
    > {
        self.volume_mgr
    }

    /// Create a new `Volume` from a `RawVolume`
    pub fn new(
        raw_volume: RawVolume,
        volume_mgr: &'a mut VolumeManager<D, T, MAX_DIRS, MAX_FILES, MAX_VOLUMES>,
    ) -> (v: Volume<'a, D, T, MAX_DIRS, MAX_FILES, MAX_VOLUMES>)
        ensures
            v.raw_volume() == raw_volume,
            v.manager() == *old(volume_mgr),
            *final(v.manager_ref()) == *final(volume_mgr),
    {
        Volume { raw_volume, volume_mgr }
    }

    /// Open the volume's root directory.
    ///
    /// Fails with `TooManyOpenDirs` when the manager has no room for another
    /// open directory; an id is used up either way. On success the
    /// directory holds the manager until it is closed or turned back into
    /// a raw directory.
    pub fn open_root_dir(&mut self) -> (r: Result<
        Directory<'_, D, T, MAX_DIRS, MAX_FILES, MAX_VOLUMES>,
        Error<D::Error>,
    >)
        ensures
            final(self).raw_volume() == old(self).raw_volume(),
            *final(final(self).manager_ref()) == *final(old(self).manager_ref()),
            r is Ok <==> old(self).manager().state().open_root_dir_result::<D::Error>(
                old(self).raw_volume(),
                MAX_DIRS,
            ) is Ok,
            r matches Ok(d) ==> {
                &&& Ok::<RawDirectory, Error<D::Error>>(d.raw_directory()) == old(
                    self,
                ).manager().state().open_root_dir_result::<D::Error>(old(self).raw_volume(), MAX_DIRS)
                &&& d.manager().state() == old(self).manager().state().after_open_root_dir(
                    old(self).raw_volume(),
                    MAX_DIRS,
                )
                &&& final(self).manager() == *final(d.manager_ref())
            },
            r matches Err(e) ==> {
                &&& Err::<RawDirectory, Error<D::Error>>(e) == old(
                    self,
                ).manager().state().open_root_dir_result::<D::Error>(old(self).raw_volume(), MAX_DIRS)
                &&& final(self).manager().state() == old(self).manager().state().after_open_root_dir(
                    old(self).raw_volume(),
                    MAX_DIRS,
                )
            },
    {
        match self.volume_mgr.open_root_dir(self.raw_volume) {
            Ok(d) => Ok(d.to_directory(&mut *self.volume_mgr)),
            Err(e) => Err(e),
        }
    }

    /// Convert back to a raw volume, leaving the volume open and releasing
    /// the manager unchanged.
    pub fn to_raw_volume(self) -> (v: RawVolume)
        ensures
            v == self.raw_volume(),
            *final(self.manager_ref()) == self.manager(),
    {
        self.raw_volume
    }

    /// The text that identifies this volume in debug output:
    /// `Volume(<id>)`, with the id in decimal.
    pub fn to_debug_string(&self) -> (s: String)
        ensures
            s@ == seq!['V', 'o', 'l', 'u', 'm', 'e', '('] + decimal(self.raw_volume().0.0 as nat)
                + seq![')'],
    {
        let mut s = String::from_str("Volume(");
        proof {
            reveal_strlit("Volume(");
        }
        push_decimal(&mut s, self.raw_volume.0.0);
        s.append(")");
        proof {
            reveal_strlit(")");
        }
        s
    }

    /// Close this volume in its manager and release the manager. Every
    /// directory on the volume must have been closed first.
    pub fn close(self)
        requires
            !self.manager().state().volume_in_use(self.raw_volume()),
            self.manager().state().volume_open(self.raw_volume()),
        ensures
            final(self.manager_ref()).state() == self.manager().state().after_close_volume(
                self.raw_volume(),
            ),
    {
        let _ = self.volume_mgr.close_volume(self.raw_volume);
    }
}

/// The character of the decimal digit `d`.
pub open spec fn digit_char(d: nat) -> char {
    if d == 0 { '0' }
    else if d == 1 { '1' }
    else if d == 2 { '2' }
    else if d == 3 { '3' }
    else if d == 4 { '4' }
    else if d == 5 { '5' }
    else if d == 6 { '6' }
    else if d == 7 { '7' }
    else if d == 8 { '8' }
    else { '9' }
}

/// The decimal digits of `n`, most significant first, without leading zeros.
pub open spec fn decimal(n: nat) -> Seq<char>
    decreases n,
{
    if n < 10 {
        seq![digit_char(n)]
    } else {
        decimal(n / 10).push(digit_char(n % 10))
    }
}

/// The one-character string of the decimal digit `d`.
fn digit_str(d: u32) -> (s: &'static str)
    requires
        d < 10,
    ensures
        s@ == seq![digit_char(d as nat)],
{
    match d {
        0 => { proof { reveal_strlit("0"); } "0" },
        1 => { proof { reveal_strlit("1"); } "1" },
        2 => { proof { reveal_strlit("2"); } "2" },
        3 => { proof { reveal_strlit("3"); } "3" },
        4 => { proof { reveal_strlit("4"); } "4" },
        5 => { proof { reveal_strlit("5"); } "5" },
        6 => { proof { reveal_strlit("6"); } "6" },
        7 => { proof { reveal_strlit("7"); } "7" },
        8 => { proof { reveal_strlit("8"); } "8" },
        _ => { proof { reveal_strlit("9"); } "9" },
    }
}

/// Append the decimal digits of `n` to `s`.
fn push_decimal(s: &mut String, n: u32)
    ensures
        final(s)@ == old(s)@ + decimal(n as nat),
    decreases n,
{
    if n >= 10 {
        push_decimal(s, n / 10);
    }
    s.append(digit_str(n % 10));
    assert(decimal(n as nat) == if n < 10 { seq![digit_char(n as nat)] } else { decimal(
        (n / 10) as nat,
    ).push(digit_char((n % 10) as nat)) });
}

/// Internal information about a Volume
#[derive(Debug, PartialEq, Eq, Clone, Copy, Structural)]
pub struct VolumeInfo {
    /// Search ID for this volume.
    pub volume_id: RawVolume,
    /// Which partition of the disk this volume is.
    pub idx: VolumeIdx,
    /// What kind of volume this is
    pub volume_type: VolumeType,
}

/// This enum holds the data for the various different types of filesystems we
/// support.
#[derive(Debug, PartialEq, Eq, Clone, Copy, Structural)]
pub enum VolumeType {
    /// FAT16/FAT32 formatted volumes.
    Fat(FatVolume),
}

/// A `VolumeIdx` is a number which identifies a volume (or partition) on a
/// disk.
///
/// `VolumeIdx(0)` is the first primary partition on an MBR partitioned disk.
#[derive(Debug, PartialEq, Eq, Copy, Clone, Structural)]
pub struct VolumeIdx(pub usize);

/// Marker for a FAT32 partition. Sometimes also use for FAT16 formatted
/// partitions.
pub const PARTITION_ID_FAT32_LBA: u8 = 0x0C;
/// Marker for a FAT16 partition with LBA. Seen on a Raspberry Pi SD card.
pub const PARTITION_ID_FAT16_LBA: u8 = 0x0E;
/// Marker for a FAT16 partition. Seen on a card formatted with the official
/// SD-Card formatter.
pub const PARTITION_ID_FAT16: u8 = 0x06;
/// Marker for a FAT32 partition. What Macosx disk utility (and also SD-Card formatter?)
/// use.
pub const PARTITION_ID_FAT32_CHS_LBA: u8 = 0x0B;

} // verus!
