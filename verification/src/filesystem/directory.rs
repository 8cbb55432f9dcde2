use vstd::prelude::*;

use crate::blockdevice::BlockIdx;
use crate::fat::FatType;
use crate::filesystem::attributes::Attributes;
use crate::filesystem::cluster::ClusterId;
use crate::filesystem::filename::ShortFileName;
use crate::filesystem::search_id::SearchId;
use crate::filesystem::timestamp::{
    le_u16, le_u16_value, le_u32, le_u32_value, u16_to_le, u32_to_le, Timestamp,
};
use crate::blockdevice::BlockDevice;
use crate::filesystem::timestamp::TimeSource;
use crate::volume_mgr::VolumeManager;
use crate::{Error, RawVolume};

verus! {

/// Represents a directory entry, which tells you about
/// other files and directories.
#[derive(Debug, PartialEq, Eq, Clone)]
pub struct DirEntry {
    /// The name of the file
    pub name: ShortFileName,
    /// When the file was last modified
    pub mtime: Timestamp,
    /// When the file was first created
    pub ctime: Timestamp,
    /// The file attributes (Read Only, Archive, etc)
    pub attributes: Attributes,
    /// The starting cluster of the file. The FAT tells us the following Clusters.
    pub cluster: ClusterId,
    /// The size of the file in bytes.
    pub size: u32,
    /// The disk block of this entry
    pub entry_block: BlockIdx,
    /// The offset on its block (in bytes)
    pub entry_offset: u32,
}

/// Represents an open directory on disk.
///
/// Do NOT drop this object and forget about it! It doesn't hold a reference
/// to the Volume Manager it was created from, so the VolumeManager will think
/// you still have the directory open, and it won't let you close its volume.
///
/// Instead you must pass it to [`crate::VolumeManager::close_dir`] to close it
/// cleanly, or turn it into a [`Directory`] with
/// [`RawDirectory::to_directory`].
#[derive(Debug, Copy, Clone, PartialEq, Eq, Structural)]
pub struct RawDirectory(pub SearchId);

impl RawDirectory {
    /// Convert a raw directory into a [`Directory`] that holds the manager.
    pub fn to_directory<
        D,
        T,
        const MAX_DIRS: usize,
        const MAX_FILES: usize,
        const MAX_VOLUMES: usize,
    >(
        self,
        volume_mgr: &mut VolumeManager<D, T, MAX_DIRS, MAX_FILES, MAX_VOLUMES>,
    ) -> (d: Directory<'_, D, T, MAX_DIRS, MAX_FILES, MAX_VOLUMES>) where
        D: BlockDevice,
        T: TimeSource,

        ensures
            d.raw_directory() == self,
            d.manager() == *old(volume_mgr),
            *final(d.manager_ref()) == *final(volume_mgr),
    {
        Directory::new(self, volume_mgr)
    }
}

/// Represents an open directory on disk, together with the mutable borrow
/// of its parent `VolumeManager`.
///
/// Dropping a `Directory` leaves the directory open in its manager; call
/// [`Directory::close`] to close it, or [`Directory::to_raw_directory`] to
/// keep the handle.
pub struct Directory<'a, D, T, const MAX_DIRS: usize, const MAX_FILES: usize, const MAX_VOLUMES: usize>
    where D: BlockDevice, T: TimeSource {
    raw_directory: RawDirectory,
    volume_mgr: &'a mut VolumeManager<D, T, MAX_DIRS, MAX_FILES, MAX_VOLUMES>,
}

impl<'a, D, T, const MAX_DIRS: usize, const MAX_FILES: usize, const MAX_VOLUMES: usize> Directory<
    'a,
    D,
    T,
    MAX_DIRS,
    MAX_FILES,
    MAX_VOLUMES,
> where D: BlockDevice, T: TimeSource {
    /// The handle of this directory.
    pub closed spec fn raw_directory(self) -> RawDirectory {
        self.raw_directory
    }

    /// The current value of the manager that this directory borrows.
    pub closed spec fn manager(self) -> VolumeManager<D, T, MAX_DIRS, MAX_FILES, MAX_VOLUMES> {
        *self.volume_mgr
    }

    /// The borrow of the manager that this directory holds.
    pub closed spec fn manager_ref(self) -> &'a mut VolumeManager<
        D,
        T,
        MAX_DIRS,
        MAX_FILES,
        MAX_VOLUMES,
    > {
        self.volume_mgr
    }

    /// Create a new `Directory` from a `RawDirectory`
    pub fn new(
        raw_directory: RawDirectory,
        volume_mgr: &'a mut VolumeManager<D, T, MAX_DIRS, MAX_FILES, MAX_VOLUMES>,
    ) -> (d: Directory<'a, D, T, MAX_DIRS, MAX_FILES, MAX_VOLUMES>)
        ensures
            d.raw_directory() == raw_directory,
            d.manager() == *old(volume_mgr),
            *final(d.manager_ref()) == *final(volume_mgr),
    {
        Directory { raw_directory, volume_mgr }
    }

    /// Convert back to a raw directory, leaving the directory open and
    /// releasing the manager unchanged.
    pub fn to_raw_directory(self) -> (r: RawDirectory)
        ensures
            r == self.raw_directory(),
            *final(self.manager_ref()) == self.manager(),
    {
        self.raw_directory
    }

    /// Close this directory in its manager and release the manager.
    pub fn close(self) -> (r: Result<(), Error<D::Error>>)
        ensures
            r == self.manager().state().close_dir_result::<D::Error>(self.raw_directory()),
            final(self.manager_ref()).state() == self.manager().state().after_close_dir(
                self.raw_directory(),
            ),
    {
        self.volume_mgr.close_dir(self.raw_directory)
    }
}

/// Holds information about an open directory on disk
#[derive(Debug, Clone, Copy, PartialEq, Eq, Structural)]
pub struct DirectoryInfo {
    /// Unique ID for this directory.
    pub directory_id: RawDirectory,
    /// The unique ID for the volume this directory is on
    pub volume_id: RawVolume,
    /// The starting point of the directory listing.
    pub cluster: ClusterId,
}

/// The two bytes at offset 20 of an on-disk entry: the high half of the
/// starting cluster on FAT32, zero on FAT16.
pub open spec fn cluster_hi_bytes(cluster: ClusterId, fat_type: FatType) -> Seq<u8> {
    match fat_type {
        FatType::Fat16 => seq![0u8, 0u8],
        FatType::Fat32 => le_u16((cluster.0 / 65536) as u16),
    }
}

/// The two bytes at offset 26 of an on-disk entry: the low half of the
/// starting cluster.
pub open spec fn cluster_lo_bytes(cluster: ClusterId) -> Seq<u8> {
    le_u16((cluster.0 % 65536) as u16)
}

impl DirEntry {
    /// The 32 on-disk bytes of this entry: name (0..11), attributes (11),
    /// two zero bytes (12..14), creation time (14..18), two zero bytes
    /// (18..20), high half of the cluster (20..22), modification time
    /// (22..26), low half of the cluster (26..28) and size (28..32).
    pub open spec fn on_disk_bytes(self, fat_type: FatType) -> Seq<u8> {
        self.name.contents@
            + seq![self.attributes.0, 0u8, 0u8]
            + self.ctime.fat_bytes()
            + seq![0u8, 0u8]
            + cluster_hi_bytes(self.cluster, fat_type)
            + self.mtime.fat_bytes()
            + cluster_lo_bytes(self.cluster)
            + le_u32(self.size)
    }

    /// Whether both timestamps of this entry can be encoded.
    pub open spec fn serializable(self) -> bool {
        self.ctime.fat_encodable() && self.mtime.fat_encodable()
    }

    /// Encode this entry as the 32 bytes that FAT stores on disk.
    pub fn serialize(&self, fat_type: FatType) -> (data: [u8; 32])
        requires
            self.serializable(),
        ensures
            data@ == self.on_disk_bytes(fat_type),
    {
        let n = &self.name.contents;
        let ctime: [u8; 4] = self.ctime.serialize_to_fat();
        let mtime: [u8; 4] = self.mtime.serialize_to_fat();
        let cluster_number: u32 = self.cluster.0;
        let cluster_hi: [u8; 2] = match fat_type {
            FatType::Fat16 => [0u8, 0u8],
            FatType::Fat32 => {
                let hi: u32 = (cluster_number >> 16u32) & 0x0000_FFFF;
                assert(hi == cluster_number / 65536) by (bit_vector)
                    requires
                        hi == (cluster_number >> 16u32) & 0x0000_FFFF,
                ;
                u16_to_le(hi as u16)
            },
        };
        let lo: u32 = cluster_number & 0x0000_FFFF;
        assert(lo == cluster_number % 65536) by (bit_vector)
            requires
                lo == cluster_number & 0x0000_FFFF,
        ;
        let cluster_lo: [u8; 2] = u16_to_le(lo as u16);
        let size: [u8; 4] = u32_to_le(self.size);
        let data: [u8; 32] = [
            n[0], n[1], n[2], n[3], n[4], n[5], n[6], n[7], n[8], n[9], n[10],
            self.attributes.0,
            0,
            0,
            ctime[0], ctime[1], ctime[2], ctime[3],
            0,
            0,
            cluster_hi[0], cluster_hi[1],
            mtime[0], mtime[1], mtime[2], mtime[3],
            cluster_lo[0], cluster_lo[1],
            size[0], size[1], size[2], size[3],
        ];
        assert(data@ =~= self.on_disk_bytes(fat_type));
        data
    }

    /// Create a new entry for a freshly made file or directory: both
    /// timestamps are `ctime` and the size is zero.
    pub fn new(
        name: ShortFileName,
        attributes: Attributes,
        cluster: ClusterId,
        ctime: Timestamp,
        entry_block: BlockIdx,
        entry_offset: u32,
    ) -> (e: Self)
        ensures
            e == (DirEntry {
                name,
                mtime: ctime,
                ctime,
                attributes,
                cluster,
                size: 0,
                entry_block,
                entry_offset,
            }),
    {
        Self {
            name,
            mtime: ctime,
            ctime,
            attributes,
            cluster,
            size: 0,
            entry_block,
            entry_offset,
        }
    }
}

/// The on-disk bytes of an entry give back every field that FAT keeps: the
/// name, the attributes, both timestamps, the size, and the starting
/// cluster (whole on FAT32, its low half on FAT16, where the high half is
/// written as zero); the reserved bytes are zero.
pub proof fn lemma_on_disk_bytes_decode(e: DirEntry, fat_type: FatType)
    ensures
        ({
            let b = e.on_disk_bytes(fat_type);
            &&& b.len() == 32
            &&& b.subrange(0, 11) == e.name.contents@
            &&& b[11] == e.attributes.0
            &&& b[12] == 0 && b[13] == 0 && b[18] == 0 && b[19] == 0
            &&& b.subrange(14, 18) == e.ctime.fat_bytes()
            &&& b.subrange(22, 26) == e.mtime.fat_bytes()
            &&& le_u32_value(b.subrange(28, 32)) == e.size
            &&& fat_type == FatType::Fat32 ==> le_u16_value(b.subrange(26, 28)) + 65536
                * le_u16_value(b.subrange(20, 22)) == e.cluster.0
            &&& fat_type == FatType::Fat16 ==> le_u16_value(b.subrange(26, 28)) == e.cluster.0
                % 65536 && le_u16_value(b.subrange(20, 22)) == 0
        }),
{
    let b = e.on_disk_bytes(fat_type);
    let c: u32 = e.cluster.0;
    let s: u32 = e.size;
    assert(b.subrange(0, 11) =~= e.name.contents@);
    assert(b.subrange(14, 18) =~= e.ctime.fat_bytes());
    assert(b.subrange(22, 26) =~= e.mtime.fat_bytes());
    assert(s == s % 256 + 256 * ((s / 256) % 256) + 65536 * ((s / 65536) % 256) + 16777216 * (s
        / 16777216)) by (bit_vector);
    let lo: u16 = (c % 65536) as u16;
    let hi: u16 = (c / 65536) as u16;
    assert(lo == lo % 256 + 256 * (lo / 256)) by (bit_vector);
    assert(hi == hi % 256 + 256 * (hi / 256)) by (bit_vector);
    assert(c == c % 65536 + 65536 * (c / 65536)) by (bit_vector);
}

} // verus!
