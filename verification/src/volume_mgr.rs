//! The volume manager: the table of open volumes and open directories, and
//! the decoding of the partition table that locates volumes on a disk.

use vstd::prelude::*;

use crate::blockdevice::{Block, BlockCount, BlockDevice, BlockIdx};
use crate::filesystem::cluster::ROOT_DIR_CLUSTER;
use crate::filesystem::search_id::next_search_id;
use crate::filesystem::{
    ClusterId, DirectoryInfo, RawDirectory, SearchId, SearchIdGenerator, TimeSource,
};
use crate::filesystem::timestamp::le_u32_value;
use crate::{
    Error, RawVolume, VolumeIdx, VolumeInfo, VolumeType, PARTITION_ID_FAT16,
    PARTITION_ID_FAT16_LBA, PARTITION_ID_FAT32_CHS_LBA, PARTITION_ID_FAT32_LBA,
};

verus! {

/// Where the first of the four partition entries starts in the master boot
/// record.
pub const PARTITION1_START: usize = 446;
/// The size of one partition entry.
pub const PARTITION_INFO_LENGTH: usize = 16;
/// Where the partition type byte stands within an entry.
pub const PARTITION_INFO_TYPE_INDEX: usize = 4;
/// Where the first block of the partition stands within an entry.
pub const PARTITION_INFO_LBA_START_INDEX: usize = 8;
/// Where the number of blocks of the partition stands within an entry.
pub const PARTITION_INFO_NUM_BLOCKS_INDEX: usize = 12;
/// Where the boot signature starts in the master boot record.
pub const FOOTER_START: usize = 510;

/// What the partition table of a disk says of one partition.
#[derive(Debug, Clone, Copy, PartialEq, Eq, Structural)]
pub struct PartitionInfo {
    /// The partition type byte
    pub part_type: u8,
    /// The first block of the partition
    pub lba_start: BlockIdx,
    /// The number of blocks in the partition
    pub num_blocks: BlockCount,
}

/// The partition types that hold a FAT16 or FAT32 filesystem.
pub open spec fn is_fat_partition_type(t: u8) -> bool {
    t == PARTITION_ID_FAT32_CHS_LBA || t == PARTITION_ID_FAT32_LBA || t == PARTITION_ID_FAT16_LBA
        || t == PARTITION_ID_FAT16
}

/// The master boot record ends with the signature bytes 0x55, 0xAA.
pub open spec fn has_mbr_signature(mbr: Seq<u8>) -> bool {
    mbr[510] == 0x55u8 && mbr[511] == 0xAAu8
}

/// Where the entry of partition `idx` (0 to 3) starts in the master boot
/// record.
pub open spec fn partition_entry_start(idx: usize) -> int {
    446 + 16 * idx
}

/// What decoding the entry of partition `idx` from the master boot record
/// `mbr` gives.
pub open spec fn partition_from_mbr<E: core::fmt::Debug>(mbr: Seq<u8>, idx: VolumeIdx) -> Result<
    PartitionInfo,
    Error<E>,
> {
    if !has_mbr_signature(mbr) {
        Err(Error::FormatError("Invalid MBR signature"))
    } else if idx.0 >= 4 {
        Err(Error::NoSuchVolume)
    } else {
        let start: int = partition_entry_start(idx.0);
        let part_type: u8 = mbr[start + 4];
        if !is_fat_partition_type(part_type) {
            Err(Error::FormatError("Partition type not supported"))
        } else {
            Ok(
                PartitionInfo {
                    part_type,
                    lba_start: BlockIdx(le_u32_value(mbr.subrange(start + 8, start + 12)) as u32),
                    num_blocks: BlockCount(
                        le_u32_value(mbr.subrange(start + 12, start + 16)) as u32,
                    ),
                },
            )
        }
    }
}

/// Read a little-endian `u32` from four bytes of a block.
fn read_le_u32(block: &Block, at: usize) -> (v: u32)
    requires
        at + 4 <= 512,
    ensures
        v == le_u32_value(block.contents@.subrange(at as int, at + 4)),
{
    let b0: u32 = block.contents[at] as u32;
    let b1: u32 = block.contents[at + 1] as u32;
    let b2: u32 = block.contents[at + 2] as u32;
    let b3: u32 = block.contents[at + 3] as u32;
    let v: u32 = b0 | (b1 << 8u32) | (b2 << 16u32) | (b3 << 24u32);
    assert(v == b0 + 256 * b1 + 65536 * b2 + 16777216 * b3) by (bit_vector)
        requires
            b0 < 256,
            b1 < 256,
            b2 < 256,
            b3 < 256,
            v == b0 | (b1 << 8u32) | (b2 << 16u32) | (b3 << 24u32),
    ;
    v
}

/// Decode what the master boot record `mbr` says of partition `volume_idx`.
///
/// Only MBR partitioned disks are supported, and only partitions whose type
/// marks a FAT16 or FAT32 filesystem.
pub fn read_partition<E: core::fmt::Debug>(mbr: &Block, volume_idx: VolumeIdx) -> (r: Result<
    PartitionInfo,
    Error<E>,
>)
    ensures
        r == partition_from_mbr::<E>(mbr.contents@, volume_idx),
{
    if mbr.contents[FOOTER_START] != 0x55 || mbr.contents[FOOTER_START + 1] != 0xAA {
        return Err(Error::FormatError("Invalid MBR signature"));
    }
    if volume_idx.0 >= 4 {
        return Err(Error::NoSuchVolume);
    }
    let start: usize = PARTITION1_START + PARTITION_INFO_LENGTH * volume_idx.0;
    let part_type: u8 = mbr.contents[start + PARTITION_INFO_TYPE_INDEX];
    if part_type != PARTITION_ID_FAT32_CHS_LBA && part_type != PARTITION_ID_FAT32_LBA
        && part_type != PARTITION_ID_FAT16_LBA && part_type != PARTITION_ID_FAT16 {
        return Err(Error::FormatError("Partition type not supported"));
    }
    let lba_start: u32 = read_le_u32(mbr, start + PARTITION_INFO_LBA_START_INDEX);
    let num_blocks: u32 = read_le_u32(mbr, start + PARTITION_INFO_NUM_BLOCKS_INDEX);
    Ok(PartitionInfo { part_type, lba_start: BlockIdx(lba_start), num_blocks: BlockCount(num_blocks) })
}

/// The abstract state of a volume manager: its open volumes, its open
/// directories (each in the order they were recorded) and the next id it
/// will hand out.
pub struct ManagerState {
    /// The open volumes
    pub volumes: Seq<VolumeInfo>,
    /// The open directories
    pub dirs: Seq<DirectoryInfo>,
    /// The id that the next opened volume or directory gets
    pub next_id: u32,
}

impl ManagerState {
    /// Some open directory lies on `volume`.
    pub open spec fn volume_in_use(self, volume: RawVolume) -> bool {
        exists|i: int| 0 <= i < self.dirs.len() && #[trigger] self.dirs[i].volume_id == volume
    }

    /// Some open volume has the handle `volume`.
    pub open spec fn volume_open(self, volume: RawVolume) -> bool {
        exists|i: int| 0 <= i < self.volumes.len() && #[trigger] self.volumes[i].volume_id == volume
    }

    /// Some open volume is the partition with index `idx`.
    pub open spec fn index_open(self, idx: VolumeIdx) -> bool {
        exists|i: int| 0 <= i < self.volumes.len() && #[trigger] self.volumes[i].idx == idx
    }

    /// `i` is the first position of the volume with handle `volume`.
    pub open spec fn is_first_volume(self, volume: RawVolume, i: int) -> bool {
        &&& 0 <= i < self.volumes.len()
        &&& self.volumes[i].volume_id == volume
        &&& forall|j: int| 0 <= j < i ==> #[trigger] self.volumes[j].volume_id != volume
    }

    /// The first position of the volume with handle `volume`.
    pub open spec fn first_volume(self, volume: RawVolume) -> int {
        choose|i: int| self.is_first_volume(volume, i)
    }

    /// The state after `close_volume(volume)`.
    pub open spec fn after_close_volume(self, volume: RawVolume) -> ManagerState {
        if self.volume_in_use(volume) || !self.volume_open(volume) {
            self
        } else {
            let i: int = self.first_volume(volume);
            ManagerState {
                volumes: self.volumes.update(i, self.volumes.last()).drop_last(),
                ..self
            }
        }
    }

    /// What `close_volume(volume)` returns.
    pub open spec fn close_volume_result<E: core::fmt::Debug>(self, volume: RawVolume) -> Result<(), Error<E>> {
        if self.volume_in_use(volume) {
            Err(Error::VolumeStillInUse)
        } else if !self.volume_open(volume) {
            Err(Error::BadHandle)
        } else {
            Ok(())
        }
    }

    /// Some open directory has the handle `directory`.
    pub open spec fn dir_open(self, directory: RawDirectory) -> bool {
        exists|i: int| 0 <= i < self.dirs.len() && #[trigger] self.dirs[i].directory_id == directory
    }

    /// `i` is the first position of the directory with handle `directory`.
    pub open spec fn is_first_dir(self, directory: RawDirectory, i: int) -> bool {
        &&& 0 <= i < self.dirs.len()
        &&& self.dirs[i].directory_id == directory
        &&& forall|j: int| 0 <= j < i ==> #[trigger] self.dirs[j].directory_id != directory
    }

    /// The first position of the directory with handle `directory`.
    pub open spec fn first_dir(self, directory: RawDirectory) -> int {
        choose|i: int| self.is_first_dir(directory, i)
    }

    /// The state after `close_dir(directory)`: the first record of that
    /// directory is replaced by the last record, and the last is dropped.
    pub open spec fn after_close_dir(self, directory: RawDirectory) -> ManagerState {
        if !self.dir_open(directory) {
            self
        } else {
            let i = self.first_dir(directory);
            ManagerState { dirs: self.dirs.update(i, self.dirs.last()).drop_last(), ..self }
        }
    }

    /// What `close_dir(directory)` returns.
    pub open spec fn close_dir_result<E: core::fmt::Debug>(self, directory: RawDirectory) -> Result<
        (),
        Error<E>,
    > {
        if self.dir_open(directory) {
            Ok(())
        } else {
            Err(Error::BadHandle)
        }
    }

    /// An open volume has a first position.
    pub proof fn lemma_first_volume(self, volume: RawVolume, k: int)
        requires
            0 <= k < self.volumes.len(),
            self.volumes[k].volume_id == volume,
        ensures
            self.is_first_volume(volume, self.first_volume(volume)),
        decreases k,
    {
        if exists|j: int| 0 <= j < k && #[trigger] self.volumes[j].volume_id == volume {
            let j = choose|j: int| 0 <= j < k && #[trigger] self.volumes[j].volume_id == volume;
            self.lemma_first_volume(volume, j);
        } else {
            assert(self.is_first_volume(volume, k));
        }
    }

    /// An open directory has a first position.
    pub proof fn lemma_first_dir(self, directory: RawDirectory, k: int)
        requires
            0 <= k < self.dirs.len(),
            self.dirs[k].directory_id == directory,
        ensures
            self.is_first_dir(directory, self.first_dir(directory)),
        decreases k,
    {
        if exists|j: int| 0 <= j < k && #[trigger] self.dirs[j].directory_id == directory {
            let j = choose|j: int| 0 <= j < k && #[trigger] self.dirs[j].directory_id == directory;
            self.lemma_first_dir(directory, j);
        } else {
            assert(self.is_first_dir(directory, k));
        }
    }

    /// The directory record that opening the root directory of `volume`
    /// adds.
    pub open spec fn root_dir_info(self, volume: RawVolume) -> DirectoryInfo {
        DirectoryInfo {
            directory_id: RawDirectory(SearchId(self.next_id)),
            volume_id: volume,
            cluster: ClusterId(ROOT_DIR_CLUSTER),
        }
    }

    /// The state after `open_root_dir(volume)` with room for `max_dirs`
    /// open directories. The id is used up whether or not there is room.
    pub open spec fn after_open_root_dir(self, volume: RawVolume, max_dirs: usize) -> ManagerState {
        ManagerState {
            dirs: if self.dirs.len() < max_dirs {
                self.dirs.push(self.root_dir_info(volume))
            } else {
                self.dirs
            },
            next_id: next_search_id(self.next_id),
            ..self
        }
    }

    /// What `open_root_dir(volume)` returns with room for `max_dirs` open
    /// directories.
    pub open spec fn open_root_dir_result<E: core::fmt::Debug>(self, volume: RawVolume, max_dirs: usize) -> Result<
        RawDirectory,
        Error<E>,
    > {
        if self.dirs.len() < max_dirs {
            Ok(RawDirectory(SearchId(self.next_id)))
        } else {
            Err(Error::TooManyOpenDirs)
        }
    }

    /// Whether `open_raw_volume(idx, ..)` succeeds with room for
    /// `max_volumes` open volumes.
    pub open spec fn can_open_volume(self, idx: VolumeIdx, max_volumes: usize) -> bool {
        self.volumes.len() < max_volumes && !self.index_open(idx)
    }

    /// The state after `open_raw_volume(idx, volume_type)` with room for
    /// `max_volumes` open volumes.
    pub open spec fn after_open_volume(
        self,
        idx: VolumeIdx,
        volume_type: VolumeType,
        max_volumes: usize,
    ) -> ManagerState {
        if self.can_open_volume(idx, max_volumes) {
            ManagerState {
                volumes: self.volumes.push(
                    VolumeInfo { volume_id: RawVolume(SearchId(self.next_id)), idx, volume_type },
                ),
                next_id: next_search_id(self.next_id),
                ..self
            }
        } else {
            self
        }
    }

    /// What `open_raw_volume(idx, ..)` returns with room for `max_volumes`
    /// open volumes.
    pub open spec fn open_volume_result<E: core::fmt::Debug>(self, idx: VolumeIdx, max_volumes: usize) -> Result<
        RawVolume,
        Error<E>,
    > {
        if self.volumes.len() >= max_volumes {
            Err(Error::TooManyOpenVolumes)
        } else if self.index_open(idx) {
            Err(Error::VolumeAlreadyOpen)
        } else {
            Ok(RawVolume(SearchId(self.next_id)))
        }
    }
}

/// A volume cannot be closed while one of its root directories is open:
/// after opening the root directory of `volume`, closing `volume` fails with
/// `VolumeStillInUse` and changes nothing.
pub proof fn lemma_open_dir_blocks_close<E: core::fmt::Debug>(
    s: ManagerState,
    volume: RawVolume,
    max_dirs: usize,
)
    requires
        s.dirs.len() < max_dirs,
    ensures
        ({
            let s1 = s.after_open_root_dir(volume, max_dirs);
            &&& s1.close_volume_result::<E>(volume) == Err::<(), Error<E>>(Error::VolumeStillInUse)
            &&& s1.after_close_volume(volume) == s1
        }),
{
    let s1 = s.after_open_root_dir(volume, max_dirs);
    assert(s1.dirs[s.dirs.len() as int].volume_id == volume);
}

/// Closing the root directory that was just opened gives back the table of
/// open directories as it was, provided no open directory already carries
/// the id that the new one gets; the volume can then be closed if it could
/// be before.
pub proof fn lemma_open_close_dir<E: core::fmt::Debug>(
    s: ManagerState,
    volume: RawVolume,
    max_dirs: usize,
)
    requires
        s.dirs.len() < max_dirs,
        !s.dir_open(RawDirectory(SearchId(s.next_id))),
    ensures
        ({
            let d = RawDirectory(SearchId(s.next_id));
            let s1 = s.after_open_root_dir(volume, max_dirs);
            let s2 = s1.after_close_dir(d);
            &&& s.open_root_dir_result::<E>(volume, max_dirs) == Ok::<RawDirectory, Error<E>>(d)
            &&& s1.close_dir_result::<E>(d) == Ok::<(), Error<E>>(())
            &&& s2.dirs == s.dirs
            &&& s2.volumes == s.volumes
            &&& s2.close_volume_result::<E>(volume) == s.close_volume_result::<E>(volume)
        }),
{
    let d = RawDirectory(SearchId(s.next_id));
    let s1 = s.after_open_root_dir(volume, max_dirs);
    let n: int = s.dirs.len() as int;
    assert(s1.dirs[n].directory_id == d);
    assert(s1.is_first_dir(d, n));
    assert(s1.first_dir(d) == n) by {
        let i: int = s1.first_dir(d);
        assert(s1.is_first_dir(d, i));
        if i < n {
            assert(s.dirs[i].directory_id == d);
        }
    }
    assert(s1.dirs.update(n, s1.dirs.last()).drop_last() =~= s.dirs);
}

/// A volume is closed at most once: when no other open volume shares its
/// handle, after `volume` has been closed, closing it again fails with
/// `BadHandle` and changes nothing.
pub proof fn lemma_close_volume_once<E: core::fmt::Debug>(s: ManagerState, volume: RawVolume)
    requires
        s.close_volume_result::<E>(volume) is Ok,
        forall|i: int, j: int|
            0 <= i < s.volumes.len() && 0 <= j < s.volumes.len() && #[trigger] s.volumes[i].volume_id
                == volume && #[trigger] s.volumes[j].volume_id == volume ==> i == j,
    ensures
        ({
            let s1 = s.after_close_volume(volume);
            &&& s1.close_volume_result::<E>(volume) == Err::<(), Error<E>>(Error::BadHandle)
            &&& s1.after_close_volume(volume) == s1
        }),
{
    let k: int = choose|k: int| 0 <= k < s.volumes.len() && #[trigger] s.volumes[k].volume_id == volume;
    s.lemma_first_volume(volume, k);
    let i: int = s.first_volume(volume);
    let n: int = s.volumes.len() as int;
    let s1 = s.after_close_volume(volume);
    assert forall|j: int| 0 <= j < s1.volumes.len() implies #[trigger] s1.volumes[j].volume_id
        != volume by {
        if j == i {
            assert(s1.volumes[j] == s.volumes[n - 1]);
            assert(s.volumes[n - 1].volume_id != volume || n - 1 == i);
        } else {
            assert(s1.volumes[j] == s.volumes[j]);
            assert(s.volumes[j].volume_id != volume || j == i);
        }
    }
}

/// A root directory may be opened twice: with room for two more open
/// directories, two successive opens of the root directory of `volume` both
/// succeed and hand out different directories.
pub proof fn lemma_root_dir_opens_twice<E: core::fmt::Debug>(
    s: ManagerState,
    volume: RawVolume,
    max_dirs: usize,
)
    requires
        s.dirs.len() + 2 <= max_dirs,
    ensures
        ({
            let s1 = s.after_open_root_dir(volume, max_dirs);
            let r1 = s.open_root_dir_result::<E>(volume, max_dirs);
            let r2 = s1.open_root_dir_result::<E>(volume, max_dirs);
            &&& r1 is Ok
            &&& r2 is Ok
            &&& r1->Ok_0 != r2->Ok_0
        }),
{
}

/// Opening a volume and closing it at once gives back the table of open
/// volumes as it was, provided no open volume or directory already carries
/// the id that the new volume gets.
pub proof fn lemma_open_close_volume<E: core::fmt::Debug>(
    s: ManagerState,
    idx: VolumeIdx,
    volume_type: VolumeType,
    max_volumes: usize,
)
    requires
        s.can_open_volume(idx, max_volumes),
        !s.volume_open(RawVolume(SearchId(s.next_id))),
        !s.volume_in_use(RawVolume(SearchId(s.next_id))),
    ensures
        ({
            let v = RawVolume(SearchId(s.next_id));
            let s1 = s.after_open_volume(idx, volume_type, max_volumes);
            &&& s.open_volume_result::<E>(idx, max_volumes) == Ok::<RawVolume, Error<E>>(v)
            &&& s1.close_volume_result::<E>(v) == Ok::<(), Error<E>>(())
            &&& s1.after_close_volume(v).volumes == s.volumes
            &&& s1.after_close_volume(v).dirs == s.dirs
        }),
{
    let v = RawVolume(SearchId(s.next_id));
    let s1 = s.after_open_volume(idx, volume_type, max_volumes);
    let n: int = s.volumes.len() as int;
    assert(s1.volumes[n].volume_id == v);
    assert(s1.is_first_volume(v, n));
    assert(s1.first_volume(v) == n) by {
        let i: int = s1.first_volume(v);
        assert(s1.is_first_volume(v, i));
        if i < n {
            assert(s.volumes[i].volume_id == v);
        }
    }
    assert(s1.volumes.update(n, s1.volumes.last()).drop_last() =~= s.volumes);
}

/// A partition cannot be open twice: once `idx` has been opened, opening it
/// again (with room for another volume) fails with `VolumeAlreadyOpen` and
/// changes nothing.
pub proof fn lemma_volume_opens_once<E: core::fmt::Debug>(
    s: ManagerState,
    idx: VolumeIdx,
    volume_type: VolumeType,
    other_type: VolumeType,
    max_volumes: usize,
)
    requires
        s.can_open_volume(idx, max_volumes),
        s.volumes.len() + 1 < max_volumes,
    ensures
        ({
            let s1 = s.after_open_volume(idx, volume_type, max_volumes);
            &&& s1.open_volume_result::<E>(idx, max_volumes) == Err::<RawVolume, Error<E>>(
                Error::VolumeAlreadyOpen,
            )
            &&& s1.after_open_volume(idx, other_type, max_volumes) == s1
        }),
{
    let s1 = s.after_open_volume(idx, volume_type, max_volumes);
    assert(s1.volumes[s.volumes.len() as int].idx == idx);
}

/// Only the four FAT partition markers are accepted: decoding succeeds
/// exactly when the record carries the 0x55, 0xAA signature, the index is
/// below four and the entry's type byte is 0x06, 0x0B, 0x0C or 0x0E; a valid
/// record with any other type byte is refused as unsupported; and a decoded
/// partition carries the entry's type byte and its little-endian start and
/// length.
pub proof fn lemma_partition_decoding<E: core::fmt::Debug>(mbr: Seq<u8>, idx: VolumeIdx)
    requires
        mbr.len() == 512,
    ensures
        ({
            let r = partition_from_mbr::<E>(mbr, idx);
            let valid = mbr[510] == 0x55u8 && mbr[511] == 0xAAu8 && idx.0 < 4;
            let s = 446 + 16 * idx.0;
            let t = mbr[s + 4];
            let fat = t == 0x06u8 || t == 0x0Bu8 || t == 0x0Cu8 || t == 0x0Eu8;
            &&& r is Ok <==> valid && fat
            &&& valid && !fat ==> r == Err::<PartitionInfo, Error<E>>(
                Error::FormatError("Partition type not supported"),
            )
            &&& (mbr[510] != 0x55u8 || mbr[511] != 0xAAu8) ==> r == Err::<PartitionInfo, Error<E>>(
                Error::FormatError("Invalid MBR signature"),
            )
            &&& mbr[510] == 0x55u8 && mbr[511] == 0xAAu8 && idx.0 >= 4 ==> r == Err::<
                PartitionInfo,
                Error<E>,
            >(Error::NoSuchVolume)
            &&& r is Ok ==> {
                &&& r->Ok_0.part_type == t
                &&& r->Ok_0.lba_start.0 == mbr[s + 8] + 256 * mbr[s + 9] + 65536 * mbr[s + 10]
                    + 16777216 * mbr[s + 11]
                &&& r->Ok_0.num_blocks.0 == mbr[s + 12] + 256 * mbr[s + 13] + 65536 * mbr[s + 14]
                    + 16777216 * mbr[s + 15]
            }
        }),
{
    let s = 446 + 16 * idx.0;
    if idx.0 < 4 {
        let a = mbr.subrange(s + 8, s + 12);
        let b = mbr.subrange(s + 12, s + 16);
        assert(a[0] == mbr[s + 8] && a[1] == mbr[s + 9] && a[2] == mbr[s + 10] && a[3] == mbr[s
            + 11]);
        assert(b[0] == mbr[s + 12] && b[1] == mbr[s + 13] && b[2] == mbr[s + 14] && b[3] == mbr[s
            + 15]);
        assert(le_u32_value(a) < 0x1_0000_0000) by (nonlinear_arith)
            requires
                le_u32_value(a) == a[0] + 256 * a[1] + 65536 * a[2] + 16777216 * a[3],
                a[0] < 256,
                a[1] < 256,
                a[2] < 256,
                a[3] < 256,
        ;
        assert(le_u32_value(b) < 0x1_0000_0000) by (nonlinear_arith)
            requires
                le_u32_value(b) == b[0] + 256 * b[1] + 65536 * b[2] + 16777216 * b[3],
                b[0] < 256,
                b[1] < 256,
                b[2] < 256,
                b[3] < 256,
        ;
    }
}

/// A volume with any open directory on it, wherever that directory stands
/// in the table, cannot be closed: `close_volume` fails with
/// `VolumeStillInUse` and changes nothing. Conversely, a close that
/// succeeds leaves no directory on that volume.
pub proof fn lemma_close_refused_while_in_use<E: core::fmt::Debug>(
    s: ManagerState,
    volume: RawVolume,
)
    ensures
        (exists|i: int| 0 <= i < s.dirs.len() && s.dirs[i].volume_id == volume) ==> {
            &&& s.close_volume_result::<E>(volume) == Err::<(), Error<E>>(Error::VolumeStillInUse)
            &&& s.after_close_volume(volume) == s
        },
        s.close_volume_result::<E>(volume) is Ok ==> forall|i: int|
            0 <= i < s.dirs.len() ==> s.dirs[i].volume_id != volume,
{
    if exists|i: int| 0 <= i < s.dirs.len() && s.dirs[i].volume_id == volume {
        let i = choose|i: int| 0 <= i < s.dirs.len() && s.dirs[i].volume_id == volume;
        assert(s.dirs[i].volume_id == volume);
    }
}

/// Closing a directory removes one record of it and no other: it succeeds
/// exactly when some open directory has the handle (otherwise `BadHandle`,
/// with nothing changed); then the table shrinks by one, every record of
/// another directory is open after exactly when it was open before, and a
/// directory recorded once is no longer open.
pub proof fn lemma_close_dir_effect<E: core::fmt::Debug>(s: ManagerState, directory: RawDirectory)
    ensures
        (s.close_dir_result::<E>(directory) is Ok) <==> (exists|i: int|
            0 <= i < s.dirs.len() && s.dirs[i].directory_id == directory),
        s.close_dir_result::<E>(directory) is Err ==> {
            &&& s.close_dir_result::<E>(directory) == Err::<(), Error<E>>(Error::BadHandle)
            &&& s.after_close_dir(directory) == s
        },
        s.close_dir_result::<E>(directory) is Ok ==> {
            let t = s.after_close_dir(directory);
            &&& t.dirs.len() == s.dirs.len() - 1
            &&& t.volumes == s.volumes
            &&& t.next_id == s.next_id
            &&& forall|x: DirectoryInfo|
                x.directory_id != directory ==> (t.dirs.contains(x) <==> s.dirs.contains(x))
            &&& (forall|i: int, j: int|
                0 <= i < s.dirs.len() && 0 <= j < s.dirs.len() && s.dirs[i].directory_id
                    == directory && s.dirs[j].directory_id == directory ==> i == j) ==> forall|
                j: int,
            | 0 <= j < t.dirs.len() ==> t.dirs[j].directory_id != directory
        },
{
    if exists|i: int| 0 <= i < s.dirs.len() && s.dirs[i].directory_id == directory {
        let k = choose|i: int| 0 <= i < s.dirs.len() && s.dirs[i].directory_id == directory;
        assert(s.dirs[k].directory_id == directory);
        assert(s.dir_open(directory));
        s.lemma_first_dir(directory, k);
        let i = s.first_dir(directory);
        let n = s.dirs.len() as int;
        let t = s.after_close_dir(directory);
        assert forall|x: DirectoryInfo| x.directory_id != directory implies (t.dirs.contains(x)
            <==> s.dirs.contains(x)) by {
            if s.dirs.contains(x) {
                let m = choose|m: int| 0 <= m < n && s.dirs[m] == x;
                if m == n - 1 {
                    assert(t.dirs[i] == x);
                } else {
                    assert(t.dirs[m] == x);
                }
            }
            if t.dirs.contains(x) {
                let m = choose|m: int| 0 <= m < t.dirs.len() && t.dirs[m] == x;
                if m == i {
                    assert(s.dirs[n - 1] == x);
                } else {
                    assert(s.dirs[m] == x);
                }
            }
        }
        if forall|a: int, b: int|
            0 <= a < s.dirs.len() && 0 <= b < s.dirs.len() && s.dirs[a].directory_id == directory
                && s.dirs[b].directory_id == directory ==> a == b {
            assert forall|j: int| 0 <= j < t.dirs.len() implies t.dirs[j].directory_id
                != directory by {
                if j == i {
                    assert(t.dirs[j] == s.dirs[n - 1]);
                } else {
                    assert(t.dirs[j] == s.dirs[j]);
                }
            }
        }
    } else {
        assert(!s.dir_open(directory));
    }
}

/// Closing a volume removes one record of it and no other: when it
/// succeeds, the table shrinks by one, every record of another volume is
/// open after exactly when it was open before, the directories are kept,
/// and a volume recorded once is no longer open.
pub proof fn lemma_close_volume_effect<E: core::fmt::Debug>(s: ManagerState, volume: RawVolume)
    ensures
        (s.close_volume_result::<E>(volume) is Ok) <==> (exists|i: int|
            0 <= i < s.volumes.len() && s.volumes[i].volume_id == volume) && (forall|i: int|
            0 <= i < s.dirs.len() ==> s.dirs[i].volume_id != volume),
        s.close_volume_result::<E>(volume) is Err ==> s.after_close_volume(volume) == s,
        s.close_volume_result::<E>(volume) is Ok ==> {
            let t = s.after_close_volume(volume);
            &&& t.volumes.len() == s.volumes.len() - 1
            &&& t.dirs == s.dirs
            &&& t.next_id == s.next_id
            &&& forall|x: VolumeInfo|
                x.volume_id != volume ==> (t.volumes.contains(x) <==> s.volumes.contains(x))
            &&& (forall|i: int, j: int|
                0 <= i < s.volumes.len() && 0 <= j < s.volumes.len() && s.volumes[i].volume_id
                    == volume && s.volumes[j].volume_id == volume ==> i == j) ==> forall|
                j: int,
            | 0 <= j < t.volumes.len() ==> t.volumes[j].volume_id != volume
        },
{
    lemma_close_refused_while_in_use::<E>(s, volume);
    if exists|i: int| 0 <= i < s.volumes.len() && s.volumes[i].volume_id == volume {
        let k = choose|i: int| 0 <= i < s.volumes.len() && s.volumes[i].volume_id == volume;
        assert(s.volumes[k].volume_id == volume);
        assert(s.volume_open(volume));
        s.lemma_first_volume(volume, k);
    } else {
        assert(!s.volume_open(volume));
    }
    if s.close_volume_result::<E>(volume) is Ok {
        let i = s.first_volume(volume);
        let n = s.volumes.len() as int;
        let t = s.after_close_volume(volume);
        assert forall|x: VolumeInfo| x.volume_id != volume implies (t.volumes.contains(x)
            <==> s.volumes.contains(x)) by {
            if s.volumes.contains(x) {
                let m = choose|m: int| 0 <= m < n && s.volumes[m] == x;
                if m == n - 1 {
                    assert(t.volumes[i] == x);
                } else {
                    assert(t.volumes[m] == x);
                }
            }
            if t.volumes.contains(x) {
                let m = choose|m: int| 0 <= m < t.volumes.len() && t.volumes[m] == x;
                if m == i {
                    assert(s.volumes[n - 1] == x);
                } else {
                    assert(s.volumes[m] == x);
                }
            }
        }
        if forall|a: int, b: int|
            0 <= a < s.volumes.len() && 0 <= b < s.volumes.len() && s.volumes[a].volume_id
                == volume && s.volumes[b].volume_id == volume ==> a == b {
            assert forall|j: int| 0 <= j < t.volumes.len() implies t.volumes[j].volume_id
                != volume by {
                if j == i {
                    assert(t.volumes[j] == s.volumes[n - 1]);
                } else {
                    assert(t.volumes[j] == s.volumes[j]);
                }
            }
        }
    }
}

/// A partition that is open, wherever it stands in the table, cannot be
/// opened again: the result is `VolumeAlreadyOpen` (or `TooManyOpenVolumes`
/// when the table is full) and nothing changes. An open that succeeds adds
/// exactly one record, for a partition that was not open, under the handle
/// of the next id, keeping every earlier record.
pub proof fn lemma_open_volume_effect<E: core::fmt::Debug>(
    s: ManagerState,
    idx: VolumeIdx,
    volume_type: VolumeType,
    max_volumes: usize,
)
    ensures
        (exists|i: int| 0 <= i < s.volumes.len() && s.volumes[i].idx == idx) ==> {
            &&& s.open_volume_result::<E>(idx, max_volumes) == Err::<RawVolume, Error<E>>(
                Error::VolumeAlreadyOpen,
            ) || s.open_volume_result::<E>(idx, max_volumes) == Err::<RawVolume, Error<E>>(
                Error::TooManyOpenVolumes,
            )
            &&& s.after_open_volume(idx, volume_type, max_volumes) == s
        },
        s.volumes.len() >= max_volumes ==> s.open_volume_result::<E>(idx, max_volumes) == Err::<
            RawVolume,
            Error<E>,
        >(Error::TooManyOpenVolumes) && s.after_open_volume(idx, volume_type, max_volumes) == s,
        s.open_volume_result::<E>(idx, max_volumes) is Ok ==> {
            let t = s.after_open_volume(idx, volume_type, max_volumes);
            let v = s.open_volume_result::<E>(idx, max_volumes)->Ok_0;
            &&& forall|i: int| 0 <= i < s.volumes.len() ==> s.volumes[i].idx != idx
            &&& s.volumes.len() < max_volumes
            &&& v.0.0 == s.next_id
            &&& t.volumes.len() == s.volumes.len() + 1
            &&& t.volumes.subrange(0, s.volumes.len() as int) == s.volumes
            &&& t.volumes[s.volumes.len() as int].volume_id == v
            &&& t.volumes[s.volumes.len() as int].idx == idx
            &&& t.volumes[s.volumes.len() as int].volume_type == volume_type
            &&& t.dirs == s.dirs
            &&& t.next_id != s.next_id
        },
{
    if exists|i: int| 0 <= i < s.volumes.len() && s.volumes[i].idx == idx {
        let i = choose|i: int| 0 <= i < s.volumes.len() && s.volumes[i].idx == idx;
        assert(s.volumes[i].idx == idx);
    }
    if s.open_volume_result::<E>(idx, max_volumes) is Ok {
        let t = s.after_open_volume(idx, volume_type, max_volumes);
        assert(t.volumes.subrange(0, s.volumes.len() as int) =~= s.volumes);
    }
}

/// A volume manager is the root of the filesystem: it owns the block device
/// and the time source, and keeps track of which volumes and directories are
/// open.
pub struct VolumeManager<
    D,
    T,
    const MAX_DIRS: usize,
    const MAX_FILES: usize,
    const MAX_VOLUMES: usize,
> where D: BlockDevice, T: TimeSource {
    block_device: D,
    time_source: T,
    id_generator: SearchIdGenerator,
    open_volumes: Vec<VolumeInfo>,
    open_dirs: Vec<DirectoryInfo>,
}

impl<
    D,
    T,
    const MAX_DIRS: usize,
    const MAX_FILES: usize,
    const MAX_VOLUMES: usize,
> VolumeManager<D, T, MAX_DIRS, MAX_FILES, MAX_VOLUMES> where D: BlockDevice, T: TimeSource {
    /// The open volumes, the open directories and the next id.
    pub closed spec fn state(self) -> ManagerState {
        ManagerState {
            volumes: self.open_volumes@,
            dirs: self.open_dirs@,
            next_id: self.id_generator.peek(),
        }
    }

    /// The block device that this manager owns.
    pub closed spec fn block_device(self) -> D {
        self.block_device
    }

    /// The time source that this manager owns.
    pub closed spec fn time_source(self) -> T {
        self.time_source
    }

    /// The manager owns the same block device and time source as `other`.
    pub open spec fn same_parts(self, other: Self) -> bool {
        self.block_device() == other.block_device() && self.time_source() == other.time_source()
    }

    /// Create a new volume manager with no open volumes or directories;
    /// its ids start at 5000.
    pub fn new(block_device: D, time_source: T) -> (m: Self)
        ensures
            m.state() == (ManagerState {
                volumes: Seq::empty(),
                dirs: Seq::empty(),
                next_id: 5000,
            }),
            m.block_device() == block_device,
            m.time_source() == time_source,
    {
        Self::new_with_limits(block_device, time_source, 5000)
    }

    /// Create a new volume manager with no open volumes or directories,
    /// whose ids start at `id_offset`.
    pub fn new_with_limits(block_device: D, time_source: T, id_offset: u32) -> (m: Self)
        ensures
            m.state() == (ManagerState {
                volumes: Seq::empty(),
                dirs: Seq::empty(),
                next_id: id_offset,
            }),
            m.block_device() == block_device,
            m.time_source() == time_source,
    {
        let m = VolumeManager {
            block_device,
            time_source,
            id_generator: SearchIdGenerator::new(id_offset),
            open_volumes: Vec::new(),
            open_dirs: Vec::new(),
        };
        assert(m.state().volumes =~= Seq::<VolumeInfo>::empty());
        assert(m.state().dirs =~= Seq::<DirectoryInfo>::empty());
        m
    }

    /// Record the partition `volume_idx`, whose layout is `volume_type`, as
    /// an open volume and return its handle.
    pub fn open_raw_volume(&mut self, volume_idx: VolumeIdx, volume_type: VolumeType) -> (r: Result<
        RawVolume,
        Error<D::Error>,
    >)
        ensures
            r == old(self).state().open_volume_result::<D::Error>(volume_idx, MAX_VOLUMES),
            final(self).same_parts(*old(self)),
            final(self).state() == old(self).state().after_open_volume(
                volume_idx,
                volume_type,
                MAX_VOLUMES,
            ),
    {
        if self.open_volumes.len() >= MAX_VOLUMES {
            return Err(Error::TooManyOpenVolumes);
        }
        let n: usize = self.open_volumes.len();
        for i in 0..n
            invariant
                n == self.open_volumes.len(),
                n < MAX_VOLUMES,
                self.state() == old(self).state(),
                forall|j: int| 0 <= j < i ==> #[trigger] self.open_volumes@[j].idx != volume_idx,
        {
            if self.open_volumes[i].idx == volume_idx {
                assert(old(self).state().volumes[i as int].idx == volume_idx);
                return Err(Error::VolumeAlreadyOpen);
            }
        }
        let id = RawVolume(self.id_generator.get());
        let info = VolumeInfo { volume_id: id, idx: volume_idx, volume_type };
        self.open_volumes.push(info);
        Ok(id)
    }

    /// Open the root directory of `volume`. Opening a root directory twice
    /// is allowed.
    pub fn open_root_dir(&mut self, volume: RawVolume) -> (r: Result<RawDirectory, Error<D::Error>>)
        ensures
            r == old(self).state().open_root_dir_result::<D::Error>(volume, MAX_DIRS),
            final(self).same_parts(*old(self)),
            final(self).state() == old(self).state().after_open_root_dir(volume, MAX_DIRS),
    {
        let directory_id = RawDirectory(self.id_generator.get());
        let dir_info = DirectoryInfo {
            volume_id: volume,
            cluster: ClusterId(ROOT_DIR_CLUSTER),
            directory_id,
        };
        if self.open_dirs.len() >= MAX_DIRS {
            return Err(Error::TooManyOpenDirs);
        }
        self.open_dirs.push(dir_info);
        Ok(directory_id)
    }

    /// Close a directory. Fails with `BadHandle` if no open directory has
    /// this handle.
    pub fn close_dir(&mut self, directory: RawDirectory) -> (r: Result<(), Error<D::Error>>)
        ensures
            r == old(self).state().close_dir_result::<D::Error>(directory),
            final(self).same_parts(*old(self)),
            final(self).state() == old(self).state().after_close_dir(directory),
    {
        let nd: usize = self.open_dirs.len();
        let mut idx: usize = 0;
        while idx < nd && self.open_dirs[idx].directory_id != directory
            invariant
                nd == self.open_dirs.len(),
                self.state() == old(self).state(),
                idx <= nd,
                forall|j: int| 0 <= j < idx ==> #[trigger] self.open_dirs@[j].directory_id != directory,
            decreases nd - idx,
        {
            idx = idx + 1;
        }
        if idx == nd {
            return Err(Error::BadHandle);
        }
        proof {
            let s = old(self).state();
            assert(s.is_first_dir(directory, idx as int));
            assert(s.dir_open(directory));
            assert(s.first_dir(directory) == idx as int);
        }
        self.open_dirs.swap_remove(idx);
        Ok(())
    }

    /// Close a volume. Fails if any directory on it is still open, or if no
    /// open volume has this handle.
    pub fn close_volume(&mut self, volume: RawVolume) -> (r: Result<(), Error<D::Error>>)
        ensures
            r == old(self).state().close_volume_result::<D::Error>(volume),
            final(self).same_parts(*old(self)),
            final(self).state() == old(self).state().after_close_volume(volume),
    {
        let nd: usize = self.open_dirs.len();
        for i in 0..nd
            invariant
                nd == self.open_dirs.len(),
                self.state() == old(self).state(),
                forall|j: int| 0 <= j < i ==> #[trigger] self.open_dirs@[j].volume_id != volume,
        {
            if self.open_dirs[i].volume_id == volume {
                assert(old(self).state().dirs[i as int].volume_id == volume);

                return Err(Error::VolumeStillInUse);
            }
        }
        let nv: usize = self.open_volumes.len();
        let mut idx: usize = 0;
        while idx < nv && self.open_volumes[idx].volume_id != volume
            invariant
                nv == self.open_volumes.len(),
                self.state() == old(self).state(),
                idx <= nv,
                forall|j: int| 0 <= j < idx ==> #[trigger] self.open_volumes@[j].volume_id != volume,
            decreases nv - idx,
        {
            idx = idx + 1;
        }
        if idx == nv {
            return Err(Error::BadHandle);
        }
        proof {
            let s = old(self).state();
            assert(s.is_first_volume(volume, idx as int));
            assert(s.volume_open(volume));
            assert(s.first_volume(volume) == idx as int);
        }
        self.open_volumes.swap_remove(idx);
        Ok(())
    }
}

} // verus!
