use embedded_sdmmc::{
    read_partition, Block, BlockCount, BlockDevice, BlockIdx, ClusterId, Error, FatVolume,
    PartitionInfo, RawDirectory, RawVolume, SearchId, TimeSource, Timestamp, Volume, VolumeIdx, VolumeManager,
    VolumeType,
};
use embedded_sdmmc::fat::{Fat32Info, FatSpecificInfo};

#[derive(Debug, Clone, PartialEq)]
struct DummyError;

struct DummyDevice;

impl BlockDevice for DummyDevice {
    type Error = DummyError;
}

struct DummyClock;

impl TimeSource for DummyClock {
    fn get_timestamp(&self) -> Timestamp {
        Timestamp::from_fat(0, 0)
    }
}

fn fat32_volume() -> VolumeType {
    VolumeType::Fat(FatVolume {
        lba_start: BlockIdx(2048),
        num_blocks: BlockCount(1000),
        blocks_per_cluster: 8,
        cluster_count: 100,
        fat_specific_info: FatSpecificInfo::Fat32(Fat32Info {
            first_root_dir_cluster: ClusterId(2),
            info_location: BlockIdx(2049),
        }),
    })
}

type Mgr = VolumeManager<DummyDevice, DummyClock, 2, 4, 2>;

fn manager() -> Mgr {
    VolumeManager::new(DummyDevice, DummyClock)
}

#[test]
fn first_volume_gets_id_5000() {
    let mut mgr = manager();
    let v = mgr.open_raw_volume(VolumeIdx(0), fat32_volume()).unwrap();
    assert_eq!(v, RawVolume(SearchId(5000)));
}

#[test]
fn volume_cannot_be_opened_twice() {
    let mut mgr = manager();
    mgr.open_raw_volume(VolumeIdx(0), fat32_volume()).unwrap();
    assert!(matches!(
        mgr.open_raw_volume(VolumeIdx(0), fat32_volume()),
        Err(Error::VolumeAlreadyOpen)
    ));
}

#[test]
fn too_many_open_volumes() {
    let mut mgr = manager();
    mgr.open_raw_volume(VolumeIdx(0), fat32_volume()).unwrap();
    mgr.open_raw_volume(VolumeIdx(1), fat32_volume()).unwrap();
    assert!(matches!(
        mgr.open_raw_volume(VolumeIdx(2), fat32_volume()),
        Err(Error::TooManyOpenVolumes)
    ));
}

#[test]
fn open_root_dir_hands_out_distinct_ids_until_full() {
    let mut mgr = manager();
    let raw = mgr.open_raw_volume(VolumeIdx(0), fat32_volume()).unwrap();
    let mut volume = raw.to_volume(&mut mgr);
    let d1 = volume.open_root_dir().unwrap().to_raw_directory();
    let d2 = volume.open_root_dir().unwrap().to_raw_directory();
    assert_eq!(d1, RawDirectory(SearchId(5001)));
    assert_eq!(d2, RawDirectory(SearchId(5002)));
    assert!(matches!(volume.open_root_dir(), Err(Error::TooManyOpenDirs)));
    assert_eq!(volume.to_raw_volume(), raw);
}

#[test]
fn volume_with_open_dir_cannot_be_closed() {
    let mut mgr = manager();
    let raw = mgr.open_raw_volume(VolumeIdx(0), fat32_volume()).unwrap();
    {
        let mut volume = Volume::new(raw, &mut mgr);
        volume.open_root_dir().unwrap().to_raw_directory();
        let back = volume.to_raw_volume();
        assert_eq!(back, raw);
    }
    assert!(matches!(mgr.close_volume(raw), Err(Error::VolumeStillInUse)));
}

#[test]
fn close_volume_then_reopen() {
    let mut mgr = manager();
    let raw = mgr.open_raw_volume(VolumeIdx(0), fat32_volume()).unwrap();
    let volume = raw.to_volume(&mut mgr);
    volume.close();
    assert!(matches!(mgr.close_volume(raw), Err(Error::BadHandle)));
    let again = mgr.open_raw_volume(VolumeIdx(0), fat32_volume()).unwrap();
    assert_eq!(again, RawVolume(SearchId(5001)));
}

#[test]
fn closing_the_directory_frees_the_volume() {
    let mut mgr = manager();
    let raw = mgr.open_raw_volume(VolumeIdx(0), fat32_volume()).unwrap();
    let mut volume = raw.to_volume(&mut mgr);
    let dir = volume.open_root_dir().unwrap();
    assert!(dir.close().is_ok());
    volume.close();
    assert!(matches!(mgr.close_volume(raw), Err(Error::BadHandle)));
}

#[test]
fn close_dir_through_manager() {
    let mut mgr = manager();
    let raw = mgr.open_raw_volume(VolumeIdx(0), fat32_volume()).unwrap();
    let d = mgr.open_root_dir(raw).unwrap();
    assert_eq!(d, RawDirectory(SearchId(5001)));
    assert!(matches!(mgr.close_volume(raw), Err(Error::VolumeStillInUse)));
    assert!(mgr.close_dir(d).is_ok());
    assert!(matches!(mgr.close_dir(d), Err(Error::BadHandle)));
    assert!(mgr.close_volume(raw).is_ok());
}

#[test]
fn raw_directory_round_trip() {
    let mut mgr = manager();
    let raw = mgr.open_raw_volume(VolumeIdx(0), fat32_volume()).unwrap();
    let d = mgr.open_root_dir(raw).unwrap();
    let dir = d.to_directory(&mut mgr);
    assert_eq!(dir.to_raw_directory(), d);
    let dir = d.to_directory(&mut mgr);
    assert!(dir.close().is_ok());
    let dir = d.to_directory(&mut mgr);
    assert!(matches!(dir.close(), Err(Error::BadHandle)));
}

#[test]
fn close_unknown_volume_is_bad_handle() {
    let mut mgr = manager();
    assert!(matches!(
        mgr.close_volume(RawVolume(SearchId(1))),
        Err(Error::BadHandle)
    ));
}

#[test]
fn volume_debug_string() {
    let mut mgr = manager();
    let raw = mgr.open_raw_volume(VolumeIdx(0), fat32_volume()).unwrap();
    let volume = raw.to_volume(&mut mgr);
    assert_eq!(volume.to_debug_string(), "Volume(5000)");
    let volume = RawVolume(SearchId(7)).to_volume(&mut mgr);
    assert_eq!(volume.to_debug_string(), "Volume(7)");
    let volume = RawVolume(SearchId(u32::MAX)).to_volume(&mut mgr);
    assert_eq!(volume.to_debug_string(), "Volume(4294967295)");
}

#[test]
fn device_error_converts() {
    let e: Error<DummyError> = Error::from(DummyError);
    assert!(matches!(e, Error::DeviceError(DummyError)));
}

fn mbr_with(entry: usize, part_type: u8, lba: u32, blocks: u32) -> Block {
    let mut b = Block { contents: [0u8; 512] };
    let start = 446 + 16 * entry;
    b.contents[start + 4] = part_type;
    b.contents[start + 8..start + 12].copy_from_slice(&lba.to_le_bytes());
    b.contents[start + 12..start + 16].copy_from_slice(&blocks.to_le_bytes());
    b.contents[510] = 0x55;
    b.contents[511] = 0xAA;
    b
}

#[test]
fn read_partition_decodes_entry() {
    let mbr = mbr_with(1, 0x0C, 0x0000_0800, 0x0012_3456);
    let p = read_partition::<DummyError>(&mbr, VolumeIdx(1)).unwrap();
    assert_eq!(
        p,
        PartitionInfo {
            part_type: 0x0C,
            lba_start: BlockIdx(0x800),
            num_blocks: BlockCount(0x0012_3456)
        }
    );
}

#[test]
fn read_partition_accepts_fat_types() {
    for &t in &[0x0Bu8, 0x0C, 0x0E, 0x06] {
        let mbr = mbr_with(3, t, 1, 2);
        assert!(read_partition::<DummyError>(&mbr, VolumeIdx(3)).is_ok());
    }
}

#[test]
fn read_partition_rejects_bad_signature() {
    let mut mbr = mbr_with(0, 0x0C, 1, 2);
    mbr.contents[511] = 0x00;
    assert!(matches!(
        read_partition::<DummyError>(&mbr, VolumeIdx(0)),
        Err(Error::FormatError("Invalid MBR signature"))
    ));
}

#[test]
fn read_partition_rejects_fifth_partition() {
    let mbr = mbr_with(0, 0x0C, 1, 2);
    assert!(matches!(
        read_partition::<DummyError>(&mbr, VolumeIdx(4)),
        Err(Error::NoSuchVolume)
    ));
}

#[test]
fn read_partition_rejects_other_types() {
    let mbr = mbr_with(0, 0x83, 1, 2);
    assert!(matches!(
        read_partition::<DummyError>(&mbr, VolumeIdx(0)),
        Err(Error::FormatError("Partition type not supported"))
    ));
}
