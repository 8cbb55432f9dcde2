# embedded_sdmmc (verified core)

The FAT directory-entry encoding, timestamps, partition-table decoding and
the open-volume / open-directory bookkeeping of an SD/MMC filesystem
library, written in Verus with their contracts proved.

- `src/filesystem/` — short file names, attributes, cluster ids, search ids,
  timestamps (FAT time/date words), directory handles (`RawDirectory`, and
  `Directory`, which borrows its manager) and directory entries
  (`DirEntry::serialize` gives the 32 on-disk bytes).
- `src/fat.rs` — FAT16/FAT32 volume layout types.
- `src/blockdevice.rs` — blocks, block numbers and the block device trait.
- `src/volume_mgr.rs` — the volume manager's tables (`ManagerState` is its
  abstract state), master boot record decoding, and the laws relating
  opening and closing.
- `src/lib.rs` — the error type, raw volume handles and the `Volume` wrapper
  that borrows its manager.
