//! The volume: validated geometry, the loaded allocation table, and the
//! partition image the driver reads from.
//!
//! A volume is opened from the raw bytes of one partition (superblock
//! first), validated atomically — no partially initialized volume ever
//! escapes — and then shared read-only by every derived file and
//! directory iterator through a reference-counted handle. With the whole
//! partition held immutably in memory there is no shared seek cursor, so
//! the handle needs no lock.

use std::sync::Arc;

use vstd::prelude::*;

use crate::bytes::{le32, read_le32};
use crate::error::Error;
use crate::fat::{add_round_up_4096, Fat};
use crate::partition::{spec_from_letter, PartitionMapEntry};

verus! {

/// The format's 4-byte magic tag, `FATX` in little-endian order.
pub const FATX_SIGNATURE: u32 = 0x58544146;

/// The allocation table begins this many bytes into the partition.
pub const FATX_FAT_OFFSET_BYTES: u64 = 4096;

/// Cluster ids are 1-based; id 0 is reserved.
pub const FATX_FAT_RESERVED_ENTRIES_COUNT: u32 = 1;

/// Largest partition byte offset the driver accepts; keeps every absolute
/// byte offset the geometry can produce within `u64`.
pub const MAX_PARTITION_OFFSET_BYTES: u64 = 0x1000000000000000;

/// Largest partition byte size the driver accepts; keeps every
/// partition-relative offset within `u64` and the table entry count within
/// reach of a bounds check.
pub const MAX_PARTITION_SIZE_BYTES: u64 = 0x1000000000000;

/// Sector size fixed by the format.
pub const FATX_SECTOR_SIZE: u64 = 512;

/// The sectors-per-cluster field must be a power of two of at most 1024
/// sectors; this enumerates exactly those values.
pub open spec fn spec_valid_sectors_per_cluster(spc: u32) -> bool {
    ||| spc == 1
    ||| spc == 2
    ||| spc == 4
    ||| spc == 8
    ||| spc == 16
    ||| spc == 32
    ||| spc == 64
    ||| spc == 128
    ||| spc == 256
    ||| spc == 512
    ||| spc == 1024
}

/// Width in bytes of an allocation-table entry for a table of `n` entries.
pub open spec fn spec_fat_width(n: int) -> int {
    if n < 0xfff0 {
        2
    } else {
        4
    }
}

/// On-disk byte length of an allocation table of `n` entries: entry count
/// times width, rounded up to the next 4096-byte boundary.
pub open spec fn spec_fat_size_bytes(n: int) -> int {
    add_round_up_4096(n * spec_fat_width(n))
}

/// The outcome of validating a partition image against the offset and size
/// it was opened with, in the order the checks are made: alignment and
/// bound of the offset, then of the size, the image length, the signature,
/// the cluster geometry, the root cluster, and that the allocation table
/// fits inside the partition.
pub open spec fn open_check(offset: u64, size: u64, img: Seq<u8>) -> Result<(), Error> {
    let bpc = le32(img, 8) * 512;
    let nfe = size as int / bpc;
    if offset % 512 != 0 || offset > MAX_PARTITION_OFFSET_BYTES {
        Err(Error::InvalidPartitionOffset)
    } else if size % 512 != 0 || size > MAX_PARTITION_SIZE_BYTES {
        Err(Error::InvalidPartitionSize)
    } else if img.len() != size || size < 4096 {
        Err(Error::Io)
    } else if le32(img, 0) != FATX_SIGNATURE {
        Err(Error::InvalidFilesystemSignature)
    } else if !spec_valid_sectors_per_cluster(le32(img, 8) as u32) {
        Err(Error::InvalidSectorsPerCluster)
    } else if nfe >= u32::MAX {
        Err(Error::InvalidPartitionSize)
    } else if le32(img, 12) >= nfe {
        Err(Error::InvalidRootCluster)
    } else if 4096 + spec_fat_size_bytes(nfe) > size {
        Err(Error::Io)
    } else {
        Ok(())
    }
}

/// An opened, validated volume.
pub struct FatxFs {
    /// The partition's bytes, superblock first.
    pub image: Vec<u8>,
    pub partition_offset_bytes: u64,
    pub partition_size_bytes: u64,
    pub num_clusters: u32,
    pub num_bytes_per_cluster: u64,
    pub num_entries_per_cluster: u64,
    pub root_cluster: u32,
    /// Absolute device byte offset of cluster 1.
    pub cluster_offset_bytes: u64,
    pub fat: Fat,
}

impl FatxFs {
    /// Entry count of the allocation table, fixed by the partition size
    /// and the cluster size.
    pub open spec fn spec_num_fat_entries(self) -> int {
        self.partition_size_bytes as int / self.num_bytes_per_cluster as int
    }

    /// Geometry invariants established by `open_device` and relied on by
    /// every reader.
    pub open spec fn wf(self) -> bool {
        &&& self.fat.wf()
        &&& self.image@.len() == self.partition_size_bytes
        &&& self.partition_offset_bytes % 512 == 0
        &&& self.partition_size_bytes % 512 == 0
        &&& self.partition_offset_bytes <= MAX_PARTITION_OFFSET_BYTES
        &&& self.partition_size_bytes <= MAX_PARTITION_SIZE_BYTES
        &&& 512 <= self.num_bytes_per_cluster <= 524288
        &&& self.num_bytes_per_cluster % 64 == 0
        &&& self.num_entries_per_cluster == self.num_bytes_per_cluster / 64
        &&& 4096 + self.fat.fat_size_bytes <= self.partition_size_bytes
        &&& self.cluster_offset_bytes == self.partition_offset_bytes + 4096
            + self.fat.fat_size_bytes
        &&& self.num_clusters == (self.partition_size_bytes - 4096
            - self.fat.fat_size_bytes) as int / self.num_bytes_per_cluster as int + 1
        &&& self.root_cluster < self.spec_num_fat_entries()
    }

    /// Partition-relative byte offset of cluster `cluster` (1-based).
    pub open spec fn spec_cluster_rel_off(self, cluster: int) -> int {
        4096 + self.fat.fat_size_bytes + (cluster - 1) * self.num_bytes_per_cluster
    }

    /// Whether `cluster` is an id the cluster region can serve.
    pub open spec fn spec_cluster_in_range(self, cluster: int) -> bool {
        1 <= cluster <= self.num_clusters
    }

    /// Partition-relative byte offset of cluster `cluster`, bounds-checked;
    /// ids outside the usable range are rejected, never clamped.
    pub fn cluster_rel_offset(&self, cluster: u32) -> (r: Result<u64, Error>)
        requires
            self.wf(),
        ensures
            self.spec_cluster_in_range(cluster as int) ==> (r matches Ok(o) && o
                == self.spec_cluster_rel_off(cluster as int)),
            !self.spec_cluster_in_range(cluster as int) ==> r == Err::<u64, Error>(
                Error::InvalidClusterNumber,
            ),
            r matches Ok(o) ==> o <= self.partition_size_bytes,
    {
        if cluster < FATX_FAT_RESERVED_ENTRIES_COUNT || (cluster as u64) >= (self.num_clusters
            as u64) + 1 {
            return Err(Error::InvalidClusterNumber);
        }
        proof {
            let q = (self.partition_size_bytes - 4096 - self.fat.fat_size_bytes) as int
                / self.num_bytes_per_cluster as int;
            assert(cluster - 1 <= q);
            lemma_mul_div_bound(
                (self.partition_size_bytes - 4096 - self.fat.fat_size_bytes) as int,
                self.num_bytes_per_cluster as int,
            );
            lemma_mul_mono(
                cluster - 1,
                q,
                self.num_bytes_per_cluster as int,
            );
        }
        let off: u64 = FATX_FAT_OFFSET_BYTES + self.fat.fat_size_bytes + ((cluster
            - FATX_FAT_RESERVED_ENTRIES_COUNT) as u64) * self.num_bytes_per_cluster;
        Ok(off)
    }

    /// Absolute device byte offset of cluster `cluster`:
    /// `cluster_region_start + (cluster - 1) * bytes_per_cluster`.
    pub fn cluster_to_byte_offset(&self, cluster: u32) -> (r: Result<u64, Error>)
        requires
            self.wf(),
        ensures
            self.spec_cluster_in_range(cluster as int) ==> (r matches Ok(o) && o
                == self.partition_offset_bytes + self.spec_cluster_rel_off(cluster as int)),
            !self.spec_cluster_in_range(cluster as int) ==> r == Err::<u64, Error>(
                Error::InvalidClusterNumber,
            ),
    {
        match self.cluster_rel_offset(cluster) {
            Ok(rel) => Ok(self.partition_offset_bytes + rel),
            Err(e) => Err(e),
        }
    }

    /// Copies `len` bytes of the partition image starting at
    /// partition-relative offset `rel_off`; a range that leaves the image
    /// reports an I/O failure, as the underlying device read would.
    pub fn read_at(&self, rel_off: u64, len: usize) -> (r: Result<Vec<u8>, Error>)
        ensures
            rel_off + len <= self.image@.len() ==> (r matches Ok(v) && v@ == self.image@.subrange(
                rel_off as int,
                rel_off + len,
            )),
            rel_off + len > self.image@.len() ==> r == Err::<Vec<u8>, Error>(Error::Io),
    {
        let il: usize = self.image.len();
        if rel_off > il as u64 {
            return Err(Error::Io);
        }
        read_region(&self.image, rel_off as usize, len)
    }

    /// Opens and validates a volume from the bytes of one partition.
    ///
    /// Succeeds exactly when every check of `open_check` passes: the
    /// partition offset and size are sector-aligned and within the
    /// driver's bounds, the image is the partition, the signature matches,
    /// sectors-per-cluster is a power of two of at most 1024, the root
    /// cluster lies below the table's entry count, and the table fits in
    /// the partition. Each violation yields its own error kind and no
    /// volume is constructed.
    pub fn open_device(config: &FatxFsConfig, image: Vec<u8>) -> (r: Result<FatxFsHandle, Error>)
        ensures
            r matches Err(e) ==> Err::<(), Error>(e) == open_check(
                config.partition_offset_bytes,
                config.partition_size_bytes,
                image@,
            ),
            r matches Ok(h) ==> open_check(
                config.partition_offset_bytes,
                config.partition_size_bytes,
                image@,
            ) == Ok::<(), Error>(()) && (*h.fs).wf() && volume_matches(*h.fs, *config, image@),
    {
        let offset = config.partition_offset_bytes;
        let size = config.partition_size_bytes;
        if offset % 512 != 0 || offset > MAX_PARTITION_OFFSET_BYTES {
            return Err(Error::InvalidPartitionOffset);
        }
        if size % 512 != 0 || size > MAX_PARTITION_SIZE_BYTES {
            return Err(Error::InvalidPartitionSize);
        }
        let il: usize = image.len();
        if il as u64 != size || size < 4096 {
            return Err(Error::Io);
        }
        let signature = read_le32(&image, 0);
        if signature != FATX_SIGNATURE {
            return Err(Error::InvalidFilesystemSignature);
        }
        let num_sectors_per_cluster = read_le32(&image, 8);
        if !valid_sectors_per_cluster(num_sectors_per_cluster) {
            return Err(Error::InvalidSectorsPerCluster);
        }
        let num_bytes_per_cluster: u64 = num_sectors_per_cluster as u64 * FATX_SECTOR_SIZE;
        let num_entries_per_cluster: u64 = num_bytes_per_cluster / 64;
        let num_fat_entries_wide: u64 = size / num_bytes_per_cluster;
        if num_fat_entries_wide >= u32::MAX as u64 {
            return Err(Error::InvalidPartitionSize);
        }
        let num_fat_entries: u32 = num_fat_entries_wide as u32;
        let root_cluster = read_le32(&image, 12);
        if root_cluster >= num_fat_entries {
            return Err(Error::InvalidRootCluster);
        }
        let fat_width: u64 = if num_fat_entries < 0xfff0 {
            2
        } else {
            4
        };
        let fat_raw_bytes: u64 = num_fat_entries as u64 * fat_width;
        let fat_size_bytes: u64 = ((fat_raw_bytes + 4095) / 4096) * 4096;
        if FATX_FAT_OFFSET_BYTES + fat_size_bytes > size {
            return Err(Error::Io);
        }
        let mut fat = Fat::new(num_fat_entries);
        let fat_data = match read_region(&image, 4096, fat_size_bytes as usize) {
            Ok(d) => d,
            Err(_) => {
                proof {
                    assert(false);
                }
                return Err(Error::Io);
            },
        };
        fat.fat_data = fat_data;
        proof {
            lemma_div_mono(
                (size - 4096 - fat_size_bytes) as int,
                size as int,
                num_bytes_per_cluster as int,
            );
        }
        let num_clusters_wide: u64 = (size - FATX_FAT_OFFSET_BYTES - fat_size_bytes)
            / num_bytes_per_cluster + FATX_FAT_RESERVED_ENTRIES_COUNT as u64;
        let num_clusters: u32 = num_clusters_wide as u32;
        let cluster_offset_bytes: u64 = offset + FATX_FAT_OFFSET_BYTES + fat_size_bytes;
        let fs = FatxFs {
            image,
            partition_offset_bytes: offset,
            partition_size_bytes: size,
            num_clusters,
            num_bytes_per_cluster,
            num_entries_per_cluster,
            root_cluster,
            cluster_offset_bytes,
            fat,
        };
        Ok(FatxFsHandle { fs: Arc::new(fs) })
    }
}

/// The geometry a successfully opened volume carries, as a function of the
/// configuration and the partition image it was opened from.
pub open spec fn volume_matches(fs: FatxFs, config: FatxFsConfig, img: Seq<u8>) -> bool {
    &&& fs.image@ == img
    &&& fs.partition_offset_bytes == config.partition_offset_bytes
    &&& fs.partition_size_bytes == config.partition_size_bytes
    &&& fs.num_bytes_per_cluster == le32(img, 8) * 512
    &&& fs.num_entries_per_cluster == fs.num_bytes_per_cluster as int / 64
    &&& fs.root_cluster == le32(img, 12)
    &&& fs.fat.fat_size_bytes == spec_fat_size_bytes(fs.spec_num_fat_entries())
    &&& fs.fat.fat_data@ == img.subrange(4096, 4096 + fs.fat.fat_size_bytes)
}

/// Power-of-two test for the sectors-per-cluster field.
fn valid_sectors_per_cluster(spc: u32) -> (r: bool)
    ensures
        r == spec_valid_sectors_per_cluster(spc),
{
    spc == 1 || spc == 2 || spc == 4 || spc == 8 || spc == 16 || spc == 32 || spc == 64 || spc
        == 128 || spc == 256 || spc == 512 || spc == 1024
}

/// Copies `len` bytes at offset `off` out of `image`.
fn read_region(image: &Vec<u8>, off: usize, len: usize) -> (r: Result<Vec<u8>, Error>)
    ensures
        off + len <= image@.len() ==> (r matches Ok(v) && v@ == image@.subrange(
            off as int,
            off + len,
        )),
        off + len > image@.len() ==> r == Err::<Vec<u8>, Error>(Error::Io),
{
    let il: usize = image.len();
    if off > il || len > il - off {
        return Err(Error::Io);
    }
    let mut v: Vec<u8> = Vec::new();
    let mut i: usize = 0;
    while i < len
        invariant
            il == image@.len(),
            off + len <= il,
            0 <= i <= len,
            v@ == image@.subrange(off as int, off + i),
        decreases len - i,
    {
        v.push(image[off + i]);
        proof {
            assert(v@ =~= image@.subrange(off as int, off + i + 1));
        }
        i = i + 1;
    }
    Ok(v)
}

/// Configuration for opening a volume: where the partition lies on the
/// device, and the path of the device itself (used by the caller that
/// reads the partition bytes).
pub struct FatxFsConfig {
    pub device_path: String,
    pub partition_offset_bytes: u64,
    pub partition_size_bytes: u64,
}

impl FatxFsConfig {
    /// A configuration for the `c` region of the fixed partition layout.
    pub fn new(device_path: String) -> (r: Self)
        ensures
            r.device_path == device_path,
            r.partition_offset_bytes == 0x8ca80000u64,
            r.partition_size_bytes == 0x01f400000u64,
    {
        Self {
            device_path,
            partition_offset_bytes: 0x8ca80000,
            partition_size_bytes: 0x01f400000,
        }
    }

    /// Selects the partition region of `letter` from the fixed layout; the
    /// letter must name one of the mapped regions.
    pub fn drive_letter(self, letter: &str) -> (r: Self)
        requires
            spec_from_letter(letter@) is Some,
        ensures
            r.device_path == self.device_path,
            r.partition_offset_bytes == spec_from_letter(letter@).unwrap().offset_bytes,
            r.partition_size_bytes == spec_from_letter(letter@).unwrap().size_bytes,
    {
        let entry = match PartitionMapEntry::from_letter(letter) {
            Some(e) => e,
            None => {
                proof {
                    assert(false);
                }
                return self;
            },
        };
        Self {
            device_path: self.device_path,
            partition_offset_bytes: entry.offset_bytes,
            partition_size_bytes: entry.size_bytes,
        }
    }

    /// Supplies the partition offset and size directly.
    pub fn partition(self, offset_bytes: u64, size_bytes: u64) -> (r: Self)
        ensures
            r.device_path == self.device_path,
            r.partition_offset_bytes == offset_bytes,
            r.partition_size_bytes == size_bytes,
    {
        Self { device_path: self.device_path, partition_offset_bytes: offset_bytes,
            partition_size_bytes: size_bytes }
    }
}

/// A shared handle to one opened volume. Every open file and directory
/// iterator holds one; cloning the handle is how the volume hands out new
/// references to itself.
pub struct FatxFsHandle {
    pub fs: Arc<FatxFs>,
}

/// Relies on `std::sync::Arc::clone`: the clone refers to the same
/// allocation, so it carries the same volume value.
#[verifier::external_body]
fn arc_clone_volume(fs: &Arc<FatxFs>) -> (r: Arc<FatxFs>)
    ensures
        r == *fs,
{
    fs.clone()
}

impl FatxFsHandle {
    /// A new handle to the same volume.
    pub fn duplicate(&self) -> (r: FatxFsHandle)
        ensures
            r.fs == self.fs,
    {
        FatxFsHandle { fs: arc_clone_volume(&self.fs) }
    }
}

impl FatxFs {
    /// Resolves a virtual path to its directory entry.
    pub fn stat(&self, path: &str) -> (r: Result<crate::dir::DirectoryEntry, Error>)
        requires
            self.wf(),
        ensures
            crate::dir::from_path_post(*self, path@, r),
    {
        crate::dir::DirectoryEntry::from_path(self, path)
    }
}

impl FatxFsHandle {
    /// Resolves a virtual path to its directory entry.
    pub fn stat(&self, path: &str) -> (r: Result<crate::dir::DirectoryEntry, Error>)
        requires
            (*self.fs).wf(),
        ensures
            crate::dir::from_path_post(*self.fs, path@, r),
    {
        let volume: &FatxFs = crate::dir::arc_volume_ref(&self.fs);
        crate::dir::DirectoryEntry::from_path(volume, path)
    }

    /// Resolves a virtual path and opens the file it names for reading;
    /// a path that names a directory is refused.
    pub fn open(&self, path: &str) -> (r: Result<crate::file::File, Error>)
        requires
            (*self.fs).wf(),
        ensures
            r matches Ok(f) ==> crate::dir::from_path_post(
                *self.fs,
                path@,
                Ok(f.dirent),
            ) && crate::dir::spec_attr_file(f.dirent.attributes) && f.handle.fs == self.fs
                && f.wf() && f.seek_pos == 0 && f.cur_cluster_relative == 0
                && f.cur_cluster_absolute == f.dirent.first_cluster,
            r matches Err(er) ==> crate::dir::from_path_post(
                *self.fs,
                path@,
                Err::<crate::dir::DirectoryEntry, Error>(er),
            ) || (er == Error::IsADirectory && exists|e: crate::dir::DirectoryEntry|
                #[trigger] crate::dir::from_path_post(*self.fs, path@, Ok(e))
                    && !crate::dir::spec_attr_file(e.attributes)),
    {
        let volume: &FatxFs = crate::dir::arc_volume_ref(&self.fs);
        let dirent = match crate::dir::DirectoryEntry::from_path(volume, path) {
            Ok(d) => d,
            Err(e) => {
                return Err(e);
            },
        };
        if dirent.is_file() {
            Ok(crate::file::File::new(self.duplicate(), dirent))
        } else {
            proof {
                assert(crate::dir::from_path_post(*self.fs, path@, Ok(dirent))
                    && !crate::dir::spec_attr_file(dirent.attributes));
            }
            Err(Error::IsADirectory)
        }
    }

    /// Resolves a virtual path and lists the directory it names; a path
    /// that does not name a directory is refused. The listing is a lazy,
    /// finite, non-restartable sequence of the valid entries.
    pub fn read_dir(&self, path: &str) -> (r: Result<
        crate::dir::DirectoryEntryIntoIterator,
        Error,
    >)
        requires
            (*self.fs).wf(),
        ensures
            r matches Ok(it) ==> it.wf() && it.fs.fs == self.fs && it.entry_iter.entry == -1i64
                && it.entry_iter.finished == false && it.entry_iter.clusters_seen == 0 && (exists|
                e: crate::dir::DirectoryEntry,
            |
                #[trigger] crate::dir::from_path_post(*self.fs, path@, Ok(e))
                    && crate::dir::spec_attr_directory(e.attributes) && it.entry_iter.cluster
                    == e.first_cluster),
            r matches Err(er) ==> crate::dir::from_path_post(
                *self.fs,
                path@,
                Err::<crate::dir::DirectoryEntry, Error>(er),
            ) || (er == Error::NotADirectory && exists|e: crate::dir::DirectoryEntry|
                #[trigger] crate::dir::from_path_post(*self.fs, path@, Ok(e))
                    && !crate::dir::spec_attr_directory(e.attributes)),
    {
        let volume: &FatxFs = crate::dir::arc_volume_ref(&self.fs);
        let dirent = match crate::dir::DirectoryEntry::from_path(volume, path) {
            Ok(d) => d,
            Err(e) => {
                return Err(e);
            },
        };
        if dirent.is_directory() {
            let first = dirent.first_cluster();
            proof {
                assert(crate::dir::from_path_post(*self.fs, path@, Ok(dirent))
                    && crate::dir::spec_attr_directory(dirent.attributes));
            }
            Ok(crate::dir::DirectoryEntryIntoIterator::new(self.duplicate(), first))
        } else {
            proof {
                assert(crate::dir::from_path_post(*self.fs, path@, Ok(dirent))
                    && !crate::dir::spec_attr_directory(dirent.attributes));
            }
            Err(Error::NotADirectory)
        }
    }
}

proof fn lemma_mul_div_bound(x: int, d: int)
    requires
        x >= 0,
        d > 0,
    ensures
        (x / d) * d <= x,
{
    assert((x / d) * d <= x) by (nonlinear_arith)
        requires
            x >= 0,
            d > 0,
    ;
}

proof fn lemma_div_mono(a: int, b: int, d: int)
    requires
        0 <= a <= b,
        d > 0,
    ensures
        a / d <= b / d,
{
    assert(a / d <= b / d) by (nonlinear_arith)
        requires
            0 <= a <= b,
            d > 0,
    ;
}

proof fn lemma_mul_mono(a: int, b: int, c: int)
    requires
        a <= b,
        c >= 0,
    ensures
        a * c <= b * c,
{
    assert(a * c <= b * c) by (nonlinear_arith)
        requires
            a <= b,
            c >= 0,
    ;
}

} // verus!
