use fatx::file::SeekFrom;
use fatx::{Error, FatxFs, FatxFsConfig, FatxFsHandle};

const PART_SIZE: usize = 16384;
const CLUSTER: usize = 512;
const FAT_OFF: usize = 4096;
const DATA_OFF: usize = 8192;

fn cluster_off(c: usize) -> usize {
    DATA_OFF + (c - 1) * CLUSTER
}

fn put_le16(img: &mut [u8], off: usize, v: u16) {
    img[off] = (v & 0xff) as u8;
    img[off + 1] = (v >> 8) as u8;
}

fn put_le32(img: &mut [u8], off: usize, v: u32) {
    img[off] = (v & 0xff) as u8;
    img[off + 1] = ((v >> 8) & 0xff) as u8;
    img[off + 2] = ((v >> 16) & 0xff) as u8;
    img[off + 3] = ((v >> 24) & 0xff) as u8;
}

fn put_dirent(img: &mut [u8], off: usize, name: &str, attrs: u8, first: u32, size: u32) {
    img[off] = name.len() as u8;
    img[off + 1] = attrs;
    img[off + 2..off + 2 + name.len()].copy_from_slice(name.as_bytes());
    put_le32(img, off + 44, first);
    put_le32(img, off + 48, size);
    // modified date: 2005-03-07
    put_le16(img, off + 54, ((5u16) << 9) | (3 << 5) | 7);
}

fn big_byte(i: usize) -> u8 {
    (i % 251) as u8
}

/// A minimal volume: 512-byte clusters, a 16-bit table, and a root
/// directory holding one file, one subdirectory, a deleted entry and a
/// few files with interesting chains.
fn build_image() -> Vec<u8> {
    let mut img = vec![0u8; PART_SIZE];
    // Superblock.
    img[0..4].copy_from_slice(b"FATX");
    put_le32(&mut img, 4, 0xdeadbeef); // volume id
    put_le32(&mut img, 8, 1); // sectors per cluster
    put_le32(&mut img, 12, 1); // root cluster
    // Allocation table (16-bit; 32 entries).
    put_le16(&mut img, FAT_OFF + 2 * 1, 0xffff); // root: single cluster
    put_le16(&mut img, FAT_OFF + 2 * 2, 0xffff); // file.txt
    put_le16(&mut img, FAT_OFF + 2 * 3, 4); // big.bin: 3 -> 4 -> 5
    put_le16(&mut img, FAT_OFF + 2 * 4, 5);
    put_le16(&mut img, FAT_OFF + 2 * 5, 0xffff);
    put_le16(&mut img, FAT_OFF + 2 * 6, 0xffff); // sub
    put_le16(&mut img, FAT_OFF + 2 * 7, 0xffff); // inner.txt
    put_le16(&mut img, FAT_OFF + 2 * 8, 0xffff); // chain.bin: ends too early
    // Root directory, cluster 1.
    let root = cluster_off(1);
    put_dirent(&mut img, root, "file.txt", 0x00, 2, 11);
    put_dirent(&mut img, root + 64, "sub", 0x10, 6, 0);
    put_dirent(&mut img, root + 2 * 64, "gone.txt", 0x00, 2, 11);
    img[root + 2 * 64] = 0xe5; // deleted
    put_dirent(&mut img, root + 3 * 64, "big.bin", 0x00, 3, 1200);
    put_dirent(&mut img, root + 4 * 64, "bad.bin", 0x00, 0, 10);
    put_dirent(&mut img, root + 5 * 64, "chain.bin", 0x00, 8, 1024);
    img[root + 6 * 64] = 0xff; // end of directory
    // file.txt content.
    img[cluster_off(2)..cluster_off(2) + 11].copy_from_slice(b"hello world");
    // big.bin content across clusters 3, 4, 5.
    for i in 0..1200 {
        let c = 3 + i / CLUSTER;
        img[cluster_off(c) + i % CLUSTER] = big_byte(i);
    }
    // sub directory, cluster 6.
    let sub = cluster_off(6);
    put_dirent(&mut img, sub, "inner.txt", 0x00, 7, 5);
    img[sub + 64] = 0xff;
    // inner.txt content.
    img[cluster_off(7)..cluster_off(7) + 5].copy_from_slice(b"abcde");
    // chain.bin first cluster content.
    for i in 0..CLUSTER {
        img[cluster_off(8) + i] = 0x41;
    }
    img
}

fn open_volume() -> FatxFsHandle {
    let config = FatxFsConfig::new(String::from("test.img")).partition(0, PART_SIZE as u64);
    FatxFs::open_device(&config, build_image()).unwrap()
}

#[test]
fn open_succeeds_on_valid_volume() {
    let handle = open_volume();
    let root = handle.stat("/").unwrap();
    assert!(root.is_directory());
}

#[test]
fn open_rejects_bad_signature() {
    let config = FatxFsConfig::new(String::from("test.img")).partition(0, PART_SIZE as u64);
    let mut img = build_image();
    img[0] = b'X';
    assert!(matches!(
        FatxFs::open_device(&config, img),
        Err(Error::InvalidFilesystemSignature)
    ));
}

#[test]
fn open_rejects_bad_sectors_per_cluster() {
    let config = FatxFsConfig::new(String::from("test.img")).partition(0, PART_SIZE as u64);
    let mut img = build_image();
    put_le32(&mut img, 8, 3);
    assert!(matches!(
        FatxFs::open_device(&config, img),
        Err(Error::InvalidSectorsPerCluster)
    ));
    let mut img = build_image();
    put_le32(&mut img, 8, 2048);
    assert!(matches!(
        FatxFs::open_device(&config, img),
        Err(Error::InvalidSectorsPerCluster)
    ));
}

#[test]
fn open_rejects_bad_root_cluster() {
    let config = FatxFsConfig::new(String::from("test.img")).partition(0, PART_SIZE as u64);
    let mut img = build_image();
    put_le32(&mut img, 12, 32); // table has exactly 32 entries
    assert!(matches!(
        FatxFs::open_device(&config, img),
        Err(Error::InvalidRootCluster)
    ));
}

#[test]
fn open_rejects_misaligned_partition() {
    let config = FatxFsConfig::new(String::from("test.img")).partition(100, PART_SIZE as u64);
    assert!(matches!(
        FatxFs::open_device(&config, build_image()),
        Err(Error::InvalidPartitionOffset)
    ));
    let config = FatxFsConfig::new(String::from("test.img")).partition(0, 1000);
    assert!(matches!(
        FatxFs::open_device(&config, build_image()),
        Err(Error::InvalidPartitionSize)
    ));
}

#[test]
fn open_rejects_short_image() {
    let config = FatxFsConfig::new(String::from("test.img")).partition(0, PART_SIZE as u64);
    let mut img = build_image();
    img.truncate(8192);
    assert!(matches!(FatxFs::open_device(&config, img), Err(Error::Io)));
}

#[test]
fn root_resolves_without_reading_the_image() {
    // Scribble over every directory cluster: resolving the bare root
    // must still succeed, because it reads nothing.
    let config = FatxFsConfig::new(String::from("test.img")).partition(0, PART_SIZE as u64);
    let mut img = build_image();
    for b in img[DATA_OFF..].iter_mut() {
        *b = 0xaa;
    }
    let handle = FatxFs::open_device(&config, img).unwrap();
    let root = handle.stat("/").unwrap();
    assert!(root.is_directory());
    assert!(!root.is_file());
    assert_eq!(root.file_size(), 0);
}

#[test]
fn stat_finds_file_attributes() {
    let handle = open_volume();
    let e = handle.stat("/file.txt").unwrap();
    assert!(e.is_file());
    assert!(!e.is_directory());
    assert!(!e.is_hidden());
    assert!(!e.is_read_only());
    assert!(!e.is_system());
    assert!(!e.is_volume());
    assert_eq!(e.file_size(), 11);
    assert_eq!(e.file_name(), "file.txt");
    let m = e.modified();
    assert_eq!((m.year(), m.month(), m.day()), (2005, 3, 7));
}

#[test]
fn stat_normalizes_before_resolving() {
    let handle = open_volume();
    let e = handle.stat("/sub/../file.txt").unwrap();
    assert_eq!(e.file_name(), "file.txt");
    let e = handle.stat("//sub//./inner.txt").unwrap();
    assert_eq!(e.file_name(), "inner.txt");
}

#[test]
fn stat_is_case_sensitive() {
    let handle = open_volume();
    assert!(matches!(handle.stat("/FILE.TXT"), Err(Error::NotFound)));
}

#[test]
fn intermediate_file_is_not_a_directory() {
    let handle = open_volume();
    assert!(matches!(
        handle.stat("/file.txt/x"),
        Err(Error::NotADirectory)
    ));
    assert!(matches!(
        handle.stat("/file.txt/x/y"),
        Err(Error::NotADirectory)
    ));
}

#[test]
fn absent_entries_are_not_found() {
    let handle = open_volume();
    assert!(matches!(handle.stat("/nope"), Err(Error::NotFound)));
    assert!(matches!(handle.stat("/sub/nope"), Err(Error::NotFound)));
    // A deleted entry never matches.
    assert!(matches!(handle.stat("/gone.txt"), Err(Error::NotFound)));
    // Relative paths never reach the root.
    assert!(matches!(handle.stat("file.txt"), Err(Error::NotFound)));
}

#[test]
fn read_whole_file() {
    let handle = open_volume();
    let mut f = handle.open("/file.txt").unwrap();
    assert_eq!(f.file_size(), 11);
    let data = f.read(100).unwrap();
    assert_eq!(data, b"hello world");
    // At end of file further reads yield nothing.
    assert_eq!(f.read(100).unwrap(), Vec::<u8>::new());
}

#[test]
fn open_refuses_directories() {
    let handle = open_volume();
    assert!(matches!(handle.open("/sub"), Err(Error::IsADirectory)));
    assert!(matches!(handle.open("/"), Err(Error::IsADirectory)));
    assert!(matches!(handle.open("/nope"), Err(Error::NotFound)));
}

#[test]
fn read_dir_lists_only_valid_entries() {
    let handle = open_volume();
    let mut it = handle.read_dir("/").unwrap();
    let mut names = Vec::new();
    while let Some(item) = it.next() {
        names.push(item.unwrap().file_name());
    }
    assert_eq!(names, vec!["file.txt", "sub", "big.bin", "bad.bin", "chain.bin"]);
}

#[test]
fn read_dir_single_entry() {
    let handle = open_volume();
    let mut it = handle.read_dir("/sub").unwrap();
    let first = it.next().unwrap().unwrap();
    assert_eq!(first.file_name(), "inner.txt");
    assert_eq!(first.file_size(), 5);
    assert!(it.next().is_none());
    assert!(it.next().is_none());
}

#[test]
fn read_dir_refuses_files() {
    let handle = open_volume();
    assert!(matches!(
        handle.read_dir("/file.txt"),
        Err(Error::NotADirectory)
    ));
}

#[test]
fn sequential_reads_reuse_the_chain_cache() {
    let handle = open_volume();
    let mut f = handle.open("/big.bin").unwrap();
    let mut collected = Vec::new();
    let mut last_cached = 0u32;
    while collected.len() < 1200 {
        let chunk = f.read(300).unwrap();
        assert!(!chunk.is_empty());
        collected.extend_from_slice(&chunk);
        // Forward reads never reset the cache toward the chain start.
        assert!(f.cur_cluster_relative >= last_cached);
        last_cached = f.cur_cluster_relative;
    }
    assert_eq!(collected.len(), 1200);
    for (i, b) in collected.iter().enumerate() {
        assert_eq!(*b, big_byte(i));
    }
    // The cache sits at the last cluster of the chain.
    assert_eq!(f.cur_cluster_relative, 2);
    assert_eq!(f.read(10).unwrap(), Vec::<u8>::new());
}

#[test]
fn backward_read_rewalks_and_matches_a_fresh_open() {
    let handle = open_volume();
    let mut f = handle.open("/big.bin").unwrap();
    // Go deep into the file first.
    f.seek(SeekFrom::Start(1100)).unwrap();
    let tail = f.read(100).unwrap();
    assert_eq!(f.cur_cluster_relative, 2);
    // Now read backward: the cache is discarded and re-walked.
    f.seek(SeekFrom::Start(10)).unwrap();
    let back = f.read(50).unwrap();
    assert!(f.cur_cluster_relative <= 2);
    let mut fresh = handle.open("/big.bin").unwrap();
    fresh.seek(SeekFrom::Start(10)).unwrap();
    assert_eq!(back, fresh.read(50).unwrap());
    fresh.seek(SeekFrom::Start(1100)).unwrap();
    assert_eq!(tail, fresh.read(100).unwrap());
}

#[test]
fn seek_positions() {
    let handle = open_volume();
    let mut f = handle.open("/file.txt").unwrap();
    assert_eq!(f.seek(SeekFrom::Start(6)).unwrap(), 6);
    assert_eq!(f.read(100).unwrap(), b"world");
    assert_eq!(f.seek(SeekFrom::Current(-5)).unwrap(), 6);
    assert_eq!(f.read(100).unwrap(), b"world");
    assert_eq!(f.seek(SeekFrom::End(-11)).unwrap(), 0);
    assert_eq!(f.read(100).unwrap(), b"hello world");
    assert!(matches!(f.seek(SeekFrom::Current(-100)), Err(Error::Io)));
    assert!(matches!(f.seek(SeekFrom::End(-12)), Err(Error::Io)));
}

#[test]
fn corrupt_chain_is_reported() {
    let handle = open_volume();
    // chain.bin claims 1024 bytes but its chain ends after one cluster.
    let mut f = handle.open("/chain.bin").unwrap();
    let first = f.read(512).unwrap();
    assert_eq!(first.len(), 512);
    assert!(matches!(f.read(1), Err(Error::InvalidClusterChain)));
}

#[test]
fn invalid_first_cluster_is_reported() {
    let handle = open_volume();
    // bad.bin points at reserved cluster id 0.
    let mut f = handle.open("/bad.bin").unwrap();
    assert!(matches!(f.read(1), Err(Error::InvalidClusterNumber)));
}

#[test]
fn cluster_offsets_follow_the_geometry() {
    let handle = open_volume();
    let fs: &FatxFs = &handle.fs;
    assert_eq!(fs.cluster_to_byte_offset(1), Ok(8192));
    assert_eq!(fs.cluster_to_byte_offset(2), Ok(8704));
    assert_eq!(fs.cluster_to_byte_offset(17), Ok(8192 + 16 * 512));
    assert!(matches!(
        fs.cluster_to_byte_offset(0),
        Err(Error::InvalidClusterNumber)
    ));
    assert!(matches!(
        fs.cluster_to_byte_offset(18),
        Err(Error::InvalidClusterNumber)
    ));
}

#[test]
fn config_selects_partitions() {
    let c = FatxFsConfig::new(String::from("dev"));
    assert_eq!(c.partition_offset_bytes, 0x8ca80000);
    assert_eq!(c.partition_size_bytes, 0x01f400000);
    let c = c.drive_letter("x");
    assert_eq!(c.partition_offset_bytes, 0x00080000);
    assert_eq!(c.partition_size_bytes, 0x02ee00000);
    let c = c.partition(0, 16384);
    assert_eq!(c.partition_offset_bytes, 0);
    assert_eq!(c.partition_size_bytes, 16384);
}

#[test]
fn stat_directly_on_the_volume() {
    let handle = open_volume();
    let fs: &FatxFs = &handle.fs;
    let e = fs.stat("/file.txt").unwrap();
    assert!(e.is_file());
    assert_eq!(e.file_size(), 11);
}
