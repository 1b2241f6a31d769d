use fatx::datetime::{Date, DateTime, Time};
use fatx::fat::{Fat, FatEntry, FatType};
use fatx::normalize_virtual_path;
use fatx::PartitionMapEntry;

fn encode_date(year: u16, month: u8, day: u8) -> u16 {
    ((year - 2000) << 9) | ((month as u16) << 5) | (day as u16)
}

fn encode_time(hour: u8, minute: u8, second: u8) -> u16 {
    ((hour as u16) << 11) | ((minute as u16) << 5) | ((second / 2) as u16)
}

#[test]
fn fat_width_boundary_16_bit() {
    let fat = Fat::new(0xffef);
    assert_eq!(fat.fat_type, FatType::Type16);
    assert_eq!(fat.fat_size_bytes % 4096, 0);
    assert_eq!(fat.fat_size_bytes, 131072);
}

#[test]
fn fat_width_boundary_32_bit() {
    let fat = Fat::new(0xfff0);
    assert_eq!(fat.fat_type, FatType::Type32);
    assert_eq!(fat.fat_size_bytes, 262144);
}

#[test]
fn fat_classification_16_bit() {
    assert_eq!(FatEntry::from(0x0000u16), FatEntry::Available);
    assert_eq!(FatEntry::from(0x0001u16), FatEntry::Data(1));
    assert_eq!(FatEntry::from(0xffefu16), FatEntry::Data(0xffef));
    assert_eq!(FatEntry::from(0xfff0u16), FatEntry::Reserved);
    assert_eq!(FatEntry::from(0xfff7u16), FatEntry::Bad);
    assert_eq!(FatEntry::from(0xfff8u16), FatEntry::Media);
    assert_eq!(FatEntry::from(0xffffu16), FatEntry::End);
    assert_eq!(FatEntry::from(0xfff1u16), FatEntry::Invalid);
    assert_eq!(FatEntry::from(0xfffeu16), FatEntry::Invalid);
}

#[test]
fn fat_classification_32_bit() {
    assert_eq!(FatEntry::from(0x00000000u32), FatEntry::Available);
    assert_eq!(FatEntry::from(0x00000001u32), FatEntry::Data(1));
    assert_eq!(FatEntry::from(0xffefu32), FatEntry::Data(0xffef));
    assert_eq!(FatEntry::from(0xffffffefu32), FatEntry::Data(0xffffffef));
    assert_eq!(FatEntry::from(0xfffffff0u32), FatEntry::Reserved);
    assert_eq!(FatEntry::from(0xfffffff7u32), FatEntry::Bad);
    assert_eq!(FatEntry::from(0xfffffff8u32), FatEntry::Media);
    assert_eq!(FatEntry::from(0xffffffffu32), FatEntry::End);
    assert_eq!(FatEntry::from(0xfffffff1u32), FatEntry::Invalid);
}

#[test]
fn fat_entry_lookup_reads_little_endian() {
    let mut fat = Fat::new(32);
    assert_eq!(fat.fat_type, FatType::Type16);
    fat.fat_data[2] = 0x34;
    fat.fat_data[3] = 0x12;
    assert_eq!(fat.entry(1), Ok(FatEntry::Data(0x1234)));
    assert_eq!(fat.entry(0), Ok(FatEntry::Available));
    assert_eq!(fat.entry(0x10000000), Err(fatx::Error::InvalidClusterNumber));
}

#[test]
fn normalize_examples() {
    assert_eq!(normalize_virtual_path("/a/b/../c"), "/a/c");
    assert_eq!(normalize_virtual_path("/../a"), "/a");
    assert_eq!(normalize_virtual_path(""), "/");
    assert_eq!(normalize_virtual_path("/"), "/");
    assert_eq!(normalize_virtual_path("//a///b//"), "/a/b");
    assert_eq!(normalize_virtual_path("/a/./b"), "/a/b");
    assert_eq!(normalize_virtual_path("/a/b/.."), "/a");
    assert_eq!(normalize_virtual_path("/a/../.."), "/");
    assert_eq!(normalize_virtual_path("a/b/../c"), "a/c");
    assert_eq!(normalize_virtual_path("a/.."), "/");
    assert_eq!(normalize_virtual_path("./a"), "a");
    assert_eq!(normalize_virtual_path("..."), "...");
}

#[test]
fn normalize_idempotent_samples() {
    let samples = [
        "/a/b/../c",
        "/../a",
        "",
        "/",
        "//a///b//",
        "a/b/./c/..",
        "....//..",
        "/sub/inner.txt",
        "crazy/../../../x",
    ];
    for p in samples {
        let once = normalize_virtual_path(p);
        let twice = normalize_virtual_path(&once);
        assert_eq!(once, twice);
    }
}

#[test]
fn date_roundtrip() {
    let d = Date::from_fatx_encoding(encode_date(2005, 3, 7));
    assert_eq!(d.year(), 2005);
    assert_eq!(d.month(), 3);
    assert_eq!(d.day(), 7);

    let d = Date::from_fatx_encoding(encode_date(2000, 1, 1));
    assert_eq!((d.year(), d.month(), d.day()), (2000, 1, 1));

    let d = Date::from_fatx_encoding(encode_date(2127, 12, 31));
    assert_eq!((d.year(), d.month(), d.day()), (2127, 12, 31));
}

#[test]
fn time_roundtrip_even_seconds() {
    let t = Time::from_fatx_encoding(encode_time(13, 45, 36));
    assert_eq!((t.hour(), t.minute(), t.second()), (13, 45, 36));

    // Odd seconds round down to the even value.
    let t = Time::from_fatx_encoding(encode_time(23, 59, 59));
    assert_eq!((t.hour(), t.minute(), t.second()), (23, 59, 58));

    let t = Time::from_fatx_encoding(encode_time(0, 0, 0));
    assert_eq!((t.hour(), t.minute(), t.second()), (0, 0, 0));
}

#[test]
fn datetime_combines_both_fields() {
    let dt = DateTime::from_fatx_encoding(encode_date(2013, 11, 22), encode_time(7, 30, 14));
    assert_eq!(dt.year(), 2013);
    assert_eq!(dt.month(), 11);
    assert_eq!(dt.day(), 22);
    assert_eq!(dt.hour(), 7);
    assert_eq!(dt.minute(), 30);
    assert_eq!(dt.second(), 14);
}

#[test]
fn partition_map_lookup() {
    let c = PartitionMapEntry::from_letter("c").unwrap();
    assert_eq!(c.offset_bytes, 0x8ca80000);
    assert_eq!(c.size_bytes, 0x01f400000);
    let e = PartitionMapEntry::from_letter("e").unwrap();
    assert_eq!(e.offset_bytes, 0xabe80000);
    assert!(PartitionMapEntry::from_letter("q").is_none());
    assert!(PartitionMapEntry::from_letter("").is_none());
    assert!(PartitionMapEntry::from_letter("cc").is_none());
    let layout = PartitionMapEntry::default_partition_layout();
    assert_eq!(layout.len(), 5);
    assert_eq!(layout[0].letter, 'x');
    assert_eq!(layout[3].offset_bytes, 0x8ca80000);
}

#[test]
fn error_descriptions() {
    assert_eq!(fatx::Error::Io.describe(), "io error");
    assert_eq!(
        fatx::Error::NotFound.describe(),
        "the desired item could not be found"
    );
    assert_eq!(
        fatx::Error::InvalidClusterChain.describe(),
        "the cluster chain is corrupt"
    );
    assert_eq!(
        fatx::Error::IsADirectory.describe(),
        "the path unexpectedly identifies a directory"
    );
}

fn plain_entry(filename_len: u8, name: &[u8]) -> fatx::DirectoryEntry {
    let mut filename_bytes = vec![0u8; 42];
    filename_bytes[..name.len()].copy_from_slice(name);
    fatx::DirectoryEntry {
        filename_len,
        attributes: 0,
        filename_bytes,
        first_cluster: 2,
        file_size: 0,
        modified_time: 0,
        modified_date: 0,
        created_time: 0,
        created_date: 0,
        accessed_time: 0,
        accessed_date: 0,
    }
}

#[test]
fn file_name_checked_guards_its_conditions() {
    let good = plain_entry(5, b"hello");
    assert_eq!(good.file_name_checked(), Some(String::from("hello")));
    // A deleted marker is not a valid entry.
    let deleted = plain_entry(0xe5, b"hello");
    assert_eq!(deleted.file_name_checked(), None);
    // A stored length past the buffer matches nothing.
    let oversized = plain_entry(50, b"hello");
    assert_eq!(oversized.file_name_checked(), None);
    // Bytes that are not UTF-8 are refused rather than decoded.
    let bad = plain_entry(2, &[0xff, 0xfe]);
    assert_eq!(bad.file_name_checked(), None);
}
