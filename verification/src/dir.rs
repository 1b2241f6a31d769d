//! The directory-entry binary format, the chain-order iterator over a
//! directory's entries, and the path resolver.
//!
//! A directory entry is a fixed 64-byte on-disk record: a length/marker
//! byte, an attribute bitmask, a 42-byte filename buffer, the first
//! cluster, the file size, and three packed date/time pairs. Entries are
//! transient: decoded from the partition image at resolve or iterate time
//! and never cached across calls.

use vstd::prelude::*;

use vstd::string::StrSliceExecFns;
use vstd::string::StringSliceAdditionalSpecFns;
use vstd::utf8::{decode_utf8, encode_utf8, valid_utf8};

use crate::bytes::{le16, le32, read_le16, read_le32};
use crate::datetime::DateTime;
use crate::error::Error;
use crate::fat::FatEntry;
use crate::fs::{FatxFs, FatxFsHandle};
use crate::path::{is_abs, names_of, normalize_spec, normalize_virtual_path, ranges_ok, ranges_to_comps, scan_names};

verus! {

/// Longest filename the 42-byte buffer can hold.
pub const FATX_MAX_FILENAME_LEN: u8 = 42;

/// Marker in the length byte of a deleted entry.
pub const FATX_DELETED_FILE_MARKER: u8 = 0xe5;

/// Markers in the length byte of an end-of-directory entry.
pub const FATX_END_OF_DIR_MARKER: u8 = 0xff;

pub const FATX_END_OF_DIR_MARKER2: u8 = 0x00;

/// Attribute bits of a directory entry.
pub const FATX_ATTR_READ_ONLY: u8 = 0x01;

pub const FATX_ATTR_SYSTEM: u8 = 0x02;

pub const FATX_ATTR_HIDDEN: u8 = 0x04;

pub const FATX_ATTR_VOLUME: u8 = 0x08;

pub const FATX_ATTR_DIRECTORY: u8 = 0x10;

/// What the length/marker byte of an entry says about it.
#[derive(Debug, Clone, Copy, PartialEq, Eq, Structural)]
pub enum DirectoryEntryKind {
    Valid,
    Deleted,
    EndOfDirectory,
}

/// Kind derived from a length/marker byte: 0x00 and 0xff end the
/// directory, 0xe5 marks a deleted entry, anything else is a valid entry
/// whose value is the filename length.
pub open spec fn spec_kind_of(filename_len: u8) -> DirectoryEntryKind {
    if filename_len == FATX_END_OF_DIR_MARKER {
        DirectoryEntryKind::EndOfDirectory
    } else if filename_len == FATX_END_OF_DIR_MARKER2 {
        DirectoryEntryKind::EndOfDirectory
    } else if filename_len == FATX_DELETED_FILE_MARKER {
        DirectoryEntryKind::Deleted
    } else {
        DirectoryEntryKind::Valid
    }
}

/// The volume-label attribute bit.
pub open spec fn spec_attr_volume(attributes: u8) -> bool {
    attributes & FATX_ATTR_VOLUME == FATX_ATTR_VOLUME
}

/// Directory: the directory bit set and not also the volume-label bit.
pub open spec fn spec_attr_directory(attributes: u8) -> bool {
    !spec_attr_volume(attributes) && attributes & FATX_ATTR_DIRECTORY == FATX_ATTR_DIRECTORY
}

/// File: neither volume label nor directory.
pub open spec fn spec_attr_file(attributes: u8) -> bool {
    !spec_attr_volume(attributes) && !spec_attr_directory(attributes)
}

/// One decoded directory entry.
pub struct DirectoryEntry {
    pub filename_len: u8,
    pub attributes: u8,
    pub filename_bytes: Vec<u8>,
    pub first_cluster: u32,
    pub file_size: u32,
    pub modified_time: u16,
    pub modified_date: u16,
    pub created_time: u16,
    pub created_date: u16,
    pub accessed_time: u16,
    pub accessed_date: u16,
}

/// `e` holds exactly the fields of the 64-byte record `b`, every
/// multi-byte field little-endian.
pub open spec fn decodes_to(b: Seq<u8>, e: DirectoryEntry) -> bool {
    &&& b.len() == 64
    &&& e.filename_len == b[0]
    &&& e.attributes == b[1]
    &&& e.filename_bytes@ == b.subrange(2, 44)
    &&& e.first_cluster == le32(b, 44)
    &&& e.file_size == le32(b, 48)
    &&& e.modified_time == le16(b, 52)
    &&& e.modified_date == le16(b, 54)
    &&& e.created_time == le16(b, 56)
    &&& e.created_date == le16(b, 58)
    &&& e.accessed_time == le16(b, 60)
    &&& e.accessed_date == le16(b, 62)
}

/// Kind of the record `b`, from its marker byte.
pub open spec fn bytes_kind(b: Seq<u8>) -> DirectoryEntryKind {
    spec_kind_of(b[0])
}

/// Whether the record `b` is a valid entry whose name is exactly the byte
/// sequence `name`: the stored length must fit the buffer and select a
/// prefix equal to `name`.
pub open spec fn bytes_name_matches(b: Seq<u8>, name: Seq<u8>) -> bool {
    &&& bytes_kind(b) == DirectoryEntryKind::Valid
    &&& b[0] <= FATX_MAX_FILENAME_LEN
    &&& b.subrange(2, 2 + b[0]) == name
}

impl DirectoryEntry {
    /// The filename buffer is always the full 42 bytes.
    pub open spec fn wf(self) -> bool {
        self.filename_bytes@.len() == 42
    }

    /// The bytes of the stored filename: the length-byte prefix of the
    /// buffer.
    pub open spec fn spec_name_bytes(self) -> Seq<u8> {
        self.filename_bytes@.subrange(0, self.filename_len as int)
    }

    /// Decodes the 64-byte record at `off` in `b`.
    pub fn from_bytes(b: &Vec<u8>, off: usize) -> (e: DirectoryEntry)
        requires
            off + 64 <= b@.len(),
        ensures
            e.wf(),
            decodes_to(b@.subrange(off as int, off + 64), e),
    {
        let n: usize = b.len();
        let mut filename_bytes: Vec<u8> = Vec::new();
        let mut i: usize = 0;
        while i < 42
            invariant
                n == b@.len(),
                off + 64 <= b@.len(),
                0 <= i <= 42,
                filename_bytes@ == b@.subrange(off + 2, off + 2 + i),
            decreases 42 - i,
        {
            filename_bytes.push(b[off + 2 + i]);
            proof {
                assert(filename_bytes@ =~= b@.subrange(off + 2, off + 2 + i + 1));
            }
            i = i + 1;
        }
        let e = DirectoryEntry {
            filename_len: b[off],
            attributes: b[off + 1],
            filename_bytes,
            first_cluster: read_le32(b, off + 44),
            file_size: read_le32(b, off + 48),
            modified_time: read_le16(b, off + 52),
            modified_date: read_le16(b, off + 54),
            created_time: read_le16(b, off + 56),
            created_date: read_le16(b, off + 58),
            accessed_time: read_le16(b, off + 60),
            accessed_date: read_le16(b, off + 62),
        };
        proof {
            let sub = b@.subrange(off as int, off + 64);
            assert(e.filename_bytes@ =~= sub.subrange(2, 44));
            assert(sub[0] == b@[off as int]);
            assert(sub[1] == b@[off + 1]);
            assert(sub[44] == b@[off + 44] && sub[45] == b@[off + 45] && sub[46] == b@[off + 46]
                && sub[47] == b@[off + 47]);
            assert(sub[48] == b@[off + 48] && sub[49] == b@[off + 49] && sub[50] == b@[off + 50]
                && sub[51] == b@[off + 51]);
            assert(sub[52] == b@[off + 52] && sub[53] == b@[off + 53]);
            assert(sub[54] == b@[off + 54] && sub[55] == b@[off + 55]);
            assert(sub[56] == b@[off + 56] && sub[57] == b@[off + 57]);
            assert(sub[58] == b@[off + 58] && sub[59] == b@[off + 59]);
            assert(sub[60] == b@[off + 60] && sub[61] == b@[off + 61]);
            assert(sub[62] == b@[off + 62] && sub[63] == b@[off + 63]);
        }
        e
    }

    /// Kind of this entry, from its marker byte.
    pub fn kind(&self) -> (r: DirectoryEntryKind)
        ensures
            r == spec_kind_of(self.filename_len),
    {
        if self.filename_len == FATX_END_OF_DIR_MARKER {
            DirectoryEntryKind::EndOfDirectory
        } else if self.filename_len == FATX_END_OF_DIR_MARKER2 {
            DirectoryEntryKind::EndOfDirectory
        } else if self.filename_len == FATX_DELETED_FILE_MARKER {
            DirectoryEntryKind::Deleted
        } else {
            DirectoryEntryKind::Valid
        }
    }

    /// The stored filename, decoded as UTF-8.
    pub fn file_name(&self) -> (r: String)
        requires
            self.wf(),
            spec_kind_of(self.filename_len) == DirectoryEntryKind::Valid,
            self.filename_len <= FATX_MAX_FILENAME_LEN,
            valid_utf8(self.spec_name_bytes()),
        ensures
            r@ == decode_utf8(self.spec_name_bytes()),
    {
        let mut name: Vec<u8> = Vec::new();
        let mut i: usize = 0;
        let len = self.filename_len as usize;
        while i < len
            invariant
                self.wf(),
                len == self.filename_len <= 42,
                0 <= i <= len,
                name@ == self.filename_bytes@.subrange(0, i as int),
            decreases len - i,
        {
            name.push(self.filename_bytes[i]);
            proof {
                assert(name@ =~= self.filename_bytes@.subrange(0, i + 1));
            }
            i = i + 1;
        }
        match string_from_utf8(name) {
            Some(s) => s,
            None => {
                proof {
                    assert(false);
                }
                String::new()
            },
        }
    }

    /// The stored filename, decoded as UTF-8, with the conditions of
    /// `file_name` tested first: `None` for an entry that is not a valid
    /// entry, whose stored length overruns the buffer, or whose name
    /// bytes are not UTF-8.
    pub fn file_name_checked(&self) -> (r: Option<String>)
        requires
            self.wf(),
        ensures
            r is Some <==> (spec_kind_of(self.filename_len) == DirectoryEntryKind::Valid
                && self.filename_len <= FATX_MAX_FILENAME_LEN && valid_utf8(
                self.spec_name_bytes(),
            )),
            r matches Some(s) ==> s@ == decode_utf8(self.spec_name_bytes()),
    {
        if self.kind() != DirectoryEntryKind::Valid {
            return None;
        }
        if self.filename_len > FATX_MAX_FILENAME_LEN {
            return None;
        }
        let mut name: Vec<u8> = Vec::new();
        let mut i: usize = 0;
        let len = self.filename_len as usize;
        while i < len
            invariant
                self.wf(),
                len == self.filename_len <= 42,
                0 <= i <= len,
                name@ == self.filename_bytes@.subrange(0, i as int),
            decreases len - i,
        {
            name.push(self.filename_bytes[i]);
            proof {
                assert(name@ =~= self.filename_bytes@.subrange(0, i + 1));
            }
            i = i + 1;
        }
        string_from_utf8(name)
    }

    pub fn file_size(&self) -> (r: u32)
        ensures
            r == self.file_size,
    {
        self.file_size
    }

    pub fn is_directory(&self) -> (r: bool)
        ensures
            r == spec_attr_directory(self.attributes),
    {
        !self.is_volume() && self.attributes & FATX_ATTR_DIRECTORY == FATX_ATTR_DIRECTORY
    }

    pub fn is_file(&self) -> (r: bool)
        ensures
            r == spec_attr_file(self.attributes),
    {
        !self.is_volume() && !self.is_directory()
    }

    pub fn is_hidden(&self) -> (r: bool)
        ensures
            r == (self.attributes & FATX_ATTR_HIDDEN == FATX_ATTR_HIDDEN),
    {
        self.attributes & FATX_ATTR_HIDDEN == FATX_ATTR_HIDDEN
    }

    pub fn is_read_only(&self) -> (r: bool)
        ensures
            r == (self.attributes & FATX_ATTR_READ_ONLY == FATX_ATTR_READ_ONLY),
    {
        self.attributes & FATX_ATTR_READ_ONLY == FATX_ATTR_READ_ONLY
    }

    pub fn is_volume(&self) -> (r: bool)
        ensures
            r == spec_attr_volume(self.attributes),
    {
        self.attributes & FATX_ATTR_VOLUME == FATX_ATTR_VOLUME
    }

    pub fn is_system(&self) -> (r: bool)
        ensures
            r == (self.attributes & FATX_ATTR_SYSTEM == FATX_ATTR_SYSTEM),
    {
        self.attributes & FATX_ATTR_SYSTEM == FATX_ATTR_SYSTEM
    }

    /// Creation instant, decoded from the packed date/time pair.
    pub fn created(&self) -> (r: DateTime)
        ensures
            r.date.year == crate::datetime::spec_date_year(self.created_date),
            r.date.month == crate::datetime::spec_date_month(self.created_date),
            r.date.day == crate::datetime::spec_date_day(self.created_date),
            r.time.hour == crate::datetime::spec_time_hour(self.created_time),
            r.time.minute == crate::datetime::spec_time_minute(self.created_time),
            r.time.second == crate::datetime::spec_time_second(self.created_time),
    {
        DateTime::from_fatx_encoding(self.created_date, self.created_time)
    }

    /// Modification instant, decoded from the packed date/time pair.
    pub fn modified(&self) -> (r: DateTime)
        ensures
            r.date.year == crate::datetime::spec_date_year(self.modified_date),
            r.date.month == crate::datetime::spec_date_month(self.modified_date),
            r.date.day == crate::datetime::spec_date_day(self.modified_date),
            r.time.hour == crate::datetime::spec_time_hour(self.modified_time),
            r.time.minute == crate::datetime::spec_time_minute(self.modified_time),
            r.time.second == crate::datetime::spec_time_second(self.modified_time),
    {
        DateTime::from_fatx_encoding(self.modified_date, self.modified_time)
    }

    /// Access instant, decoded from the packed date/time pair.
    pub fn accessed(&self) -> (r: DateTime)
        ensures
            r.date.year == crate::datetime::spec_date_year(self.accessed_date),
            r.date.month == crate::datetime::spec_date_month(self.accessed_date),
            r.date.day == crate::datetime::spec_date_day(self.accessed_date),
            r.time.hour == crate::datetime::spec_time_hour(self.accessed_time),
            r.time.minute == crate::datetime::spec_time_minute(self.accessed_time),
            r.time.second == crate::datetime::spec_time_second(self.accessed_time),
    {
        DateTime::from_fatx_encoding(self.accessed_date, self.accessed_time)
    }

    /// First cluster of this entry's data.
    pub fn first_cluster(&self) -> (r: u32)
        ensures
            r == self.first_cluster,
    {
        self.first_cluster
    }
}

/// The allocation-table link of cluster `c`, when `c` can be indexed and
/// its entry is a data link; everything else ends or breaks a chain.
pub open spec fn chain_next(fs: FatxFs, c: u32) -> Option<u32> {
    if (c as u64) < fs.fat.spec_capacity() {
        match fs.fat.spec_entry(c as int) {
            FatEntry::Data(n) => Some(n),
            _ => None,
        }
    } else {
        None
    }
}

/// The cluster `i` links past `first` in its chain, if the chain reaches
/// that far.
pub open spec fn chain_at(fs: FatxFs, first: u32, i: nat) -> Option<u32>
    decreases i,
{
    if i == 0 {
        Some(first)
    } else {
        match chain_at(fs, first, (i - 1) as nat) {
            None => None,
            Some(c) => chain_next(fs, c),
        }
    }
}

/// The 64 bytes of directory-entry slot `slot` of cluster `c`, when the
/// cluster id is servable and the slot lies inside the partition image.
pub open spec fn slot_bytes(fs: FatxFs, c: u32, slot: int) -> Option<Seq<u8>> {
    if fs.spec_cluster_in_range(c as int) && fs.spec_cluster_rel_off(c as int) + slot * 64 + 64
        <= fs.image@.len() {
        Some(
            fs.image@.subrange(
                fs.spec_cluster_rel_off(c as int) + slot * 64,
                fs.spec_cluster_rel_off(c as int) + slot * 64 + 64,
            ),
        )
    } else {
        None
    }
}

/// The error a failed slot read reports: an out-of-range cluster id, or an
/// in-range slot whose bytes lie past the end of the image.
pub open spec fn slot_err(fs: FatxFs, c: u32) -> Error {
    if !fs.spec_cluster_in_range(c as int) {
        Error::InvalidClusterNumber
    } else {
        Error::Io
    }
}

/// Iterator over the 64-byte slots of one directory's cluster chain, in
/// on-disk order. It advances to the next cluster through the allocation
/// table and flags the chain as corrupt when a link is not a data link —
/// or when more clusters were followed than the table has entries, which
/// proves the chain loops.
pub struct DirectoryEntryIterator {
    pub cluster: u32,
    pub entry: i64,
    pub finished: bool,
    pub clusters_seen: u64,
}

/// What one `next` call reads and leaves behind, after the slot to read
/// was settled to `(c, slot)` with `seen` clusters followed: a slot
/// outside the image reports its error without finishing, a readable slot
/// decodes into the yielded entry and finishes the iterator exactly when
/// the entry is an end-of-directory marker.
pub open spec fn read_post(
    fs: FatxFs,
    s: DirectoryEntryIterator,
    r: Option<Result<DirectoryEntry, Error>>,
    c: u32,
    slot: int,
    seen: int,
) -> bool {
    match slot_bytes(fs, c, slot) {
        None => {
            &&& r matches Some(rr) && rr == Err::<DirectoryEntry, Error>(slot_err(fs, c))
            &&& s.cluster == c
            &&& s.entry == slot
            &&& s.finished == false
            &&& s.clusters_seen == seen
        },
        Some(b) => {
            &&& r matches Some(rr) && rr matches Ok(e) && decodes_to(b, e) && e.wf()
            &&& s.cluster == c
            &&& s.entry == slot
            &&& s.finished == (bytes_kind(b) == DirectoryEntryKind::EndOfDirectory)
            &&& s.clusters_seen == seen
        },
    }
}

/// Full step relation of `next`: a finished iterator yields nothing; a
/// slot left in the current cluster is read there; past the last slot the
/// chain is followed once, and a link that is not a data link — or a walk
/// that already followed as many links as the table has entries — is a
/// corrupt chain and finishes the iterator.
pub open spec fn next_post(
    fs: FatxFs,
    o: DirectoryEntryIterator,
    s: DirectoryEntryIterator,
    r: Option<Result<DirectoryEntry, Error>>,
) -> bool {
    if o.finished {
        r is None && s == o
    } else if o.entry + 1 < fs.num_entries_per_cluster {
        read_post(fs, s, r, o.cluster, o.entry + 1, o.clusters_seen as int)
    } else if o.clusters_seen >= fs.fat.spec_capacity() || chain_next(fs, o.cluster) is None {
        &&& r matches Some(rr) && rr == Err::<DirectoryEntry, Error>(Error::InvalidClusterChain)
        &&& s.cluster == o.cluster
        &&& s.entry == o.entry + 1
        &&& s.finished == true
        &&& s.clusters_seen == o.clusters_seen
    } else {
        read_post(fs, s, r, chain_next(fs, o.cluster).unwrap(), 0, o.clusters_seen + 1)
    }
}

impl DirectoryEntryIterator {
    /// The slot cursor stays one step behind a readable position and the
    /// cluster counter never passes the table size.
    pub open spec fn inv(self, fs: FatxFs) -> bool {
        self.finished || (-1 <= self.entry && self.entry < fs.num_entries_per_cluster
            && self.clusters_seen <= fs.fat.spec_capacity())
    }

    /// A fresh iterator over the chain starting at `cluster`.
    pub fn new(cluster: u32) -> (r: Self)
        ensures
            r.cluster == cluster,
            r.entry == -1i64,
            r.finished == false,
            r.clusters_seen == 0,
    {
        Self { cluster, entry: -1, finished: false, clusters_seen: 0 }
    }

    /// Reads the next slot of the chain, advancing clusters as needed.
    pub fn next(&mut self, fs: &FatxFs) -> (r: Option<Result<DirectoryEntry, Error>>)
        requires
            fs.wf(),
            old(self).inv(*fs),
        ensures
            final(self).inv(*fs),
            next_post(*fs, *old(self), *final(self), r),
    {
        if self.finished {
            return None;
        }
        self.entry = self.entry + 1;
        if self.entry as u64 >= fs.num_entries_per_cluster {
            if self.clusters_seen >= fs.fat.capacity() {
                self.finished = true;
                return Some(Err(Error::InvalidClusterChain));
            }
            match fs.fat.entry(self.cluster) {
                Ok(FatEntry::Data(next_cluster)) => {
                    self.cluster = next_cluster;
                    self.entry = 0;
                    self.clusters_seen = self.clusters_seen + 1;
                },
                _ => {
                    self.finished = true;
                    return Some(Err(Error::InvalidClusterChain));
                },
            }
        }
        let rel = match fs.cluster_rel_offset(self.cluster) {
            Ok(o) => o,
            Err(e) => {
                return Some(Err(e));
            },
        };
        let off: u64 = rel + (self.entry as u64) * 64;
        let data = match fs.read_at(off, 64) {
            Ok(d) => d,
            Err(e) => {
                return Some(Err(e));
            },
        };
        let entry = DirectoryEntry::from_bytes(&data, 0);
        proof {
            assert(data@.subrange(0, 64) =~= data@);
        }
        if entry.kind() == DirectoryEntryKind::EndOfDirectory {
            self.finished = true;
        }
        Some(Ok(entry))
    }
}

/// Outcome of scanning one directory chain for the name `name`, the slot
/// to read being `slot` of cluster `cluster` with `seen` clusters already
/// followed: the matching entry's bytes, or not-found once an
/// end-of-directory marker is met, or the error of the first failing step.
/// Deleted entries, and valid entries with another name, are passed over.
pub open spec fn scan_find(
    fs: FatxFs,
    cluster: u32,
    slot: int,
    seen: int,
    name: Seq<u8>,
) -> Result<Seq<u8>, Error>
    decreases fs.fat.spec_capacity() - seen, fs.num_entries_per_cluster - slot,
{
    if seen < 0 || seen > fs.fat.spec_capacity() || slot < 0 || slot
        > fs.num_entries_per_cluster {
        Err(Error::InvalidClusterChain)
    } else if slot == fs.num_entries_per_cluster {
        if seen == fs.fat.spec_capacity() {
            Err(Error::InvalidClusterChain)
        } else {
            match chain_next(fs, cluster) {
                None => Err(Error::InvalidClusterChain),
                Some(nc) => scan_find(fs, nc, 0, seen + 1, name),
            }
        }
    } else {
        match slot_bytes(fs, cluster, slot) {
            None => Err(slot_err(fs, cluster)),
            Some(b) => {
                if bytes_kind(b) == DirectoryEntryKind::EndOfDirectory {
                    Err(Error::NotFound)
                } else if bytes_kind(b) == DirectoryEntryKind::Valid && bytes_name_matches(
                    b,
                    name,
                ) {
                    Ok(b)
                } else {
                    scan_find(fs, cluster, slot + 1, seen, name)
                }
            },
        }
    }
}

/// Outcome of resolving the name components `names[k..]` against the
/// directory chain starting at `cluster`: the final component's entry
/// bytes, or the error of the first failing lookup; an intermediate
/// component that is not a directory is `NotADirectory`.
pub open spec fn resolve_path(fs: FatxFs, names: Seq<Seq<char>>, k: int, cluster: u32) -> Result<
    Seq<u8>,
    Error,
>
    decreases names.len() - k,
{
    if k < 0 || k >= names.len() {
        Err(Error::NotFound)
    } else {
        match scan_find(fs, cluster, 0, 0, encode_utf8(names[k])) {
            Err(e) => Err(e),
            Ok(b) => {
                if k == names.len() - 1 {
                    Ok(b)
                } else if spec_attr_directory(b[1]) {
                    resolve_path(fs, names, k + 1, (le32(b, 44) as u32))
                } else {
                    Err(Error::NotADirectory)
                }
            },
        }
    }
}

/// The synthetic entry that stands for the volume root, which has no
/// on-disk record: a directory named `root` at the volume's root cluster.
pub open spec fn is_root_entry(e: DirectoryEntry, fs: FatxFs) -> bool {
    &&& e.wf()
    &&& e.filename_len == 8
    &&& e.attributes == FATX_ATTR_DIRECTORY
    &&& e.filename_bytes@[0] == 114u8
    &&& e.filename_bytes@[1] == 111u8
    &&& e.filename_bytes@[2] == 111u8
    &&& e.filename_bytes@[3] == 116u8
    &&& forall|i: int| 4 <= i < 42 ==> e.filename_bytes@[i] == 0u8
    &&& e.first_cluster == fs.root_cluster
    &&& e.file_size == 0
    &&& e.modified_time == 0 && e.modified_date == 0
    &&& e.created_time == 0 && e.created_date == 0
    &&& e.accessed_time == 0 && e.accessed_date == 0
}

/// Compares the stored filename of `e` with `name`, byte for byte. An
/// entry whose stored length exceeds the buffer matches nothing.
fn name_matches(e: &DirectoryEntry, name: &[u8]) -> (r: bool)
    requires
        e.wf(),
    ensures
        r == (e.filename_len <= FATX_MAX_FILENAME_LEN && e.spec_name_bytes() == name@),
{
    if e.filename_len > FATX_MAX_FILENAME_LEN {
        return false;
    }
    let len = e.filename_len as usize;
    if len != name.len() {
        proof {
            assert(e.spec_name_bytes().len() == len);
        }
        return false;
    }
    let mut i: usize = 0;
    while i < len
        invariant
            e.wf(),
            len == e.filename_len <= 42,
            len == name@.len(),
            0 <= i <= len,
            forall|j: int| 0 <= j < i ==> e.filename_bytes@[j] == name@[j],
        decreases len - i,
    {
        if e.filename_bytes[i] != name[i] {
            proof {
                assert(e.spec_name_bytes()[i as int] != name@[i as int]);
            }
            return false;
        }
        i = i + 1;
    }
    proof {
        assert(e.spec_name_bytes() =~= name@);
    }
    true
}

/// Scans the directory chain starting at `first` for the entry named by
/// the byte sequence `name`, in on-disk order, first match wins.
fn find_in_dir(fs: &FatxFs, first: u32, name: &[u8]) -> (r: Result<DirectoryEntry, Error>)
    requires
        fs.wf(),
    ensures
        match scan_find(*fs, first, 0, 0, name@) {
            Ok(b) => r matches Ok(e) && decodes_to(b, e) && e.wf(),
            Err(er) => r == Err::<DirectoryEntry, Error>(er),
        },
{
    let mut iter = DirectoryEntryIterator::new(first);
    loop
        invariant
            fs.wf(),
            iter.inv(*fs),
            !iter.finished,
            scan_find(*fs, first, 0, 0, name@) == scan_find(
                *fs,
                iter.cluster,
                iter.entry + 1,
                iter.clusters_seen as int,
                name@,
            ),
        decreases fs.fat.spec_capacity() - iter.clusters_seen, fs.num_entries_per_cluster
            - iter.entry,
    {
        let ghost prev = iter;
        let item = match iter.next(fs) {
            Some(it) => it,
            None => {
                proof {
                    assert(false);
                }
                return Err(Error::NotFound);
            },
        };
        let ghost stepped: bool = !(prev.entry + 1 < fs.num_entries_per_cluster);
        let ghost chain_ok: bool = !stepped || (prev.clusters_seen < fs.fat.spec_capacity()
            && chain_next(*fs, prev.cluster) is Some);
        let ghost c_read: u32 = if !stepped {
            prev.cluster
        } else {
            chain_next(*fs, prev.cluster).unwrap_or(0)
        };
        let ghost slot_read: int = if !stepped {
            prev.entry + 1
        } else {
            0
        };
        let ghost seen_read: int = if !stepped {
            prev.clusters_seen as int
        } else {
            prev.clusters_seen as int + 1
        };
        proof {
            if stepped && chain_ok {
                assert(scan_find(*fs, prev.cluster, prev.entry + 1, prev.clusters_seen as int,
                    name@) == scan_find(*fs, c_read, 0, seen_read, name@));
            }
            if chain_ok {
                assert(read_post(*fs, iter, item_opt_view(item), c_read, slot_read, seen_read));
            }
        }
        let entry = match item {
            Ok(e) => e,
            Err(er) => {
                proof {
                    let sf = scan_find(*fs, prev.cluster, prev.entry + 1,
                        prev.clusters_seen as int, name@);
                    if !chain_ok {
                        assert(sf == Err::<Seq<u8>, Error>(Error::InvalidClusterChain));
                    } else {
                        assert(slot_bytes(*fs, c_read, slot_read) is None);
                        assert(sf == Err::<Seq<u8>, Error>(er));
                    }
                }
                return Err(er);
            },
        };
        let ghost b = slot_bytes(*fs, c_read, slot_read).unwrap();
        proof {
            assert(decodes_to(b, entry));
            lemma_name_match_bytes(b, entry, name@);
        }
        let kind = entry.kind();
        if kind == DirectoryEntryKind::EndOfDirectory {
            proof {
                assert(scan_find(*fs, c_read, slot_read, seen_read, name@) == Err::<Seq<u8>,
                    Error>(Error::NotFound));
            }
            return Err(Error::NotFound);
        }
        if kind == DirectoryEntryKind::Valid && name_matches(&entry, name) {
            proof {
                assert(bytes_name_matches(b, name@));
                assert(scan_find(*fs, c_read, slot_read, seen_read, name@) == Ok::<Seq<u8>,
                    Error>(b));
            }
            return Ok(entry);
        }
        proof {
            assert(!(bytes_kind(b) == DirectoryEntryKind::Valid && bytes_name_matches(b, name@)));
            assert(scan_find(*fs, c_read, slot_read, seen_read, name@) == scan_find(*fs, c_read,
                slot_read + 1, seen_read, name@));
        }
    }
}

/// The result of one iterator step, seen as the option value `read_post`
/// speaks about.
spec fn item_opt_view(item: Result<DirectoryEntry, Error>) -> Option<
    Result<DirectoryEntry, Error>,
> {
    Some(item)
}

proof fn lemma_name_match_bytes(b: Seq<u8>, e: DirectoryEntry, name: Seq<u8>)
    requires
        decodes_to(b, e),
        e.wf(),
    ensures
        bytes_name_matches(b, name) == (bytes_kind(b) == DirectoryEntryKind::Valid
            && e.filename_len <= FATX_MAX_FILENAME_LEN && e.spec_name_bytes() == name),
{
    if e.filename_len <= 42 {
        assert(e.spec_name_bytes() =~= b.subrange(2, 2 + b[0]));
    }
}

/// What resolving `path` against `fs` returns: the bare root path gives
/// the synthetic root entry with no read of the image; a relative path
/// with names is not found; an absolute path resolves component by
/// component from the root cluster.
pub open spec fn from_path_post(fs: FatxFs, path: Seq<char>, r: Result<
    DirectoryEntry,
    Error,
>) -> bool {
    let q = normalize_spec(path);
    let names = names_of(q);
    if names.len() == 0 {
        r matches Ok(e) && is_root_entry(e, fs)
    } else if !is_abs(q) {
        r == Err::<DirectoryEntry, Error>(Error::NotFound)
    } else {
        match resolve_path(fs, names, 0, fs.root_cluster) {
            Ok(b) => r matches Ok(e) && decodes_to(b, e) && e.wf(),
            Err(er) => r == Err::<DirectoryEntry, Error>(er),
        }
    }
}

impl DirectoryEntry {
    /// Builds the synthetic entry that stands for the volume root.
    fn root_entry(fs: &FatxFs) -> (e: DirectoryEntry)
        ensures
            is_root_entry(e, *fs),
    {
        let mut filename_bytes: Vec<u8> = Vec::new();
        filename_bytes.push(114);
        filename_bytes.push(111);
        filename_bytes.push(111);
        filename_bytes.push(116);
        let mut i: usize = 4;
        while i < 42
            invariant
                4 <= i <= 42,
                filename_bytes@.len() == i,
                filename_bytes@[0] == 114u8,
                filename_bytes@[1] == 111u8,
                filename_bytes@[2] == 111u8,
                filename_bytes@[3] == 116u8,
                forall|j: int| 4 <= j < i ==> filename_bytes@[j] == 0u8,
            decreases 42 - i,
        {
            filename_bytes.push(0);
            i = i + 1;
        }
        DirectoryEntry {
            filename_len: 8,
            attributes: FATX_ATTR_DIRECTORY,
            filename_bytes,
            first_cluster: fs.root_cluster,
            file_size: 0,
            modified_time: 0,
            modified_date: 0,
            created_time: 0,
            created_date: 0,
            accessed_time: 0,
            accessed_date: 0,
        }
    }

    /// Resolves a virtual path to its directory entry.
    ///
    /// The path is normalized first; the resolver then walks its name
    /// components left to right, scanning each directory's cluster chain
    /// in on-disk order, first match wins. An intermediate component that
    /// resolves to anything but a directory is `NotADirectory`; a
    /// component absent from its directory is `NotFound`. The bare root
    /// path yields a synthetic directory entry without touching the
    /// image.
    pub fn from_path(fs: &FatxFs, path: &str) -> (r: Result<DirectoryEntry, Error>)
        requires
            fs.wf(),
        ensures
            from_path_post(*fs, path@, r),
    {
        let normalized = normalize_virtual_path(path);
        let nstr = normalized.as_str();
        let stack = scan_names(nstr);
        let ghost names = names_of(nstr@);
        if stack.len() == 0 {
            return Ok(Self::root_entry(fs));
        }
        let abs = if nstr.unicode_len() > 0 {
            nstr.get_char(0) == '/'
        } else {
            false
        };
        if !abs {
            return Err(Error::NotFound);
        }
        let mut cwd: u32 = fs.root_cluster;
        let mut k: usize = 0;
        loop
            invariant
                fs.wf(),
                nstr@ == normalize_spec(path@),
                is_abs(nstr@),
                names == names_of(nstr@),
                ranges_ok(stack@, nstr@),
                ranges_to_comps(stack@, nstr@) == names,
                0 <= k < stack@.len(),
                stack@.len() == names.len(),
                resolve_path(*fs, names, 0, fs.root_cluster) == resolve_path(
                    *fs,
                    names,
                    k as int,
                    cwd,
                ),
            decreases stack@.len() - k,
        {
            let (a, bnd) = stack[k];
            let comp = nstr.substring_char(a, bnd);
            let name_bytes = comp.as_bytes();
            proof {
                assert(names[k as int] == nstr@.subrange(a as int, bnd as int));
                assert(name_bytes@ == encode_utf8(names[k as int]));
            }
            let found = match find_in_dir(fs, cwd, name_bytes) {
                Ok(e) => e,
                Err(er) => {
                    proof {
                        assert(scan_find(*fs, cwd, 0, 0, encode_utf8(names[k as int]))
                            == Err::<Seq<u8>, Error>(er));
                        assert(resolve_path(*fs, names, k as int, cwd) == Err::<Seq<u8>, Error>(
                            er,
                        ));
                    }
                    return Err(er);
                },
            };
            let ghost b = scan_find(*fs, cwd, 0, 0, encode_utf8(names[k as int])).unwrap();
            proof {
                assert(decodes_to(b, found));
                assert(found.attributes == b[1] && found.first_cluster == le32(b, 44));
            }
            if k == stack.len() - 1 {
                proof {
                    assert(resolve_path(*fs, names, k as int, cwd) == Ok::<Seq<u8>, Error>(b));
                }
                return Ok(found);
            }
            if found.is_directory() {
                proof {
                    assert(resolve_path(*fs, names, k as int, cwd) == resolve_path(*fs, names,
                        k + 1, found.first_cluster));
                }
                cwd = found.first_cluster();
                k = k + 1;
            } else {
                proof {
                    assert(resolve_path(*fs, names, k as int, cwd) == Err::<Seq<u8>, Error>(
                        Error::NotADirectory,
                    ));
                }
                return Err(Error::NotADirectory);
            }
        }
    }
}

/// Outcome of scanning one directory chain for its next valid entry, the
/// slot to read being `slot` of `cluster` with `seen` clusters already
/// followed: the entry's bytes, or nothing once an end-of-directory
/// marker is met, or the error of the first failing step. Deleted entries
/// are passed over.
pub open spec fn scan_valid(fs: FatxFs, cluster: u32, slot: int, seen: int) -> Result<
    Option<Seq<u8>>,
    Error,
>
    decreases fs.fat.spec_capacity() - seen, fs.num_entries_per_cluster - slot,
{
    if seen < 0 || seen > fs.fat.spec_capacity() || slot < 0 || slot
        > fs.num_entries_per_cluster {
        Err(Error::InvalidClusterChain)
    } else if slot == fs.num_entries_per_cluster {
        if seen == fs.fat.spec_capacity() {
            Err(Error::InvalidClusterChain)
        } else {
            match chain_next(fs, cluster) {
                None => Err(Error::InvalidClusterChain),
                Some(nc) => scan_valid(fs, nc, 0, seen + 1),
            }
        }
    } else {
        match slot_bytes(fs, cluster, slot) {
            None => Err(slot_err(fs, cluster)),
            Some(b) => {
                if bytes_kind(b) == DirectoryEntryKind::EndOfDirectory {
                    Ok(None)
                } else if bytes_kind(b) == DirectoryEntryKind::Valid {
                    Ok(Some(b))
                } else {
                    scan_valid(fs, cluster, slot + 1, seen)
                }
            },
        }
    }
}

/// The cursor a directory listing is left with after one `next` call
/// that started with slot `slot` of `cluster` to read and `seen`
/// clusters followed: it stops on the slot that settled the call —
/// finished for good on a corrupt chain or an end-of-directory marker,
/// ready for the following slot otherwise.
pub open spec fn scan_valid_stop(
    fs: FatxFs,
    cluster: u32,
    slot: int,
    seen: int,
) -> DirectoryEntryIterator
    decreases fs.fat.spec_capacity() - seen, fs.num_entries_per_cluster - slot,
{
    if seen < 0 || seen > fs.fat.spec_capacity() || slot < 0 || slot
        > fs.num_entries_per_cluster {
        DirectoryEntryIterator {
            cluster,
            entry: slot as i64,
            finished: true,
            clusters_seen: seen as u64,
        }
    } else if slot == fs.num_entries_per_cluster {
        if seen == fs.fat.spec_capacity() {
            DirectoryEntryIterator {
                cluster,
                entry: slot as i64,
                finished: true,
                clusters_seen: seen as u64,
            }
        } else {
            match chain_next(fs, cluster) {
                None => DirectoryEntryIterator {
                    cluster,
                    entry: slot as i64,
                    finished: true,
                    clusters_seen: seen as u64,
                },
                Some(nc) => scan_valid_stop(fs, nc, 0, seen + 1),
            }
        }
    } else {
        match slot_bytes(fs, cluster, slot) {
            None => DirectoryEntryIterator {
                cluster,
                entry: slot as i64,
                finished: false,
                clusters_seen: seen as u64,
            },
            Some(b) => {
                if bytes_kind(b) == DirectoryEntryKind::EndOfDirectory {
                    DirectoryEntryIterator {
                        cluster,
                        entry: slot as i64,
                        finished: true,
                        clusters_seen: seen as u64,
                    }
                } else if bytes_kind(b) == DirectoryEntryKind::Valid {
                    DirectoryEntryIterator {
                        cluster,
                        entry: slot as i64,
                        finished: false,
                        clusters_seen: seen as u64,
                    }
                } else {
                    scan_valid_stop(fs, cluster, slot + 1, seen)
                }
            },
        }
    }
}

/// A directory listing: walks one directory's cluster chain through a
/// shared volume handle and yields only the valid entries, in on-disk
/// order. The sequence is finite and not restartable; a corrupt chain
/// finishes it for good, while a failed slot read is reported and the
/// cursor moves on to the next slot.
pub struct DirectoryEntryIntoIterator {
    pub fs: FatxFsHandle,
    pub entry_iter: DirectoryEntryIterator,
}

impl DirectoryEntryIntoIterator {
    /// The held volume is well-formed and the inner cursor agrees with it.
    pub open spec fn wf(self) -> bool {
        &&& (*self.fs.fs).wf()
        &&& self.entry_iter.inv(*self.fs.fs)
    }

    /// A listing of the directory whose chain starts at `cluster`.
    pub fn new(handle: FatxFsHandle, cluster: u32) -> (r: Self)
        requires
            (*handle.fs).wf(),
        ensures
            r.wf(),
            r.fs.fs == handle.fs,
            r.entry_iter.cluster == cluster,
            r.entry_iter.entry == -1i64,
            r.entry_iter.finished == false,
            r.entry_iter.clusters_seen == 0,
    {
        Self { fs: handle, entry_iter: DirectoryEntryIterator::new(cluster) }
    }

    /// The next valid entry of the directory, an error, or nothing once
    /// the end of the directory was reached.
    pub fn next(&mut self) -> (r: Option<Result<DirectoryEntry, Error>>)
        requires
            old(self).wf(),
        ensures
            final(self).wf(),
            final(self).fs.fs == old(self).fs.fs,
            old(self).entry_iter.finished ==> r is None && final(self).entry_iter == old(
                self,
            ).entry_iter,
            r is None ==> final(self).entry_iter.finished,
            !old(self).entry_iter.finished ==> final(self).entry_iter == scan_valid_stop(
                *old(self).fs.fs,
                old(self).entry_iter.cluster,
                old(self).entry_iter.entry + 1,
                old(self).entry_iter.clusters_seen as int,
            ),
            !old(self).entry_iter.finished ==> match scan_valid(
                *old(self).fs.fs,
                old(self).entry_iter.cluster,
                old(self).entry_iter.entry + 1,
                old(self).entry_iter.clusters_seen as int,
            ) {
                Err(e) => r matches Some(rr) && rr == Err::<DirectoryEntry, Error>(e),
                Ok(None) => r is None,
                Ok(Some(b)) => r matches Some(rr) && rr matches Ok(e) && decodes_to(b, e)
                    && e.wf(),
            },
    {
        loop
            invariant
                (*self.fs.fs).wf(),
                self.fs.fs == old(self).fs.fs,
                self.entry_iter.inv((*old(self).fs.fs)),
                old(self).entry_iter.finished ==> self.entry_iter == old(self).entry_iter,
                !old(self).entry_iter.finished ==> !self.entry_iter.finished && scan_valid(
                    (*old(self).fs.fs),
                    old(self).entry_iter.cluster,
                    old(self).entry_iter.entry + 1,
                    old(self).entry_iter.clusters_seen as int,
                ) == scan_valid(
                    (*old(self).fs.fs),
                    self.entry_iter.cluster,
                    self.entry_iter.entry + 1,
                    self.entry_iter.clusters_seen as int,
                ) && scan_valid_stop(
                    (*old(self).fs.fs),
                    old(self).entry_iter.cluster,
                    old(self).entry_iter.entry + 1,
                    old(self).entry_iter.clusters_seen as int,
                ) == scan_valid_stop(
                    (*old(self).fs.fs),
                    self.entry_iter.cluster,
                    self.entry_iter.entry + 1,
                    self.entry_iter.clusters_seen as int,
                ),
            decreases (*old(self).fs.fs).fat.spec_capacity() - self.entry_iter.clusters_seen,
                (*old(self).fs.fs).num_entries_per_cluster - self.entry_iter.entry,
        {
            let ghost prev = self.entry_iter;
            if self.entry_iter.finished {
                return None;
            }
            let volume: &FatxFs = arc_volume_ref(&self.fs.fs);
            proof {
                assert(*volume == *old(self).fs.fs);
            }
            let item = match self.entry_iter.next(volume) {
                Some(it) => it,
                None => {
                    proof {
                        assert(false);
                    }
                    return None;
                },
            };
            let ghost stepped: bool = !(prev.entry + 1 < (*volume).num_entries_per_cluster);
            let ghost chain_ok: bool = !stepped || (prev.clusters_seen < (*volume).fat.spec_capacity()
                && chain_next((*volume), prev.cluster) is Some);
            let ghost c_read: u32 = if !stepped {
                prev.cluster
            } else {
                chain_next((*volume), prev.cluster).unwrap_or(0)
            };
            let ghost slot_read: int = if !stepped {
                prev.entry + 1
            } else {
                0
            };
            let ghost seen_read: int = if !stepped {
                prev.clusters_seen as int
            } else {
                prev.clusters_seen as int + 1
            };
            proof {
                if stepped && chain_ok {
                    assert(scan_valid((*volume), prev.cluster, prev.entry + 1,
                        prev.clusters_seen as int) == scan_valid((*volume), c_read, 0, seen_read));
                    assert(scan_valid_stop((*volume), prev.cluster, prev.entry + 1,
                        prev.clusters_seen as int) == scan_valid_stop((*volume), c_read, 0,
                        seen_read));
                }
                if chain_ok {
                    assert(read_post((*volume), self.entry_iter, item_opt_view(item), c_read,
                        slot_read, seen_read));
                }
            }
            let entry = match item {
                Ok(e) => e,
                Err(er) => {
                    proof {
                        if !chain_ok {
                            assert(scan_valid((*volume), prev.cluster, prev.entry + 1,
                                prev.clusters_seen as int) == Err::<Option<Seq<u8>>, Error>(
                                Error::InvalidClusterChain,
                            ));
                            assert(scan_valid_stop((*volume), prev.cluster, prev.entry + 1,
                                prev.clusters_seen as int) == self.entry_iter);
                        } else {
                            assert(slot_bytes((*volume), c_read, slot_read) is None);
                            assert(scan_valid((*volume), c_read, slot_read, seen_read) == Err::<
                                Option<Seq<u8>>,
                                Error,
                            >(er));
                            assert(scan_valid_stop((*volume), c_read, slot_read, seen_read)
                                == self.entry_iter);
                        }
                    }
                    return Some(Err(er));
                },
            };
            let ghost b = slot_bytes((*volume), c_read, slot_read).unwrap();
            proof {
                assert(decodes_to(b, entry));
            }
            let kind = entry.kind();
            if kind == DirectoryEntryKind::Valid {
                proof {
                    assert(scan_valid((*volume), c_read, slot_read, seen_read) == Ok::<
                        Option<Seq<u8>>,
                        Error,
                    >(Some(b)));
                    assert(scan_valid_stop((*volume), c_read, slot_read, seen_read)
                        == self.entry_iter);
                }
                return Some(Ok(entry));
            }
            if kind == DirectoryEntryKind::EndOfDirectory {
                proof {
                    assert(scan_valid((*volume), c_read, slot_read, seen_read) == Ok::<
                        Option<Seq<u8>>,
                        Error,
                    >(None));
                    assert(scan_valid_stop((*volume), c_read, slot_read, seen_read)
                        == self.entry_iter);
                }
                return None;
            }
            proof {
                assert(scan_valid((*volume), c_read, slot_read, seen_read) == scan_valid((*volume), c_read,
                    slot_read + 1, seen_read));
                assert(scan_valid_stop((*volume), c_read, slot_read, seen_read) == scan_valid_stop(
                    (*volume), c_read, slot_read + 1, seen_read));
            }
        }
    }
}

/// How much scanning work a listing cursor can still do: clusters the
/// walk may yet follow, weighted by the slots of a cluster, plus the
/// slots left in the current cluster.
pub open spec fn listing_measure(fs: FatxFs, seen: int, entry: int) -> int {
    (fs.fat.spec_capacity() - seen) * (fs.num_entries_per_cluster + 1) + (
    fs.num_entries_per_cluster - entry)
}

/// Law: the listing is finite — a `next` call that starts unfinished
/// either finishes the cursor or leaves it with strictly less scanning
/// work (`scan_valid_stop` is where `next` leaves the cursor, starting
/// from slot `slot` with `seen` clusters followed, so the measure falls
/// below that of a cursor standing on slot `slot - 1`).
pub proof fn lemma_listing_progress(fs: FatxFs, cluster: u32, slot: int, seen: int)
    requires
        fs.wf(),
        0 <= slot <= fs.num_entries_per_cluster,
        0 <= seen <= fs.fat.spec_capacity(),
    ensures
        ({
            let st = scan_valid_stop(fs, cluster, slot, seen);
            !st.finished ==> listing_measure(fs, st.clusters_seen as int, st.entry as int)
                < listing_measure(fs, seen, slot - 1)
        }),
    decreases fs.fat.spec_capacity() - seen, fs.num_entries_per_cluster - slot,
{
    let cap = fs.fat.spec_capacity() as int;
    let epc = fs.num_entries_per_cluster as int;
    if slot == epc {
        if seen < cap && chain_next(fs, cluster) is Some {
            let nc = chain_next(fs, cluster).unwrap();
            lemma_listing_progress(fs, nc, 0, seen + 1);
            assert((cap - (seen + 1)) * (epc + 1) + (epc + 1) == (cap - seen) * (epc + 1))
                by (nonlinear_arith);
        }
    } else {
        match slot_bytes(fs, cluster, slot) {
            None => {},
            Some(b) => {
                if bytes_kind(b) != DirectoryEntryKind::EndOfDirectory && bytes_kind(b)
                    != DirectoryEntryKind::Valid {
                    lemma_listing_progress(fs, cluster, slot + 1, seen);
                }
            },
        }
    }
}

/// Law: resolving the bare root path yields the synthetic root entry, an
/// entry built from the volume's root cluster alone — `is_root_entry`
/// makes no reference to the partition image, so no read of it takes
/// place.
pub proof fn lemma_root_resolution(
    fs: FatxFs,
    path: Seq<char>,
    r: Result<DirectoryEntry, Error>,
)
    requires
        names_of(normalize_spec(path)).len() == 0,
        from_path_post(fs, path, r),
    ensures
        r matches Ok(e) && is_root_entry(e, fs),
{
}

/// Law: a path whose intermediate component resolves to anything but a
/// directory fails with `NotADirectory`, whether or not the rest of the
/// path would resolve.
pub proof fn lemma_intermediate_file_not_a_directory(
    fs: FatxFs,
    names: Seq<Seq<char>>,
    k: int,
    cluster: u32,
)
    requires
        0 <= k < names.len() - 1,
        scan_find(fs, cluster, 0, 0, encode_utf8(names[k])) is Ok,
        !spec_attr_directory(scan_find(fs, cluster, 0, 0, encode_utf8(names[k])).unwrap()[1]),
    ensures
        resolve_path(fs, names, k, cluster) == Err::<Seq<u8>, Error>(Error::NotADirectory),
{
}

/// Law: a component absent from its directory — the scan meets the
/// directory's end marker without a name match — fails the whole
/// resolution with `NotFound`.
pub proof fn lemma_absent_name_not_found(
    fs: FatxFs,
    names: Seq<Seq<char>>,
    k: int,
    cluster: u32,
)
    requires
        0 <= k < names.len(),
        scan_find(fs, cluster, 0, 0, encode_utf8(names[k])) == Err::<Seq<u8>, Error>(
            Error::NotFound,
        ),
    ensures
        resolve_path(fs, names, k, cluster) == Err::<Seq<u8>, Error>(Error::NotFound),
{
}

/// Relies on `std::sync::Arc`'s deref: the reference is to the volume the
/// handle holds.
#[verifier::external_body]
pub(crate) fn arc_volume_ref(fs: &std::sync::Arc<FatxFs>) -> (r: &FatxFs)
    ensures
        *r == **fs,
{
    &**fs
}

/// Relies on `String::from_utf8`: yields the string of those bytes when
/// they are valid UTF-8 and refuses them otherwise.
#[verifier::external_body]
fn string_from_utf8(v: Vec<u8>) -> (r: Option<String>)
    ensures
        r matches Some(s) ==> valid_utf8(v@) && s@ == decode_utf8(v@),
        r is Some <==> valid_utf8(v@),
{
    match String::from_utf8(v) {
        Ok(s) => Some(s),
        Err(_) => None,
    }
}

} // verus!
