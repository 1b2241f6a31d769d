//! The allocation table: an in-memory mirror of the on-disk cluster-link
//! table, interpreted as an array of 16-bit or 32-bit little-endian entries.
//!
//! The width is chosen once, at load time, by whether the volume's entry
//! count stays below the 16-bit reserved marker `0xfff0`; a wider table
//! could not tell a large link value from that marker.

use vstd::prelude::*;

use crate::bytes::{le16, le32, read_le16, read_le32};
use crate::error::Error;

verus! {

/// Width of the allocation table's entries.
#[derive(Debug, Clone, Copy, PartialEq, Eq, Structural)]
pub enum FatType {
    Type16,
    Type32,
}

/// Classified value of one allocation-table entry.
#[derive(Debug, Clone, Copy, PartialEq, Eq, Structural)]
pub enum FatEntry {
    Available,
    Reserved,
    Bad,
    Media,
    End,
    Data(u32),
    Invalid,
}

/// Classification of a 16-bit table value: 0 free, the in-range interior a
/// link, then the reserved, bad and media sentinels, all-ones the chain end.
pub open spec fn spec_classify16(value: u16) -> FatEntry {
    if value == 0x0000 {
        FatEntry::Available
    } else if value < 0xfff0 {
        FatEntry::Data(value as u32)
    } else if value == 0xfff0 {
        FatEntry::Reserved
    } else if value == 0xfff7 {
        FatEntry::Bad
    } else if value == 0xfff8 {
        FatEntry::Media
    } else if value == 0xffff {
        FatEntry::End
    } else {
        FatEntry::Invalid
    }
}

/// Classification of a 32-bit table value, the same pattern scaled to 32
/// bits.
pub open spec fn spec_classify32(value: u32) -> FatEntry {
    if value == 0x00000000 {
        FatEntry::Available
    } else if value < 0xfffffff0 {
        FatEntry::Data(value)
    } else if value == 0xfffffff0 {
        FatEntry::Reserved
    } else if value == 0xfffffff7 {
        FatEntry::Bad
    } else if value == 0xfffffff8 {
        FatEntry::Media
    } else if value == 0xffffffff {
        FatEntry::End
    } else {
        FatEntry::Invalid
    }
}

impl From<u16> for FatEntry {
    /// Classifies a raw 16-bit table value.
    fn from(value: u16) -> (r: FatEntry) {
        if value == 0x0000 {
            FatEntry::Available
        } else if value < 0xfff0 {
            FatEntry::Data(value as u32)
        } else if value == 0xfff0 {
            FatEntry::Reserved
        } else if value == 0xfff7 {
            FatEntry::Bad
        } else if value == 0xfff8 {
            FatEntry::Media
        } else if value == 0xffff {
            FatEntry::End
        } else {
            FatEntry::Invalid
        }
    }
}

impl vstd::std_specs::convert::FromSpecImpl<u16> for FatEntry {
    open spec fn obeys_from_spec() -> bool {
        true
    }

    open spec fn from_spec(value: u16) -> FatEntry {
        spec_classify16(value)
    }
}

impl From<u32> for FatEntry {
    /// Classifies a raw 32-bit table value.
    fn from(value: u32) -> (r: FatEntry) {
        if value == 0x00000000 {
            FatEntry::Available
        } else if value < 0xfffffff0 {
            FatEntry::Data(value)
        } else if value == 0xfffffff0 {
            FatEntry::Reserved
        } else if value == 0xfffffff7 {
            FatEntry::Bad
        } else if value == 0xfffffff8 {
            FatEntry::Media
        } else if value == 0xffffffff {
            FatEntry::End
        } else {
            FatEntry::Invalid
        }
    }
}

impl vstd::std_specs::convert::FromSpecImpl<u32> for FatEntry {
    open spec fn obeys_from_spec() -> bool {
        true
    }

    open spec fn from_spec(value: u32) -> FatEntry {
        spec_classify32(value)
    }
}

/// The in-memory allocation table.
pub struct Fat {
    pub fat_type: FatType,
    pub fat_size_bytes: u64,
    pub fat_data: Vec<u8>,
}

impl Fat {
    /// The table holds a well-formed byte buffer: its on-disk length is the
    /// entry width times the entry count it was sized for, rounded up to the
    /// next 4096-byte boundary, and the buffer is loaded in full.
    pub open spec fn wf(self) -> bool {
        &&& self.fat_data@.len() == self.fat_size_bytes
        &&& self.fat_size_bytes % 4096 == 0
    }

    /// Width in bytes of one entry.
    pub open spec fn spec_entry_width(self) -> u64 {
        match self.fat_type {
            FatType::Type16 => 2,
            FatType::Type32 => 4,
        }
    }

    /// Number of entries the loaded buffer can be indexed with.
    pub open spec fn spec_capacity(self) -> u64 {
        (self.fat_size_bytes / self.spec_entry_width()) as u64
    }

    /// Classified value of entry `index`, read at the table's width.
    pub open spec fn spec_entry(self, index: int) -> FatEntry {
        match self.fat_type {
            FatType::Type16 => spec_classify16(le16(self.fat_data@, 2 * index) as u16),
            FatType::Type32 => spec_classify32(le32(self.fat_data@, 4 * index) as u32),
        }
    }

    /// Builds a zero-filled table sized for `num_fat_entries` clusters.
    ///
    /// A table with fewer than 0xfff0 entries is 16-bit: every entry count
    /// at or above that would collide with the 16-bit reserved marker, so
    /// such tables are 32-bit.
    pub fn new(num_fat_entries: u32) -> (r: Fat)
        requires
            add_round_up_4096(
                num_fat_entries as u64 * (if num_fat_entries < 0xfff0 {
                    2u64
                } else {
                    4u64
                }),
            ) <= usize::MAX as u64,
        ensures
            r.wf(),
            r.fat_type == (if num_fat_entries < 0xfff0 {
                FatType::Type16
            } else {
                FatType::Type32
            }),
            r.fat_size_bytes == add_round_up_4096(
                num_fat_entries as u64 * r.spec_entry_width(),
            ),
            forall|i: int| 0 <= i < r.fat_data@.len() ==> r.fat_data@[i] == 0u8,
    {
        let (fat_type, raw_bytes): (FatType, u64) = if num_fat_entries < 0xfff0 {
            (FatType::Type16, num_fat_entries as u64 * 2)
        } else {
            (FatType::Type32, num_fat_entries as u64 * 4)
        };
        let fat_size_bytes: u64 = ((raw_bytes + 4095) / 4096) * 4096;
        let fat_data: Vec<u8> = vec![0u8; fat_size_bytes as usize];
        Fat { fat_type, fat_size_bytes, fat_data }
    }

    /// Number of entries the loaded buffer can serve.
    pub fn capacity(&self) -> (r: u64)
        requires
            self.wf(),
        ensures
            r == self.spec_capacity(),
    {
        match self.fat_type {
            FatType::Type16 => self.fat_size_bytes / 2,
            FatType::Type32 => self.fat_size_bytes / 4,
        }
    }

    /// Classifies the entry at `index`, or reports an invalid cluster number
    /// when `index` lies past the loaded buffer.
    pub fn entry(&self, index: u32) -> (r: Result<FatEntry, Error>)
        requires
            self.wf(),
        ensures
            (index as u64) < self.spec_capacity() ==> r == Ok::<FatEntry, Error>(
                self.spec_entry(index as int),
            ),
            (index as u64) >= self.spec_capacity() ==> r == Err::<FatEntry, Error>(
                Error::InvalidClusterNumber,
            ),
    {
        let n: usize = self.fat_data.len();
        match self.fat_type {
            FatType::Type16 => {
                if (index as u64) >= self.fat_size_bytes / 2 {
                    return Err(Error::InvalidClusterNumber);
                }
                let value: u16 = read_le16(&self.fat_data, (index as usize) * 2);
                Ok(FatEntry::from(value))
            },
            FatType::Type32 => {
                if (index as u64) >= self.fat_size_bytes / 4 {
                    return Err(Error::InvalidClusterNumber);
                }
                let value: u32 = read_le32(&self.fat_data, (index as usize) * 4);
                Ok(FatEntry::from(value))
            },
        }
    }
}

/// `n` rounded up to the next multiple of 4096.
pub open spec fn add_round_up_4096(n: int) -> int {
    ((n + 4095) / 4096) * 4096
}

} // verus!
