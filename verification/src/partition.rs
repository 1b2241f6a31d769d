//! The static partition map.
//!
//! The console's storage carries no on-device partition table; the regions
//! are fixed by convention and selected by a single-letter identifier.

use vstd::prelude::*;

use vstd::string::StrSliceExecFns;

verus! {

/// One fixed partition region: identifying letter, byte offset and byte
/// size on the device.
#[derive(Debug, Clone, Copy, PartialEq, Eq, Structural)]
pub struct PartitionMapEntry {
    pub letter: char,
    pub offset_bytes: u64,
    pub size_bytes: u64,
}

/// The region assigned to `letter` by the console's fixed layout, if any.
pub open spec fn spec_from_letter(letter: Seq<char>) -> Option<PartitionMapEntry> {
    if letter == seq!['x'] {
        Some(PartitionMapEntry { letter: 'x', offset_bytes: 0x00080000, size_bytes: 0x02ee00000 })
    } else if letter == seq!['y'] {
        Some(PartitionMapEntry { letter: 'y', offset_bytes: 0x2ee80000, size_bytes: 0x02ee00000 })
    } else if letter == seq!['z'] {
        Some(PartitionMapEntry { letter: 'z', offset_bytes: 0x5dc80000, size_bytes: 0x02ee00000 })
    } else if letter == seq!['c'] {
        Some(PartitionMapEntry { letter: 'c', offset_bytes: 0x8ca80000, size_bytes: 0x01f400000 })
    } else if letter == seq!['e'] {
        Some(PartitionMapEntry { letter: 'e', offset_bytes: 0xabe80000, size_bytes: 0x1312d6000 })
    } else {
        None
    }
}

impl PartitionMapEntry {
    /// Looks a drive letter up in the fixed layout; absent letters yield no
    /// match and the caller must reject them.
    pub fn from_letter(letter: &str) -> (r: Option<PartitionMapEntry>)
        ensures
            r == spec_from_letter(letter@),
    {
        if letter.unicode_len() != 1 {
            proof {
                lemma_single_char_neq(letter@);
            }
            return None;
        }
        let c = letter.get_char(0);
        proof {
            assert(letter@ =~= seq![letter@[0]]);
        }
        if c == 'x' {
            Some(PartitionMapEntry { letter: 'x', offset_bytes: 0x00080000, size_bytes: 0x02ee00000 })
        } else if c == 'y' {
            Some(PartitionMapEntry { letter: 'y', offset_bytes: 0x2ee80000, size_bytes: 0x02ee00000 })
        } else if c == 'z' {
            Some(PartitionMapEntry { letter: 'z', offset_bytes: 0x5dc80000, size_bytes: 0x02ee00000 })
        } else if c == 'c' {
            Some(PartitionMapEntry { letter: 'c', offset_bytes: 0x8ca80000, size_bytes: 0x01f400000 })
        } else if c == 'e' {
            Some(PartitionMapEntry { letter: 'e', offset_bytes: 0xabe80000, size_bytes: 0x1312d6000 })
        } else {
            None
        }
    }

    /// The full fixed layout, in device order.
    pub fn default_partition_layout() -> (r: Vec<PartitionMapEntry>)
        ensures
            r@.len() == 5,
            r@[0] == spec_from_letter(seq!['x']).unwrap(),
            r@[1] == spec_from_letter(seq!['y']).unwrap(),
            r@[2] == spec_from_letter(seq!['z']).unwrap(),
            r@[3] == spec_from_letter(seq!['c']).unwrap(),
            r@[4] == spec_from_letter(seq!['e']).unwrap(),
    {
        proof {
            assert(seq!['x'][0] == 'x');
            assert(seq!['y'][0] == 'y');
            assert(seq!['z'][0] == 'z');
            assert(seq!['c'][0] == 'c');
            assert(seq!['e'][0] == 'e');
        }
        let mut v: Vec<PartitionMapEntry> = Vec::new();
        v.push(PartitionMapEntry { letter: 'x', offset_bytes: 0x00080000, size_bytes: 0x02ee00000 });
        v.push(PartitionMapEntry { letter: 'y', offset_bytes: 0x2ee80000, size_bytes: 0x02ee00000 });
        v.push(PartitionMapEntry { letter: 'z', offset_bytes: 0x5dc80000, size_bytes: 0x02ee00000 });
        v.push(PartitionMapEntry { letter: 'c', offset_bytes: 0x8ca80000, size_bytes: 0x01f400000 });
        v.push(PartitionMapEntry { letter: 'e', offset_bytes: 0xabe80000, size_bytes: 0x1312d6000 });
        v
    }
}

proof fn lemma_single_char_neq(l: Seq<char>)
    requires
        l.len() != 1,
    ensures
        l != seq!['x'],
        l != seq!['y'],
        l != seq!['z'],
        l != seq!['c'],
        l != seq!['e'],
{
}

} // verus!
