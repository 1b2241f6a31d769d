//! The cluster-chain file reader.
//!
//! A `File` is a stateful sequential/random reader over a resolved
//! entry's cluster chain. It remembers the furthest chain position
//! reached as a pair of relative index and absolute cluster id; the cache
//! is only valid forward — a seek that maps to an earlier cluster
//! discards it and the chain is re-walked from the first cluster.

use vstd::prelude::*;

use vstd::arithmetic::div_mod::{lemma_fundamental_div_mod, lemma_fundamental_div_mod_converse};

use crate::dir::{arc_volume_ref, chain_at, chain_next, DirectoryEntry};
use crate::error::Error;
use crate::fat::FatEntry;
use crate::fs::{FatxFs, FatxFsHandle};

verus! {

/// Where a seek starts from.
#[derive(Debug, Clone, Copy, PartialEq, Eq, Structural)]
pub enum SeekFrom {
    Start(u64),
    Current(i64),
    End(i64),
}

/// The byte of the file starting at cluster `first` at file offset
/// `pos`, when the chain reaches that far and the byte lies inside the
/// partition image.
pub open spec fn file_byte(fs: FatxFs, first: u32, pos: int) -> Option<u8> {
    let cl = pos / fs.num_bytes_per_cluster as int;
    match chain_at(fs, first, cl as nat) {
        None => None,
        Some(c) => {
            let off = fs.spec_cluster_rel_off(c as int) + (pos % (
            fs.num_bytes_per_cluster as int));
            if fs.spec_cluster_in_range(c as int) && off < fs.image@.len() {
                Some(fs.image@[off])
            } else {
                None
            }
        },
    }
}

/// An open file: a volume handle, the resolved entry, the seek position,
/// and the chain-walk cache.
pub struct File {
    pub handle: FatxFsHandle,
    pub dirent: DirectoryEntry,
    pub cur_cluster_relative: u32,
    pub cur_cluster_absolute: u32,
    pub seek_pos: u32,
}

impl File {
    /// The held volume is well-formed and the cache names the cluster the
    /// chain really reaches at its relative index.
    pub open spec fn wf(self) -> bool {
        &&& (*self.handle.fs).wf()
        &&& self.dirent.wf()
        &&& chain_at(
            *self.handle.fs,
            self.dirent.first_cluster,
            self.cur_cluster_relative as nat,
        ) == Some(self.cur_cluster_absolute)
    }

    /// Opens a reader over `dirent`, positioned at the start.
    pub(crate) fn new(handle: FatxFsHandle, dirent: DirectoryEntry) -> (r: File)
        requires
            (*handle.fs).wf(),
            dirent.wf(),
        ensures
            r.wf(),
            r.handle.fs == handle.fs,
            r.dirent == dirent,
            r.seek_pos == 0,
            r.cur_cluster_relative == 0,
            r.cur_cluster_absolute == dirent.first_cluster,
    {
        let first = dirent.first_cluster;
        File {
            handle,
            seek_pos: 0,
            cur_cluster_relative: 0,
            cur_cluster_absolute: first,
            dirent,
        }
    }

    /// Size in bytes of the open file.
    pub fn file_size(&self) -> (r: u32)
        ensures
            r == self.dirent.file_size,
    {
        self.dirent.file_size
    }

    /// Moves the seek position. A target before the start of the file is
    /// refused; a target past 2^32 - 1 wraps, as the position is held in
    /// 32 bits.
    pub fn seek(&mut self, pos: SeekFrom) -> (r: Result<u64, Error>)
        ensures
            final(self).handle.fs == old(self).handle.fs,
            final(self).dirent == old(self).dirent,
            final(self).cur_cluster_relative == old(self).cur_cluster_relative,
            final(self).cur_cluster_absolute == old(self).cur_cluster_absolute,
            match pos {
                SeekFrom::Start(offset) => r matches Ok(n) && final(self).seek_pos == offset
                    as u32 && n == final(self).seek_pos,
                SeekFrom::Current(offset) => {
                    let target = old(self).seek_pos + offset;
                    if target < 0 {
                        r == Err::<u64, Error>(Error::Io) && final(self).seek_pos == old(self).seek_pos
                    } else {
                        r matches Ok(n) && final(self).seek_pos == target as u32 && n == final(self).seek_pos
                    }
                },
                SeekFrom::End(offset) => {
                    let target = old(self).dirent.file_size + offset;
                    if target < 0 {
                        r == Err::<u64, Error>(Error::Io) && final(self).seek_pos == old(self).seek_pos
                    } else {
                        r matches Ok(n) && final(self).seek_pos == target as u32 && n == final(self).seek_pos
                    }
                },
            },
    {
        match pos {
            SeekFrom::Start(offset) => {
                self.seek_pos = offset as u32;
            },
            SeekFrom::Current(offset) => {
                if offset >= 0 {
                    let target: u64 = self.seek_pos as u64 + offset as u64;
                    self.seek_pos = target as u32;
                } else {
                    let back: u64 = ((-(offset + 1)) as u64) + 1;
                    if back > self.seek_pos as u64 {
                        return Err(Error::Io);
                    }
                    self.seek_pos = self.seek_pos - back as u32;
                }
            },
            SeekFrom::End(offset) => {
                let size = self.dirent.file_size;
                if offset >= 0 {
                    let target: u64 = size as u64 + offset as u64;
                    self.seek_pos = target as u32;
                } else {
                    let back: u64 = ((-(offset + 1)) as u64) + 1;
                    if back > size as u64 {
                        return Err(Error::Io);
                    }
                    self.seek_pos = size - back as u32;
                }
            },
        }
        Ok(self.seek_pos as u64)
    }

    /// Reads up to `max_len` bytes at the current seek position, stopping
    /// at end of file, and advances the position past what was read.
    ///
    /// The chain-walk cache is reused whenever the target cluster lies at
    /// or past it, so strictly increasing reads never re-walk the chain
    /// from the start; a backward read resets the cache to the first
    /// cluster.
    pub fn read(&mut self, max_len: usize) -> (r: Result<Vec<u8>, Error>)
        requires
            old(self).wf(),
        ensures
            final(self).wf(),
            final(self).handle.fs == old(self).handle.fs,
            final(self).dirent == old(self).dirent,
            r matches Ok(v) ==> {
                let size = old(self).dirent.file_size as int;
                let start = old(self).seek_pos as int;
                let remaining = if start <= size {
                    size - start
                } else {
                    0
                };
                &&& v@.len() == (if max_len <= remaining {
                    max_len as int
                } else {
                    remaining
                })
                &&& (forall|i: int|
                    0 <= i < v@.len() ==> file_byte(
                        *old(self).handle.fs,
                        old(self).dirent.first_cluster,
                        start + i,
                    ) == Some(v@[i]))
                &&& final(self).seek_pos == start + v@.len()
            },
            r matches Ok(v) ==> (v@.len() > 0 ==> final(self).cur_cluster_relative == (old(self).seek_pos + v@.len() - 1) / ((*old(self).handle.fs).num_bytes_per_cluster as int)),
            old(self).seek_pos / (*old(self).handle.fs).num_bytes_per_cluster as u32 >= old(self).cur_cluster_relative ==> final(self).cur_cluster_relative >= old(self).cur_cluster_relative,
            ({
                let size = old(self).dirent.file_size as int;
                let start = old(self).seek_pos as int;
                let remaining = if start <= size {
                    size - start
                } else {
                    0
                };
                let len = if max_len <= remaining {
                    max_len as int
                } else {
                    remaining
                };
                (forall|i: int|
                    0 <= i < len ==> (#[trigger] file_byte(
                        *old(self).handle.fs,
                        old(self).dirent.first_cluster,
                        start + i,
                    )) is Some) ==> r is Ok
            }),
    {
        let volume: &FatxFs = arc_volume_ref(&self.handle.fs);
        let file_size: u32 = self.dirent.file_size;
        let bpc: u64 = volume.num_bytes_per_cluster;
        let ghost fwd: bool = old(self).seek_pos / (*old(self).handle.fs).num_bytes_per_cluster
            as u32 >= old(self).cur_cluster_relative;
        let ghost remaining0: int = if old(self).seek_pos <= file_size {
            file_size - old(self).seek_pos
        } else {
            0
        };
        let ghost len0: int = if max_len <= remaining0 {
            max_len as int
        } else {
            remaining0
        };
        let ghost defined: bool = forall|i: int|
            0 <= i < len0 ==> (#[trigger] file_byte(
                *volume,
                old(self).dirent.first_cluster,
                old(self).seek_pos + i,
            )) is Some;
        let mut out: Vec<u8> = Vec::new();
        while out.len() < max_len && self.seek_pos < file_size
            invariant
                *volume == *old(self).handle.fs,
                volume.wf(),
                self.handle.fs == old(self).handle.fs,
                self.dirent == old(self).dirent,
                bpc == volume.num_bytes_per_cluster,
                file_size == self.dirent.file_size,
                fwd == (old(self).seek_pos / (*old(self).handle.fs).num_bytes_per_cluster as u32
                    >= old(self).cur_cluster_relative),
                remaining0 == (if old(self).seek_pos <= file_size {
                    file_size - old(self).seek_pos
                } else {
                    0
                }),
                len0 == (if max_len <= remaining0 {
                    max_len as int
                } else {
                    remaining0
                }),
                defined == (forall|i: int|
                    0 <= i < len0 ==> (#[trigger] file_byte(
                        *volume,
                        old(self).dirent.first_cluster,
                        old(self).seek_pos + i,
                    )) is Some),
                chain_at(*volume, self.dirent.first_cluster, self.cur_cluster_relative as nat)
                    == Some(self.cur_cluster_absolute),
                self.dirent.wf(),
                out@.len() <= max_len,
                out@.len() <= remaining0,
                self.seek_pos == old(self).seek_pos + out@.len(),
                forall|i: int|
                    0 <= i < out@.len() ==> file_byte(
                        *volume,
                        self.dirent.first_cluster,
                        old(self).seek_pos + i,
                    ) == Some(out@[i]),
                fwd ==> self.seek_pos as int / bpc as int >= self.cur_cluster_relative
                    && self.cur_cluster_relative >= old(self).cur_cluster_relative,
                out@.len() > 0 ==> self.cur_cluster_relative == (self.seek_pos - 1) as int
                    / bpc as int,
            decreases max_len - out@.len(),
        {
            let remaining_file: u32 = file_size - self.seek_pos;
            let tar_rel: u32 = (self.seek_pos as u64 / bpc) as u32;
            proof {
                lemma_div_le(self.seek_pos as int, bpc as int);
                if defined {
                    assert(out@.len() < len0);
                    assert(file_byte(
                        *volume,
                        self.dirent.first_cluster,
                        self.seek_pos as int,
                    ) is Some);
                    assert(chain_at(*volume, self.dirent.first_cluster, tar_rel as nat)
                        is Some);
                }
            }
            if tar_rel < self.cur_cluster_relative {
                self.cur_cluster_relative = 0;
                self.cur_cluster_absolute = self.dirent.first_cluster;
            }
            while self.cur_cluster_relative < tar_rel
                invariant
                    *volume == *old(self).handle.fs,
                    volume.wf(),
                    self.handle.fs == old(self).handle.fs,
                    self.dirent == old(self).dirent,
                    self.dirent.wf(),
                    bpc == volume.num_bytes_per_cluster,
                    file_size == self.dirent.file_size,
                    fwd == (old(self).seek_pos / (*old(self).handle.fs).num_bytes_per_cluster
                        as u32 >= old(self).cur_cluster_relative),
                    chain_at(
                        *volume,
                        self.dirent.first_cluster,
                        self.cur_cluster_relative as nat,
                    ) == Some(self.cur_cluster_absolute),
                    self.cur_cluster_relative <= tar_rel,
                    fwd ==> self.cur_cluster_relative >= old(self).cur_cluster_relative,
                    self.seek_pos == old(self).seek_pos + out@.len(),
                    remaining0 == (if old(self).seek_pos <= file_size {
                        file_size - old(self).seek_pos
                    } else {
                        0
                    }),
                    len0 == (if max_len <= remaining0 {
                        max_len as int
                    } else {
                        remaining0
                    }),
                    defined == (forall|i: int|
                        0 <= i < len0 ==> (#[trigger] file_byte(
                            *volume,
                            old(self).dirent.first_cluster,
                            old(self).seek_pos + i,
                        )) is Some),
                    defined ==> chain_at(*volume, self.dirent.first_cluster, tar_rel as nat)
                        is Some,
                decreases tar_rel - self.cur_cluster_relative,
            {
                let link = match volume.fat.entry(self.cur_cluster_absolute) {
                    Ok(l) => l,
                    Err(_) => {
                        proof {
                            if defined {
                                lemma_chain_at_prefix(*volume, self.dirent.first_cluster, (
                                self.cur_cluster_relative + 1) as nat, tar_rel as nat);
                                assert(false);
                            }
                        }
                        return Err(Error::InvalidClusterChain);
                    },
                };
                match link {
                    FatEntry::Data(next_cluster) => {
                        proof {
                            assert(chain_next(*volume, self.cur_cluster_absolute) == Some(
                                next_cluster,
                            ));
                        }
                        self.cur_cluster_absolute = next_cluster;
                        self.cur_cluster_relative = self.cur_cluster_relative + 1;
                    },
                    _ => {
                        proof {
                            if defined {
                                lemma_chain_at_prefix(*volume, self.dirent.first_cluster, (
                                self.cur_cluster_relative + 1) as nat, tar_rel as nat);
                                assert(false);
                            }
                        }
                        return Err(Error::InvalidClusterChain);
                    },
                }
            }
            let byte_off: u64 = self.seek_pos as u64 % bpc;
            let rem_cluster: u64 = bpc - byte_off;
            let rem_dest: u64 = (max_len - out.len()) as u64;
            let mut n64: u64 = rem_dest;
            if rem_cluster < n64 {
                n64 = rem_cluster;
            }
            if (remaining_file as u64) < n64 {
                n64 = remaining_file as u64;
            }
            let n: usize = n64 as usize;
            let rel_off: u64 = match volume.cluster_rel_offset(self.cur_cluster_absolute) {
                Ok(o) => o,
                Err(e) => {
                    proof {
                        if defined {
                            assert(out@.len() < len0);
                            assert(file_byte(
                                *volume,
                                self.dirent.first_cluster,
                                self.seek_pos as int,
                            ) is Some);
                            assert(false);
                        }
                    }
                    return Err(e);
                },
            };
            let mut chunk = match volume.read_at(rel_off + byte_off, n) {
                Ok(c) => c,
                Err(e) => {
                    proof {
                        if defined {
                            assert(out@.len() + n <= len0);
                            let i0 = out@.len() + n - 1;
                            assert(0 <= i0 < len0);
                            assert(file_byte(
                                *volume,
                                old(self).dirent.first_cluster,
                                old(self).seek_pos + i0,
                            ) is Some);
                            assert(self.seek_pos + n - 1 == old(self).seek_pos + i0);
                            assert(file_byte(
                                *volume,
                                self.dirent.first_cluster,
                                self.seek_pos + n - 1,
                            ) is Some);
                            lemma_fundamental_div_mod(self.seek_pos as int, bpc as int);
                            lemma_fundamental_div_mod_converse(
                                self.seek_pos + n - 1,
                                bpc as int,
                                tar_rel as int,
                                byte_off + n - 1,
                            );
                            assert(false);
                        }
                    }
                    return Err(e);
                },
            };
            proof {
                lemma_fundamental_div_mod(self.seek_pos as int, bpc as int);
                assert forall|i: int| 0 <= i < n implies file_byte(
                    *volume,
                    self.dirent.first_cluster,
                    self.seek_pos + i,
                ) == Some(chunk@[i]) by {
                    lemma_fundamental_div_mod_converse(
                        self.seek_pos + i,
                        bpc as int,
                        tar_rel as int,
                        byte_off + i,
                    );
                }
                lemma_fundamental_div_mod_converse(
                    self.seek_pos + n - 1,
                    bpc as int,
                    tar_rel as int,
                    byte_off + n - 1,
                );
            }
            let ghost out_before = out@;
            let ghost chunk0 = chunk@;
            let ghost seek_before = self.seek_pos;
            out.append(&mut chunk);
            self.seek_pos = self.seek_pos + n as u32;
            proof {
                assert(out@ == out_before + chunk0);
                assert forall|i: int|
                    0 <= i < out@.len() implies file_byte(
                        *volume,
                        self.dirent.first_cluster,
                        old(self).seek_pos + i,
                    ) == Some(out@[i]) by {
                    if i < out_before.len() {
                        assert(out@[i] == out_before[i]);
                    } else {
                        assert(out@[i] == chunk0[i - out_before.len()]);
                        assert(old(self).seek_pos + i == seek_before + (i - out_before.len()));
                    }
                }
                assert((self.seek_pos as int) / (bpc as int) >= tar_rel as int) by (nonlinear_arith)
                    requires
                        self.seek_pos as int >= tar_rel as int * bpc as int,
                        bpc as int >= 1,
                ;
            }
        }
        Ok(out)
    }
}

/// Law: what a read returns is a function of the volume, the file's
/// first cluster and the byte range alone — reading a range backward
/// after a forward pass, or from a freshly opened reader, yields the
/// same bytes.
pub proof fn lemma_read_deterministic(
    fs: FatxFs,
    first: u32,
    start: int,
    v1: Seq<u8>,
    v2: Seq<u8>,
)
    requires
        v1.len() == v2.len(),
        forall|i: int| 0 <= i < v1.len() ==> file_byte(fs, first, start + i) == Some(#[trigger] v1[i]),
        forall|i: int| 0 <= i < v2.len() ==> file_byte(fs, first, start + i) == Some(#[trigger] v2[i]),
    ensures
        v1 == v2,
{
    assert(v1 =~= v2);
}

proof fn lemma_chain_at_prefix(fs: FatxFs, first: u32, m: nat, n: nat)
    requires
        m <= n,
        chain_at(fs, first, n) is Some,
    ensures
        chain_at(fs, first, m) is Some,
        m < n ==> chain_next(fs, chain_at(fs, first, m).unwrap()) == chain_at(
            fs,
            first,
            (m + 1) as nat,
        ),
    decreases n,
{
    if m < n {
        assert(chain_at(fs, first, (n - 1) as nat) is Some);
        lemma_chain_at_prefix(fs, first, m, (n - 1) as nat);
        if m < n - 1 {
        } else {
            assert(chain_at(fs, first, n) == chain_next(fs, chain_at(fs, first, (n
                - 1) as nat).unwrap()));
        }
    }
}

proof fn lemma_div_le(x: int, d: int)
    requires
        x >= 0,
        d >= 1,
    ensures
        0 <= x / d <= x,
{
    assert(0 <= x / d <= x) by (nonlinear_arith)
        requires
            x >= 0,
            d >= 1,
    ;
}

} // verus!
