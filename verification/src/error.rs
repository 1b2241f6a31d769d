//! Error kinds surfaced by the driver.

use vstd::prelude::*;

verus! {

/// Every fallible operation of the driver returns one of these kinds.
///
/// `Io` stands for a read that fell outside the partition image, where the
/// underlying device would have failed; the driver wraps no device error
/// payload because all its reads are served from the in-memory image.
#[derive(Debug, Clone, Copy, PartialEq, Eq, Structural)]
pub enum Error {
    Io,
    InvalidFilesystemSignature,
    InvalidPartitionOffset,
    InvalidPartitionSize,
    InvalidSectorsPerCluster,
    InvalidRootCluster,
    InvalidClusterNumber,
    InvalidClusterChain,
    NotFound,
    NotADirectory,
    IsADirectory,
}

/// The description `describe` returns for each error kind.
pub open spec fn spec_describe(e: Error) -> Seq<char> {
    match e {
        Error::Io => "io error"@,
        Error::InvalidFilesystemSignature => {
            "the filesystem did not have the expected signature"@
        },
        Error::InvalidPartitionOffset => "the partition offset is invalid"@,
        Error::InvalidPartitionSize => "the partition size is invalid"@,
        Error::InvalidSectorsPerCluster => "the number of sectors per cluster is invalid"@,
        Error::InvalidRootCluster => "the root cluster is invalid"@,
        Error::InvalidClusterNumber => "the cluster number is invalid"@,
        Error::InvalidClusterChain => "the cluster chain is corrupt"@,
        Error::NotFound => "the desired item could not be found"@,
        Error::NotADirectory => "one path component is not a directory"@,
        Error::IsADirectory => "the path unexpectedly identifies a directory"@,
    }
}

impl Error {
    /// A short human-readable description of the error kind.
    pub fn describe(&self) -> (r: &'static str)
        ensures
            r@ == spec_describe(*self),
    {
        match self {
            Error::Io => "io error",
            Error::InvalidFilesystemSignature => {
                "the filesystem did not have the expected signature"
            },
            Error::InvalidPartitionOffset => "the partition offset is invalid",
            Error::InvalidPartitionSize => "the partition size is invalid",
            Error::InvalidSectorsPerCluster => {
                "the number of sectors per cluster is invalid"
            },
            Error::InvalidRootCluster => "the root cluster is invalid",
            Error::InvalidClusterNumber => "the cluster number is invalid",
            Error::InvalidClusterChain => "the cluster chain is corrupt",
            Error::NotFound => "the desired item could not be found",
            Error::NotADirectory => "one path component is not a directory",
            Error::IsADirectory => "the path unexpectedly identifies a directory",
        }
    }
}

} // verus!
