//! Read-only driver for the FATX on-disk filesystem format: superblock
//! validation, allocation-table lookup, directory-entry decoding, path
//! resolution and cluster-chain file reading over an in-memory partition
//! image.

pub mod bytes;
pub mod datetime;
pub mod dir;
pub mod error;
pub mod fat;
pub mod file;
pub mod fs;
pub mod partition;
pub mod path;

pub use datetime::DateTime;
pub use dir::DirectoryEntry;
pub use error::Error;
pub use file::File;
pub use fs::{FatxFs, FatxFsConfig, FatxFsHandle};
pub use partition::PartitionMapEntry;
pub use path::normalize_virtual_path;
