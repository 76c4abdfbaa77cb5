//! Reading and writing the partition table of an ESP flash device.
//!
//! A table is a region of flash that holds 32-byte records: partition
//! entries, an optional MD5 record over the entries before it, and erased
//! flash after that. The codec turns one record into a typed value and back;
//! the reader and writer states walk a region one record at a time.

pub mod digest;
pub mod entry;
pub mod error;
pub mod laws;
pub mod name;
pub mod sector;
pub mod table;
pub mod types;
pub mod wire;

pub use entry::{Md5Data, PartitionBuffer, PartitionEntry, PartitionMd5};
pub use error::PartitionError;
pub use table::{PartitionReaderState, PartitionTable, PartitionWriterState};
pub use types::{AppPartitionType, DataPartitionType, PartitionType};
