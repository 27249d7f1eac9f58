//! Read-only FAT16 driver core: superblock decoding, cluster-chain
//! traversal, directory enumeration and sequential file reads.
//!
//! The library never touches a device itself. Every operation that needs a
//! sector says which one it needs and takes the sector's bytes once they have
//! been read, so the decisions below are verified for every disk content.

mod error;
mod bpb;
mod dirent;
mod fs;
mod scan;
mod node;
mod file;
mod namebuf;
mod mem;

pub use error::{FatError, MemoryExhausted, OpenError};
pub use bpb::{lemma_root_dir_follows_fats, BiosParameterBlock, ClusterNumber, DIR_ENTRY_SIZE, SECTOR_SIZE};
pub use dirent::{Attributes, RawDirEntry, DELETED_MARKER, END_MARKER, DIRECTORY, READ_ONLY, HIDDEN, SYSTEM, VOLUME_ID, ARCHIVE, ALL_ATTRIBUTES};
pub use fs::{lemma_chain_sectors_in_order, Fat16, chain_sectors, link_target, BAD_CLUSTER, END_OF_CHAIN};
pub use scan::{lemma_listing_names, lemma_nothing_after_end, lemma_scan_stops_at_end, read_sector_entries, live_from, ends_from, scan_positions, DirScan, ENTRIES_PER_SECTOR};
pub use node::{NodeBudget, DirEntryShared, DirEntry, Open, DirectoryKind, Directory, DirectorySectors};
pub use file::{lemma_read_bounded_by_size, File, Seek, ReadStep, rolled};
pub use namebuf::{NameBuf, name_bytes};
pub use mem::zero;
