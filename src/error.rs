use vstd::prelude::*;

verus! {

/// A node could not be allocated because the node budget is used up.
#[derive(Debug, Clone, Copy, PartialEq, Eq, Structural)]
pub struct MemoryExhausted;

/// Errors while mounting a filesystem.
#[derive(Debug, Clone, Copy, PartialEq, Eq, Structural)]
pub enum OpenError {
    MemoryExhausted,
    Io,
}

/// Errors of the filesystem operations.
#[derive(Debug, Clone, Copy, PartialEq, Eq, Structural)]
pub enum FatError {
    /// A node could not be allocated.
    MemoryExhausted,
    /// The device failed to read a sector.
    Io,
    /// A name did not resolve to an entry.
    NotFound,
    /// The on-disk structures are inconsistent (a cluster out of the FAT's
    /// range, a link to a bad cluster, a reserved cluster number).
    CorruptFilesystem,
    /// The superblock describes a geometry this driver does not handle.
    UnsupportedFilesystem,
}

impl OpenError {
    /// The filesystem error that an open error stands for.
    pub fn to_fat_error(self) -> (r: FatError)
        ensures
            r == (match self {
                OpenError::MemoryExhausted => FatError::MemoryExhausted,
                OpenError::Io => FatError::Io,
            }),
    {
        match self {
            OpenError::MemoryExhausted => FatError::MemoryExhausted,
            OpenError::Io => FatError::Io,
        }
    }
}

impl MemoryExhausted {
    /// The filesystem error for an exhausted allocation.
    pub fn to_fat_error(self) -> (r: FatError)
        ensures
            r == FatError::MemoryExhausted,
    {
        FatError::MemoryExhausted
    }
}

} // verus!
