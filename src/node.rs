use vstd::prelude::*;

use crate::bpb::ClusterNumber;
use crate::dirent::RawDirEntry;
use crate::error::{FatError, MemoryExhausted};
use crate::file::{File, Seek};
use crate::fs::Fat16;
use crate::namebuf::{name_as_slice, name_bytes, NameBuf};

verus! {

/// A quota on live filesystem nodes: how many more directory entry handles
/// may exist at once. Creating a handle takes one node and creation fails
/// with `MemoryExhausted` instead of aborting when none is left; whoever
/// drops the last holder of a handle gives its node back with `release`.
#[derive(Debug)]
pub struct NodeBudget {
    pub remaining: u64,
}

impl NodeBudget {
    pub open spec fn spec_remaining(&self) -> nat {
        self.remaining as nat
    }

    pub fn new(nodes: u64) -> (r: NodeBudget)
        ensures
            r.spec_remaining() == nodes,
    {
        NodeBudget { remaining: nodes }
    }

    pub fn remaining(&self) -> (r: u64)
        ensures
            r == self.spec_remaining(),
    {
        self.remaining
    }

    /// Takes one node from the budget, or fails when it is used up.
    pub fn take(&mut self) -> (r: Result<(), MemoryExhausted>)
        ensures
            old(self).spec_remaining() > 0 ==> r is Ok && final(self).spec_remaining()
                == old(self).spec_remaining() - 1,
            old(self).spec_remaining() == 0 ==> r is Err && final(self).spec_remaining() == 0,
    {
        if self.remaining == 0 {
            Err(MemoryExhausted)
        } else {
            self.remaining = self.remaining - 1;
            Ok(())
        }
    }

    /// Gives back the node of a handle that is no longer held.
    pub fn release(&mut self)
        requires
            old(self).spec_remaining() < u64::MAX,
        ensures
            final(self).spec_remaining() == old(self).spec_remaining() + 1,
    {
        self.remaining = self.remaining + 1;
    }
}

/// What a directory entry handle holds: its filesystem, the identity of the
/// directories that enclose it, and its record. The parent is kept as that
/// identity (the first clusters of the enclosing subdirectories from the
/// root down, the root itself left out), a stable key for locking entries,
/// not as a handle: a parent's own record is not reachable from a child.
#[derive(Debug)]
pub struct DirEntryShared {
    pub fs: Fat16,
    pub parents: Vec<ClusterNumber>,
    pub dirent: RawDirEntry,
}

/// A handle on one entry of a directory.
#[derive(Debug)]
pub struct DirEntry {
    pub shared: DirEntryShared,
}

/// Copies a path of cluster numbers.
fn copy_path(p: &Vec<ClusterNumber>) -> (r: Vec<ClusterNumber>)
    ensures
        r@ == p@,
{
    let mut r: Vec<ClusterNumber> = Vec::new();
    let mut i: usize = 0;
    while i < p.len()
        invariant
            i <= p@.len(),
            r@ == p@.take(i as int),
        decreases p@.len() - i,
    {
        r.push(p[i]);
        i = i + 1;
        assert(r@ =~= p@.take(i as int));
    }
    assert(p@.take(p@.len() as int) =~= p@);
    r
}

impl DirEntry {
    pub open spec fn spec_fs(&self) -> Fat16 {
        self.shared.fs
    }

    pub open spec fn spec_parents(&self) -> Seq<ClusterNumber> {
        self.shared.parents@
    }

    pub open spec fn spec_dirent(&self) -> RawDirEntry {
        self.shared.dirent
    }

    /// The path of the entries found in this directory entry, taken as a
    /// directory.
    pub open spec fn spec_child_path(&self) -> Seq<ClusterNumber> {
        self.spec_parents().push(ClusterNumber(self.spec_dirent().spec_first_cluster() as u32))
    }

    /// Whether two handles stand for the same entry.
    pub open spec fn same(&self, o: &DirEntry) -> bool {
        self.spec_fs() == o.spec_fs() && self.spec_parents() == o.spec_parents()
            && self.spec_dirent() == o.spec_dirent()
    }

    /// A handle on `dirent`, found in the directory `parent` (none for the
    /// root). It takes one node of `budget`.
    pub fn new(
        fs: Fat16,
        parent: Option<&DirEntry>,
        dirent: RawDirEntry,
        budget: &mut NodeBudget,
    ) -> (r: Result<DirEntry, MemoryExhausted>)
        ensures
            old(budget).spec_remaining() > 0 <==> r is Ok,
            old(budget).spec_remaining() > 0 ==> final(budget).spec_remaining() == old(
                budget,
            ).spec_remaining() - 1,
            old(budget).spec_remaining() == 0 ==> final(budget).spec_remaining() == 0,
            r matches Ok(e) ==> e.spec_fs() == fs && e.spec_dirent() == dirent && e.spec_parents()
                == (match parent {
                None => Seq::empty(),
                Some(p) => p.spec_child_path(),
            }),
    {
        match budget.take() {
            Err(e) => Err(e),
            Ok(()) => {
                let parents = match parent {
                    None => Vec::new(),
                    Some(p) => {
                        let mut path = copy_path(&p.shared.parents);
                        path.push(p.shared.dirent.first_cluster());
                        path
                    },
                };
                Ok(DirEntry { shared: DirEntryShared { fs, parents, dirent } })
            },
        }
    }

    /// Another handle on the same entry.
    pub fn share(&self) -> (r: DirEntry)
        ensures
            r.same(self),
    {
        DirEntry {
            shared: DirEntryShared {
                fs: self.shared.fs,
                parents: copy_path(&self.shared.parents),
                dirent: self.shared.dirent,
            },
        }
    }

    pub fn dirent(&self) -> (r: &RawDirEntry)
        ensures
            *r == self.spec_dirent(),
    {
        &self.shared.dirent
    }

    /// The display name of the entry (see `RawDirEntry::filename`).
    pub fn name(&self) -> (r: NameBuf)
        ensures
            name_bytes(r) == self.spec_dirent().spec_filename(),
    {
        self.dirent().filename()
    }

    /// Whether the entry is a directory.
    pub fn is_dir(&self) -> (r: bool)
        ensures
            r == self.spec_dirent().spec_is_dir(),
    {
        self.dirent().attributes().contains(crate::dirent::DIRECTORY)
    }

    /// Opens the entry: a directory entry as a `Directory` anchored at it,
    /// any other entry as a `File` positioned at the start of its first
    /// cluster.
    pub fn open(&self) -> (r: Result<Open, FatError>)
        ensures
            self.spec_dirent().spec_is_dir() ==> (r matches Ok(Open::Dir(d)) && d.fs
                == self.spec_fs() && (d.kind matches DirectoryKind::Sub(e) && e.same(self))),
            !self.spec_dirent().spec_is_dir() ==> (r matches Ok(Open::File(f)) && f.fs
                == self.spec_fs() && f.dirent.same(self) && f.seek == Seek {
                cluster: Some(ClusterNumber(self.spec_dirent().spec_first_cluster() as u32)),
                sector: 0,
                offset: 0,
            } && f.remaining == self.spec_dirent().size && f.delivered@ == Seq::<u8>::empty()),
    {
        let fs = self.shared.fs;
        if self.is_dir() {
            Ok(Open::Dir(Directory { fs, kind: DirectoryKind::Sub(self.share()) }))
        } else {
            Ok(Open::File(File::new(fs, self.share())))
        }
    }
}

/// What opening an entry gives.
pub enum Open {
    File(File),
    Dir(Directory),
}

/// Where a directory's records lie.
#[derive(Debug)]
pub enum DirectoryKind {
    /// The fixed root region after the FATs.
    Root,
    /// The cluster chain of a subdirectory entry.
    Sub(DirEntry),
}

/// A directory of the filesystem.
#[derive(Debug)]
pub struct Directory {
    pub fs: Fat16,
    pub kind: DirectoryKind,
}

/// The sectors that hold a directory's records.
#[derive(Debug, Clone, Copy, PartialEq, Eq, Structural)]
pub enum DirectorySectors {
    /// The sectors `first .. first + count`, in order.
    Fixed { first: u64, count: u64 },
    /// The sectors of the cluster chain that starts at `start`, in order
    /// (see `Fat16::sector_chain`).
    Chain { start: ClusterNumber },
}

/// Whether two byte strings are equal.
fn bytes_equal(a: &[u8], b: &[u8]) -> (r: bool)
    ensures
        r == (a@ == b@),
{
    if a.len() != b.len() {
        return false;
    }
    let mut i: usize = 0;
    while i < a.len()
        invariant
            a@.len() == b@.len(),
            i <= a@.len(),
            forall|j: int| 0 <= j < i ==> a@[j] == b@[j],
        decreases a@.len() - i,
    {
        if a[i] != b[i] {
            return false;
        }
        i = i + 1;
    }
    assert(a@ =~= b@);
    true
}

impl Fat16 {
    /// The root directory.
    pub fn root(&self) -> (r: Directory)
        ensures
            r.fs == *self,
            r.kind is Root,
    {
        Directory { fs: *self, kind: DirectoryKind::Root }
    }
}

impl Directory {
    /// The directory entry that this directory's entries have as parent.
    pub open spec fn spec_parent(&self) -> Option<&DirEntry> {
        match &self.kind {
            DirectoryKind::Root => None,
            DirectoryKind::Sub(e) => Some(e),
        }
    }

    /// The path that this directory's entries carry.
    pub open spec fn spec_entry_path(&self) -> Seq<ClusterNumber> {
        match &self.kind {
            DirectoryKind::Root => Seq::empty(),
            DirectoryKind::Sub(e) => e.spec_child_path(),
        }
    }

    /// Where the directory's records lie: the root's fixed region, or the
    /// cluster chain of the subdirectory's first cluster.
    pub fn directory_sectors(&self) -> (r: DirectorySectors)
        ensures
            self.kind is Root ==> r == (DirectorySectors::Fixed {
                first: self.fs.bpb.spec_first_root_dir_sector() as u64,
                count: self.fs.bpb.spec_root_dir_sector_count() as u64,
            }),
            self.kind matches DirectoryKind::Sub(e) ==> r == (DirectorySectors::Chain {
                start: ClusterNumber(e.spec_dirent().spec_first_cluster() as u32),
            }),
    {
        match &self.kind {
            DirectoryKind::Root => DirectorySectors::Fixed {
                first: self.fs.bpb.first_root_dir_sector(),
                count: self.fs.bpb.root_dir_sector_count(),
            },
            DirectoryKind::Sub(e) => DirectorySectors::Chain { start: e.dirent().first_cluster() },
        }
    }

    /// Handles on the records read from this directory, in order, each with
    /// this directory's entry as parent. Each takes one node of `budget`;
    /// when the budget runs out the whole call fails.
    pub fn entries(&self, records: &Vec<RawDirEntry>, budget: &mut NodeBudget) -> (r: Result<
        Vec<DirEntry>,
        FatError,
    >)
        ensures
            old(budget).spec_remaining() >= records@.len() <==> r is Ok,
            r is Ok ==> final(budget).spec_remaining() == old(budget).spec_remaining()
                - records@.len(),
            r is Err ==> r == Err::<Vec<DirEntry>, FatError>(FatError::MemoryExhausted)
                && final(budget).spec_remaining() == 0,
            r matches Ok(v) ==> v@.len() == records@.len() && forall|i: int|
                0 <= i < v@.len() ==> (#[trigger] v@[i]).spec_dirent() == records@[i]
                    && v@[i].spec_fs() == self.fs && v@[i].spec_parents()
                    == self.spec_entry_path(),
    {
        let mut out: Vec<DirEntry> = Vec::new();
        let mut i: usize = 0;
        while i < records.len()
            invariant
                i <= records@.len(),
                out@.len() == i,
                budget.spec_remaining() + i == old(budget).spec_remaining(),
                forall|k: int|
                    0 <= k < i ==> (#[trigger] out@[k]).spec_dirent() == records@[k]
                        && out@[k].spec_fs() == self.fs && out@[k].spec_parents()
                        == self.spec_entry_path(),
            decreases records@.len() - i,
        {
            let parent = match &self.kind {
                DirectoryKind::Root => None,
                DirectoryKind::Sub(e) => Some(e),
            };
            match DirEntry::new(self.fs, parent, records[i], budget) {
                Ok(e) => out.push(e),
                Err(m) => return Err(m.to_fat_error()),
            }
            i = i + 1;
        }
        Ok(out)
    }

    /// The first of `entries` whose display name is `name`; `NotFound` when
    /// none is.
    pub fn entry(&self, name: &[u8], entries: &Vec<DirEntry>) -> (r: Result<DirEntry, FatError>)
        ensures
            (exists|i: int|
                0 <= i < entries@.len() && (#[trigger] entries@[i]).spec_dirent().spec_filename()
                    == name@) <==> r is Ok,
            r is Err ==> r == Err::<DirEntry, FatError>(FatError::NotFound),
            r matches Ok(e) ==> exists|i: int|
                0 <= i < entries@.len() && e.same(&entries@[i])
                    && entries@[i].spec_dirent().spec_filename() == name@ && forall|k: int|
                    0 <= k < i ==> (#[trigger] entries@[k]).spec_dirent().spec_filename()
                        != name@,
    {
        let mut i: usize = 0;
        while i < entries.len()
            invariant
                i <= entries@.len(),
                forall|k: int|
                    0 <= k < i ==> (#[trigger] entries@[k]).spec_dirent().spec_filename()
                        != name@,
            decreases entries@.len() - i,
        {
            let entry_name = entries[i].name();
            if bytes_equal(name_as_slice(&entry_name), name) {
                return Ok(entries[i].share());
            }
            i = i + 1;
        }
        Err(FatError::NotFound)
    }
}

} // verus!
