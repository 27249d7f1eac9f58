use vstd::math::min;
use vstd::prelude::*;

use crate::bpb::{le16, ClusterNumber, SECTOR_SIZE};
use crate::error::FatError;
use crate::fs::{fat_entry_offset, fat_entry_sector, link_target, Fat16};
use crate::node::DirEntry;

verus! {

/// A file's read cursor: the current cluster (none once the chain has
/// ended), the sector within that cluster, and the byte within that sector.
#[derive(Debug, Clone, Copy, PartialEq, Eq, Structural)]
pub struct Seek {
    pub cluster: Option<ClusterNumber>,
    pub sector: u64,
    pub offset: usize,
}

/// The cursor once a fully read sector has been left behind for the next
/// sector of the same cluster; at the last sector of a cluster it stays put
/// until the link to the next cluster has been followed.
pub open spec fn rolled(s: Seek, sectors_per_cluster: u8) -> Seek {
    if s.offset == SECTOR_SIZE && s.sector + 1 < sectors_per_cluster {
        Seek { cluster: s.cluster, sector: (s.sector + 1) as u64, offset: 0 }
    } else {
        s
    }
}

/// What a read needs next.
#[derive(Debug, Clone, Copy, PartialEq, Eq, Structural)]
pub enum ReadStep {
    /// The bytes of this data sector: hand them to `File::copy_from`.
    Data { sector: u64 },
    /// The FAT sector that links the current cluster to the next one: hand
    /// it to `File::follow_link`.
    Link { fat_sector: u64 },
    /// The file has no more bytes.
    End,
}

/// An open file: a forward-only cursor over its cluster chain, and how many
/// bytes of the file are still ahead of it.
pub struct File {
    pub fs: Fat16,
    pub dirent: DirEntry,
    pub seek: Seek,
    pub remaining: u32,
    /// Every byte handed out since the file was opened, in order.
    pub delivered: Ghost<Seq<u8>>,
}

impl File {
    /// The cursor stays inside the geometry: the offset in `0..=512`, the
    /// sector in `0..sectors_per_cluster`.
    pub open spec fn wf(&self) -> bool {
        &&& self.fs.wf()
        &&& self.seek.offset <= SECTOR_SIZE
        &&& self.seek.sector < self.fs.bpb.sectors_per_cluster
        &&& self.delivered@.len() + self.remaining == self.dirent.spec_dirent().size
    }

    /// A file positioned at the start of the entry's first cluster.
    pub fn new(fs: Fat16, dirent: DirEntry) -> (r: File)
        ensures
            r.fs == fs,
            r.dirent == dirent,
            r.seek == (Seek {
                cluster: Some(ClusterNumber(dirent.spec_dirent().spec_first_cluster() as u32)),
                sector: 0,
                offset: 0,
            }),
            r.remaining == dirent.spec_dirent().size,
            r.delivered@ == Seq::<u8>::empty(),
            fs.wf() ==> r.wf(),
    {
        let cluster = dirent.dirent().first_cluster();
        let remaining = dirent.dirent().size;
        File {
            fs,
            dirent,
            seek: Seek { cluster: Some(cluster), sector: 0, offset: 0 },
            remaining,
            delivered: Ghost(Seq::empty()),
        }
    }

    /// Leaves a fully read sector behind and says what the read needs next:
    /// nothing when the file's bytes are all read or its chain has ended, the
    /// FAT sector with the next link at the end of a cluster, else the data
    /// sector under the cursor. A cursor on a reserved cluster (0 or 1) or
    /// on a cluster the FAT does not reach is corruption.
    pub fn next_step(&mut self) -> (r: Result<ReadStep, FatError>)
        requires
            old(self).wf(),
        ensures
            final(self).wf(),
            final(self).fs == old(self).fs,
            final(self).dirent == old(self).dirent,
            final(self).remaining == old(self).remaining,
            final(self).delivered == old(self).delivered,
            old(self).remaining == 0 ==> r == Ok::<ReadStep, FatError>(ReadStep::End)
                && final(self).seek == old(self).seek,
            old(self).remaining > 0 ==> final(self).seek == rolled(
                old(self).seek,
                old(self).fs.bpb.sectors_per_cluster,
            ),
            old(self).remaining > 0 ==> ({
                let bpb = old(self).fs.bpb;
                let s = rolled(old(self).seek, bpb.sectors_per_cluster);
                match s.cluster {
                    None => r == Ok::<ReadStep, FatError>(ReadStep::End),
                    Some(c) => if c.0 < 2 {
                        r == Err::<ReadStep, FatError>(FatError::CorruptFilesystem)
                    } else if s.offset == SECTOR_SIZE {
                        if c.0 >= bpb.spec_max_cluster() {
                            r == Err::<ReadStep, FatError>(FatError::CorruptFilesystem)
                        } else {
                            r == Ok::<ReadStep, FatError>(
                                ReadStep::Link {
                                    fat_sector: fat_entry_sector(bpb, c.0 as int) as u64,
                                },
                            )
                        }
                    } else {
                        r == Ok::<ReadStep, FatError>(
                            ReadStep::Data {
                                sector: (bpb.spec_first_cluster_sector(c.0 as int)
                                    + s.sector) as u64,
                            },
                        )
                    },
                }
            }),
    {
        if self.remaining == 0 {
            return Ok(ReadStep::End);
        }
        if self.seek.offset == SECTOR_SIZE && self.seek.sector + 1 < self.fs.bpb.sectors_per_cluster() {
            self.seek.offset = 0;
            self.seek.sector = self.seek.sector + 1;
        }
        let cluster = match self.seek.cluster {
            None => return Ok(ReadStep::End),
            Some(c) => c,
        };
        if cluster.0 < 2 {
            return Err(FatError::CorruptFilesystem);
        }
        if self.seek.offset == SECTOR_SIZE {
            match self.fs.fat_entry_location(cluster) {
                Ok((fat_sector, _)) => Ok(ReadStep::Link { fat_sector }),
                Err(e) => Err(e),
            }
        } else {
            let first = self.fs.bpb.first_cluster_sector(cluster);
            Ok(ReadStep::Data { sector: first + self.seek.sector })
        }
    }

    /// Moves the cursor from the end of its cluster's last sector to the
    /// start of the next cluster, given the FAT sector that `next_step` asked
    /// for. At the end of the chain the cursor is left without a cluster; on
    /// corruption it does not move.
    pub fn follow_link(&mut self, fat_sector: &[u8]) -> (r: Result<(), FatError>)
        requires
            old(self).wf(),
            fat_sector@.len() == SECTOR_SIZE,
            old(self).seek.cluster is Some,
            old(self).seek.offset == SECTOR_SIZE,
            old(self).seek.sector + 1 == old(self).fs.bpb.sectors_per_cluster,
        ensures
            final(self).wf(),
            final(self).fs == old(self).fs,
            final(self).dirent == old(self).dirent,
            final(self).remaining == old(self).remaining,
            final(self).delivered == old(self).delivered,
            ({
                let c = old(self).seek.cluster->Some_0;
                if c.0 >= old(self).fs.bpb.spec_max_cluster() {
                    r == Err::<(), FatError>(FatError::CorruptFilesystem) && final(self).seek
                        == old(self).seek
                } else {
                    match link_target(le16(fat_sector@, fat_entry_offset(c.0 as int))) {
                        Ok(next) => r is Ok && final(self).seek == (Seek {
                            cluster: next,
                            sector: 0,
                            offset: 0,
                        }),
                        Err(e) => r == Err::<(), FatError>(e) && final(self).seek == old(
                            self,
                        ).seek,
                    }
                }
            }),
    {
        let cluster = match self.seek.cluster {
            Some(c) => c,
            None => return Ok(()),
        };
        match self.fs.next_cluster(cluster, fat_sector) {
            Ok(next) => {
                self.seek = Seek { cluster: next, sector: 0, offset: 0 };
                Ok(())
            },
            Err(e) => Err(e),
        }
    }

    /// Copies from the data sector that `next_step` asked for into `buf`:
    /// as many bytes as the sector has left after the cursor, at most
    /// `want`, and no more than the file has left. Returns how many.
    pub fn copy_from(&mut self, data: &[u8], buf: &mut Vec<u8>, want: usize) -> (r: usize)
        requires
            old(self).wf(),
            data@.len() == SECTOR_SIZE,
            old(self).seek.offset < SECTOR_SIZE,
        ensures
            final(self).wf(),
            final(self).fs == old(self).fs,
            final(self).dirent == old(self).dirent,
            r as int == min(
                min(SECTOR_SIZE - old(self).seek.offset, want as int),
                old(self).remaining as int,
            ),
            final(buf)@ == old(buf)@ + data@.subrange(
                old(self).seek.offset as int,
                old(self).seek.offset + r,
            ),
            final(self).seek == (Seek { offset: (old(self).seek.offset + r) as usize, ..old(self).seek }),
            final(self).remaining == old(self).remaining - r,
            final(self).delivered@ == old(self).delivered@ + data@.subrange(
                old(self).seek.offset as int,
                old(self).seek.offset + r,
            ),
    {
        let mut count = SECTOR_SIZE - self.seek.offset;
        if want < count {
            count = want;
        }
        if (self.remaining as usize) < count {
            count = self.remaining as usize;
        }
        let start = self.seek.offset;
        let ghost before = buf@;
        let mut i: usize = 0;
        while i < count
            invariant
                i <= count,
                start + count <= SECTOR_SIZE,
                data@.len() == SECTOR_SIZE,
                buf@ == before + data@.subrange(start as int, start + i),
            decreases count - i,
        {
            buf.push(data[start + i]);
            i = i + 1;
            assert(buf@ =~= before + data@.subrange(start as int, start + i));
        }
        self.seek.offset = start + count;
        self.remaining = self.remaining - count as u32;
        self.delivered = Ghost(self.delivered@ + data@.subrange(start as int, start + count));
        count
    }
}

/// A file never hands out more bytes than its size, and once a read has
/// reached its end through the size (no bytes left), exactly the file's size
/// has been handed out since it was opened.
pub proof fn lemma_read_bounded_by_size(f: &File)
    requires
        f.wf(),
    ensures
        f.delivered@.len() <= f.dirent.spec_dirent().size,
        f.remaining == 0 ==> f.delivered@.len() == f.dirent.spec_dirent().size,
{
}

} // verus!
