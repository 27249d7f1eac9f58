use vstd::prelude::*;

use crate::bpb::{le16, read_le16, BiosParameterBlock, ClusterNumber, SECTOR_SIZE};
use crate::error::FatError;

verus! {

/// First FAT value that ends a chain.
pub const END_OF_CHAIN: u16 = 0xfff8;

/// FAT value of a cluster marked bad.
pub const BAD_CLUSTER: u16 = 0xfff7;

/// Where the FAT entry of `c` lies: its sector and its offset in that sector.
pub open spec fn fat_entry_sector(bpb: BiosParameterBlock, c: int) -> int {
    bpb.spec_first_fat_sector() + (c * 2) / SECTOR_SIZE as int
}

pub open spec fn fat_entry_offset(c: int) -> int {
    (c * 2) % SECTOR_SIZE as int
}

/// What a FAT entry says follows its cluster: the end of the chain, a next
/// cluster, or corruption (a bad cluster or a reserved number).
pub open spec fn link_target(link: int) -> Result<Option<ClusterNumber>, FatError> {
    if link >= END_OF_CHAIN {
        Ok(None)
    } else if link == BAD_CLUSTER || link < 2 {
        Err(FatError::CorruptFilesystem)
    } else {
        Ok(Some(ClusterNumber(link as u32)))
    }
}

/// The sectors of a chain of data clusters, cluster after cluster.
pub open spec fn chain_sectors(bpb: BiosParameterBlock, cs: Seq<ClusterNumber>) -> Seq<u64>
    decreases cs.len(),
{
    if cs.len() == 0 {
        Seq::empty()
    } else {
        chain_sectors(bpb, cs.drop_last()) + bpb.spec_cluster_sectors(cs.last().0 as int)
    }
}

/// A mounted FAT16 filesystem: the superblock it was opened with.
#[derive(Debug, Clone, Copy, PartialEq, Eq, Structural)]
pub struct Fat16 {
    pub bpb: BiosParameterBlock,
}

impl Fat16 {
    pub open spec fn wf(self) -> bool {
        self.bpb.supported()
    }

    /// Mounts the filesystem whose sector 0 is given.
    pub fn open(sector0: &[u8]) -> (r: Result<Fat16, FatError>)
        requires
            sector0@.len() == SECTOR_SIZE,
        ensures
            BiosParameterBlock::decoded(sector0@).supported() ==> r == Ok::<Fat16, FatError>(
                Fat16 { bpb: BiosParameterBlock::decoded(sector0@) },
            ),
            !BiosParameterBlock::decoded(sector0@).supported() ==> r == Err::<Fat16, FatError>(
                FatError::UnsupportedFilesystem,
            ),
            r matches Ok(fs) ==> fs.wf(),
    {
        match BiosParameterBlock::read(sector0) {
            Ok(bpb) => Ok(Fat16 { bpb }),
            Err(e) => Err(e),
        }
    }

    /// Number of clusters that the FAT has an entry for.
    pub fn max_cluster(&self) -> (r: u64)
        ensures
            r as int == self.bpb.spec_max_cluster(),
    {
        let n = self.bpb.fat_sector_count();
        n * 256
    }

    /// The FAT sector that holds the link of `cluster`, and the link's offset
    /// in it. A cluster beyond the FAT's reach is corruption.
    pub fn fat_entry_location(&self, cluster: ClusterNumber) -> (r: Result<(u64, usize), FatError>)
        ensures
            cluster.0 >= self.bpb.spec_max_cluster() ==> r == Err::<(u64, usize), FatError>(
                FatError::CorruptFilesystem,
            ),
            cluster.0 < self.bpb.spec_max_cluster() ==> (r matches Ok((s, o)) && s as int
                == fat_entry_sector(self.bpb, cluster.0 as int) && o as int == fat_entry_offset(
                cluster.0 as int,
            )),
            r matches Ok((s, o)) ==> o + 1 < SECTOR_SIZE,
    {
        if cluster.0 as u64 >= self.max_cluster() {
            return Err(FatError::CorruptFilesystem);
        }
        let entry = cluster.0 as u64 * 2;
        let sector = self.bpb.first_fat_sector() + entry / SECTOR_SIZE as u64;
        let offset = (entry % SECTOR_SIZE as u64) as usize;
        assert(offset % 2 == 0);
        Ok((sector, offset))
    }

    /// The cluster that follows `cluster`, read from the FAT sector that
    /// holds its link (the sector named by `fat_entry_location`).
    pub fn next_cluster(&self, cluster: ClusterNumber, fat_sector: &[u8]) -> (r: Result<
        Option<ClusterNumber>,
        FatError,
    >)
        requires
            fat_sector@.len() == SECTOR_SIZE,
        ensures
            cluster.0 >= self.bpb.spec_max_cluster() ==> r == Err::<Option<ClusterNumber>, FatError>(
                FatError::CorruptFilesystem,
            ),
            cluster.0 < self.bpb.spec_max_cluster() ==> r == link_target(
                le16(fat_sector@, fat_entry_offset(cluster.0 as int)),
            ),
    {
        let offset = match self.fat_entry_location(cluster) {
            Ok((_, offset)) => offset,
            Err(e) => return Err(e),
        };
        let next = read_le16(fat_sector, offset);
        if next >= END_OF_CHAIN {
            Ok(None)
        } else if next == BAD_CLUSTER || next < 2 {
            Err(FatError::CorruptFilesystem)
        } else {
            Ok(Some(ClusterNumber(next as u32)))
        }
    }

    /// All sectors of a chain of data clusters: those of the first cluster in
    /// order, then those of the second, and so on. A reserved cluster number
    /// (0 or 1) in the chain is corruption.
    pub fn sector_chain(&self, clusters: &Vec<ClusterNumber>) -> (r: Result<Vec<u64>, FatError>)
        ensures
            (forall|i: int| 0 <= i < clusters@.len() ==> (#[trigger] clusters@[i]).0 >= 2)
                <==> r is Ok,
            r matches Ok(v) ==> v@ == chain_sectors(self.bpb, clusters@),
            r is Err ==> r == Err::<Vec<u64>, FatError>(FatError::CorruptFilesystem),
    {
        let mut k: usize = 0;
        while k < clusters.len()
            invariant
                k <= clusters@.len(),
                forall|j: int| 0 <= j < k ==> (#[trigger] clusters@[j]).0 >= 2,
            decreases clusters@.len() - k,
        {
            if clusters[k].0 < 2 {
                return Err(FatError::CorruptFilesystem);
            }
            k = k + 1;
        }
        let mut sectors: Vec<u64> = Vec::new();
        let mut i: usize = 0;
        while i < clusters.len()
            invariant
                i <= clusters@.len(),
                forall|j: int| 0 <= j < clusters@.len() ==> (#[trigger] clusters@[j]).0 >= 2,
                sectors@ == chain_sectors(self.bpb, clusters@.take(i as int)),
            decreases clusters@.len() - i,
        {
            let mut part = self.bpb.cluster_sectors(clusters[i]);
            let ghost before = sectors@;
            sectors.append(&mut part);
            proof {
                let t = clusters@.take(i + 1);
                assert(t.drop_last() =~= clusters@.take(i as int));
                assert(t.last() == clusters@[i as int]);
            }
            i = i + 1;
        }
        assert(clusters@.take(clusters@.len() as int) =~= clusters@);
        Ok(sectors)
    }
}

/// The sectors of a cluster chain are all sectors of its first cluster in
/// order, then all sectors of the second, and so on to the last cluster.
pub proof fn lemma_chain_sectors_in_order(bpb: BiosParameterBlock, cs: Seq<ClusterNumber>)
    ensures
        chain_sectors(bpb, cs).len() == cs.len() * bpb.sectors_per_cluster,
        forall|k: int, j: int|
            0 <= k < cs.len() && 0 <= j < bpb.sectors_per_cluster ==> #[trigger] chain_sectors(
                bpb,
                cs,
            )[k * bpb.sectors_per_cluster + j] == (bpb.spec_first_cluster_sector(cs[k].0 as int)
                + j) as u64,
    decreases cs.len(),
{
    let n = bpb.sectors_per_cluster as int;
    if cs.len() == 0 {
        assert(cs.len() * n == 0);
    } else {
        let init = cs.drop_last();
        lemma_chain_sectors_in_order(bpb, init);
        let whole = chain_sectors(bpb, cs);
        let head = chain_sectors(bpb, init);
        assert(head.len() == init.len() * n);
        assert(whole == head + bpb.spec_cluster_sectors(cs.last().0 as int));
        assert(cs.len() * n == init.len() * n + n) by (nonlinear_arith)
            requires
                init.len() + 1 == cs.len(),
        ;
        assert(whole.len() == cs.len() * n) by (nonlinear_arith)
            requires
                whole.len() == head.len() + n,
                head.len() == init.len() * n,
                init.len() + 1 == cs.len(),
        ;
        assert forall|k: int, j: int| 0 <= k < cs.len() && 0 <= j < n implies #[trigger] whole[k
            * n + j] == (bpb.spec_first_cluster_sector(cs[k].0 as int) + j) as u64 by {
            if k < init.len() {
                assert(k * n + j < init.len() * n) by (nonlinear_arith)
                    requires
                        0 <= k,
                        k + 1 <= init.len(),
                        0 <= j < n,
                ;
                assert(init[k] == cs[k]);
                assert(whole[k * n + j] == head[k * n + j]);
            } else {
                assert(k * n == init.len() * n);
                assert(whole[k * n + j] == bpb.spec_cluster_sectors(cs.last().0 as int)[j]);
            }
        }
    }
}

} // verus!
