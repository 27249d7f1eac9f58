use vstd::prelude::*;

use crate::error::FatError;

verus! {

/// Size of one device sector, in bytes.
pub const SECTOR_SIZE: usize = 512;

/// Size of one on-disk directory record, in bytes.
pub const DIR_ENTRY_SIZE: usize = 32;

/// Little-endian 16-bit value stored at `b[i]`, `b[i + 1]`.
pub open spec fn le16(b: Seq<u8>, i: int) -> int {
    b[i] as int + b[i + 1] as int * 256
}

/// Reads the little-endian 16-bit value at `b[i]`.
pub fn read_le16(b: &[u8], i: usize) -> (r: u16)
    requires
        i + 1 < b@.len(),
    ensures
        r as int == le16(b@, i as int),
{
    b[i] as u16 + (b[i + 1] as u16) * 256
}

/// Index of a cluster: into the FAT, and (from 2 on) into the data region.
#[derive(Debug, Clone, Copy, PartialEq, Eq, Structural)]
pub struct ClusterNumber(pub u32);

/// The decoded superblock (BIOS parameter block) found in sector 0.
#[derive(Debug, Clone, Copy, PartialEq, Eq, Structural)]
pub struct BiosParameterBlock {
    pub bytes_per_sector: u16,
    pub sectors_per_cluster: u8,
    pub reserved_sector_count: u16,
    pub fat_count: u8,
    pub root_directory_entry_count: u16,
    pub total_sector_count: u16,
    pub media_descriptor_type: u8,
    pub sectors_per_fat: u16,
}

impl BiosParameterBlock {
    /// The superblock held by a sector's bytes, field by field.
    pub open spec fn decoded(s: Seq<u8>) -> BiosParameterBlock {
        BiosParameterBlock {
            bytes_per_sector: le16(s, 0x0b) as u16,
            sectors_per_cluster: s[0x0d],
            reserved_sector_count: le16(s, 0x0e) as u16,
            fat_count: s[0x10],
            root_directory_entry_count: le16(s, 0x11) as u16,
            total_sector_count: le16(s, 0x13) as u16,
            media_descriptor_type: s[0x15],
            sectors_per_fat: le16(s, 0x16) as u16,
        }
    }

    /// A geometry this driver handles: 512-byte sectors, non-empty clusters.
    pub open spec fn supported(self) -> bool {
        self.bytes_per_sector == SECTOR_SIZE && self.sectors_per_cluster > 0
    }

    pub open spec fn spec_first_fat_sector(self) -> int {
        self.reserved_sector_count as int
    }

    pub open spec fn spec_fat_sector_count(self) -> int {
        self.sectors_per_fat as int
    }

    pub open spec fn spec_all_fats_sector_count(self) -> int {
        self.fat_count as int * self.sectors_per_fat as int
    }

    pub open spec fn spec_first_root_dir_sector(self) -> int {
        self.spec_first_fat_sector() + self.spec_all_fats_sector_count()
    }

    pub open spec fn spec_root_dir_sector_count(self) -> int {
        (self.root_directory_entry_count as int * DIR_ENTRY_SIZE) / SECTOR_SIZE as int
    }

    /// Number of clusters that the FAT has an entry for.
    pub open spec fn spec_max_cluster(self) -> int {
        self.sectors_per_fat as int * SECTOR_SIZE / 2
    }

    /// First sector of a (2-indexed) data cluster.
    pub open spec fn spec_first_cluster_sector(self, c: int) -> int {
        self.spec_first_root_dir_sector() + self.spec_root_dir_sector_count() + (c - 2)
            * self.sectors_per_cluster as int
    }

    /// The sectors of a cluster, in order.
    pub open spec fn spec_cluster_sectors(self, c: int) -> Seq<u64> {
        Seq::new(
            self.sectors_per_cluster as nat,
            |i: int| (self.spec_first_cluster_sector(c) + i) as u64,
        )
    }

    /// Decodes the superblock from sector 0 of the partition; a sector size
    /// other than 512 bytes or an empty cluster size is refused.
    pub fn read(sector: &[u8]) -> (r: Result<BiosParameterBlock, FatError>)
        requires
            sector@.len() == SECTOR_SIZE,
        ensures
            BiosParameterBlock::decoded(sector@).supported() ==> r == Ok::<
                BiosParameterBlock,
                FatError,
            >(BiosParameterBlock::decoded(sector@)),
            !BiosParameterBlock::decoded(sector@).supported() ==> r == Err::<
                BiosParameterBlock,
                FatError,
            >(FatError::UnsupportedFilesystem),
    {
        let bpb = BiosParameterBlock {
            bytes_per_sector: read_le16(sector, 0x0b),
            sectors_per_cluster: sector[0x0d],
            reserved_sector_count: read_le16(sector, 0x0e),
            fat_count: sector[0x10],
            root_directory_entry_count: read_le16(sector, 0x11),
            total_sector_count: read_le16(sector, 0x13),
            media_descriptor_type: sector[0x15],
            sectors_per_fat: read_le16(sector, 0x16),
        };
        if bpb.bytes_per_sector as usize != SECTOR_SIZE || bpb.sectors_per_cluster == 0 {
            Err(FatError::UnsupportedFilesystem)
        } else {
            Ok(bpb)
        }
    }

    pub fn first_fat_sector(&self) -> (r: u64)
        ensures
            r as int == self.spec_first_fat_sector(),
    {
        self.reserved_sector_count as u64
    }

    pub fn fat_sector_count(&self) -> (r: u64)
        ensures
            r as int == self.spec_fat_sector_count(),
            r <= 65535,
    {
        self.sectors_per_fat as u64
    }

    pub fn all_fats_sector_count(&self) -> (r: u64)
        ensures
            r as int == self.spec_all_fats_sector_count(),
            r <= 255 * 65535,
    {
        proof {
            assert(self.fat_count as int * self.sectors_per_fat as int <= 255 * 65535)
                by (nonlinear_arith);
        }
        self.fat_count as u64 * self.fat_sector_count()
    }

    pub fn first_root_dir_sector(&self) -> (r: u64)
        ensures
            r as int == self.spec_first_root_dir_sector(),
            r as int == self.reserved_sector_count as int + self.fat_count as int
                * self.sectors_per_fat as int,
            r <= 0x100_0000,
    {
        self.first_fat_sector() + self.all_fats_sector_count()
    }

    pub fn root_dir_sector_count(&self) -> (r: u64)
        ensures
            r as int == self.spec_root_dir_sector_count(),
            r <= 4096,
    {
        (self.root_directory_entry_count as u64 * DIR_ENTRY_SIZE as u64) / SECTOR_SIZE as u64
    }

    pub fn sectors_per_cluster(&self) -> (r: u64)
        ensures
            r == self.sectors_per_cluster as u64,
    {
        self.sectors_per_cluster as u64
    }

    /// First sector of a data cluster; cluster numbers start at 2.
    pub fn first_cluster_sector(&self, cluster_number: ClusterNumber) -> (r: u64)
        requires
            cluster_number.0 >= 2,
        ensures
            r as int == self.spec_first_cluster_sector(cluster_number.0 as int),
            r <= 0x1_0000_0000_0000,
    {
        let clusters_base = self.first_root_dir_sector() + self.root_dir_sector_count();
        let index = cluster_number.0 as u64 - 2;
        proof {
            assert(index as int * self.sectors_per_cluster as int <= 0xffff_ffff * 255)
                by (nonlinear_arith)
                requires
                    index <= 0xffff_ffff,
                    self.sectors_per_cluster <= 255,
            ;
        }
        clusters_base + index * self.sectors_per_cluster()
    }

    /// The sectors of a data cluster, in order.
    pub fn cluster_sectors(&self, cluster_number: ClusterNumber) -> (r: Vec<u64>)
        requires
            cluster_number.0 >= 2,
        ensures
            r@ == self.spec_cluster_sectors(cluster_number.0 as int),
    {
        let first = self.first_cluster_sector(cluster_number);
        let count = self.sectors_per_cluster();
        let mut sectors: Vec<u64> = Vec::new();
        let mut i: u64 = 0;
        while i < count
            invariant
                count == self.sectors_per_cluster as u64,
                first as int == self.spec_first_cluster_sector(cluster_number.0 as int),
                first as int <= 0x1_0000_0000_0000,
                i <= count,
                sectors@ =~= self.spec_cluster_sectors(cluster_number.0 as int).take(i as int),
            decreases count - i,
        {
            sectors.push(first + i);
            i = i + 1;
        }
        sectors
    }
}

/// The root directory starts right after the reserved sectors and all
/// copies of the FAT.
pub proof fn lemma_root_dir_follows_fats(bpb: BiosParameterBlock)
    ensures
        bpb.spec_first_root_dir_sector() == bpb.reserved_sector_count as int + bpb.fat_count as int
            * bpb.sectors_per_fat as int,
{
}

} // verus!
