//! The FAT32 boot sector and the volume layout it gives.
use vstd::prelude::*;
use crate::elf::bytes::{le_u16, le_u32, read_le_u16, read_le_u32};
use crate::filesystem::{FilesystemError, FilesystemResult};
use crate::virtio::queue::{is_pow2, is_power_of_two_u16};

verus! {

pub const SECTOR_SIZE: usize = 512;
pub const FAT32_SIGNATURE: u16 = 0xAA55;

/// The boot-sector fields the filesystem uses, at their byte offsets.
pub open spec fn bs_bytes_per_sector(b: Seq<u8>) -> int { le_u16(b, 11) }
pub open spec fn bs_sectors_per_cluster(b: Seq<u8>) -> int { b[13] as int }
pub open spec fn bs_reserved_sectors(b: Seq<u8>) -> int { le_u16(b, 14) }
pub open spec fn bs_num_fats(b: Seq<u8>) -> int { b[16] as int }
pub open spec fn bs_total_sectors_16(b: Seq<u8>) -> int { le_u16(b, 19) }
pub open spec fn bs_total_sectors_32(b: Seq<u8>) -> int { le_u32(b, 32) }
pub open spec fn bs_sectors_per_fat(b: Seq<u8>) -> int { le_u32(b, 36) }
pub open spec fn bs_root_cluster(b: Seq<u8>) -> int { le_u32(b, 44) }
pub open spec fn bs_info_sector(b: Seq<u8>) -> int { le_u16(b, 48) }
pub open spec fn bs_signature(b: Seq<u8>) -> int { le_u16(b, 510) }

/// The sector count the boot sector gives: the 16-bit field, or the 32-bit
/// one when that is zero.
pub open spec fn bs_total_sectors(b: Seq<u8>) -> int {
    if bs_total_sectors_16(b) == 0 { bs_total_sectors_32(b) } else { bs_total_sectors_16(b) }
}

/// Sectors taken by all copies of the FAT.
pub open spec fn bs_fat_sectors(b: Seq<u8>) -> int {
    bs_num_fats(b) * bs_sectors_per_fat(b)
}

/// Whether the boot sector is one this driver mounts.
pub open spec fn boot_sector_valid(b: Seq<u8>) -> bool {
    &&& bs_signature(b) == FAT32_SIGNATURE
    &&& is_pow2(bs_bytes_per_sector(b))
    &&& bs_bytes_per_sector(b) >= 512
    &&& is_pow2(bs_sectors_per_cluster(b))
}

/// The layout of a mounted volume.
#[derive(Debug, Clone, Copy, PartialEq, Eq, Structural)]
pub struct Fat32Geometry {
    pub signature: u16,
    pub bytes_per_sector: u16,
    pub sectors_per_cluster: u8,
    pub num_fats: u8,
    pub reserved_sectors: u16,
    pub total_sectors_32: u32,
    pub root_dir_cluster: u32,
    pub first_fat_sector: u64,
    pub sectors_per_fat: u32,
    pub data_region_start_sector: u64,
    pub total_data_clusters: u32,
    pub fs_info_sector_num: Option<u16>,
}

impl Fat32Geometry {
    /// The layout that boot sector `b` describes.
    pub open spec fn of(b: Seq<u8>) -> Fat32Geometry {
        Fat32Geometry {
            signature: bs_signature(b) as u16,
            bytes_per_sector: bs_bytes_per_sector(b) as u16,
            sectors_per_cluster: bs_sectors_per_cluster(b) as u8,
            num_fats: bs_num_fats(b) as u8,
            reserved_sectors: bs_reserved_sectors(b) as u16,
            total_sectors_32: bs_total_sectors_32(b) as u32,
            root_dir_cluster: bs_root_cluster(b) as u32,
            first_fat_sector: bs_reserved_sectors(b) as u64,
            sectors_per_fat: bs_sectors_per_fat(b) as u32,
            data_region_start_sector: (bs_reserved_sectors(b) + bs_fat_sectors(b)) as u64,
            total_data_clusters: ((bs_total_sectors(b) - (bs_reserved_sectors(b) + bs_fat_sectors(b)))
                / bs_sectors_per_cluster(b)) as u32,
            fs_info_sector_num: if bs_info_sector(b) != 0 && bs_info_sector(b) != 0xFFFF {
                Some(bs_info_sector(b) as u16)
            } else {
                None
            },
        }
    }

    /// Bytes in one cluster.
    pub open spec fn cluster_bytes(self) -> int {
        self.sectors_per_cluster * self.bytes_per_sector
    }

    /// First sector of data cluster `cluster` (clusters are numbered from 2).
    pub open spec fn sector_of_cluster(self, cluster: int) -> int {
        self.data_region_start_sector + (cluster - 2) * self.sectors_per_cluster
    }

    /// Parses and checks the boot sector `b` (the first sector of the disk).
    pub fn from_boot_sector(b: &[u8]) -> (r: FilesystemResult<Fat32Geometry>)
        requires
            b@.len() == SECTOR_SIZE,
            bs_fat_sectors(b@) <= u32::MAX,
            boot_sector_valid(b@) ==> bs_reserved_sectors(b@) + bs_fat_sectors(b@) <= bs_total_sectors(b@),
        ensures
            boot_sector_valid(b@) ==> r == Ok::<Fat32Geometry, FilesystemError>(Fat32Geometry::of(b@)),
            !boot_sector_valid(b@) ==> r == Err::<Fat32Geometry, FilesystemError>(FilesystemError::InvalidBootSector),
    {
        let signature = read_le_u16(b, 510);
        let bytes_per_sector = read_le_u16(b, 11);
        let sectors_per_cluster = b[13];
        if signature != FAT32_SIGNATURE {
            return Err(FilesystemError::InvalidBootSector);
        }
        if bytes_per_sector == 0 || !is_power_of_two_u16(bytes_per_sector) || bytes_per_sector < 512 {
            return Err(FilesystemError::InvalidBootSector);
        }
        if sectors_per_cluster == 0 || !is_power_of_two_u16(sectors_per_cluster as u16) {
            return Err(FilesystemError::InvalidBootSector);
        }
        let reserved_sectors = read_le_u16(b, 14);
        let num_fats = b[16];
        let total_sectors_16 = read_le_u16(b, 19);
        let total_sectors_32 = read_le_u32(b, 32);
        let sectors_per_fat = read_le_u32(b, 36);
        let root_cluster = read_le_u32(b, 44);
        let info_sector = read_le_u16(b, 48);
        let total_sectors = if total_sectors_16 == 0 { total_sectors_32 } else { total_sectors_16 as u32 };
        let fat_sectors = num_fats as u32 * sectors_per_fat;
        let first_fat_sector = reserved_sectors as u64;
        let total_data_sectors = total_sectors - (reserved_sectors as u32 + fat_sectors);
        let fs_info_sector_num = if info_sector != 0 && info_sector != 0xFFFF { Some(info_sector) } else { None };
        Ok(Fat32Geometry {
            signature,
            bytes_per_sector,
            sectors_per_cluster,
            num_fats,
            reserved_sectors,
            total_sectors_32,
            root_dir_cluster: root_cluster,
            first_fat_sector,
            sectors_per_fat,
            data_region_start_sector: first_fat_sector + fat_sectors as u64,
            total_data_clusters: total_data_sectors / sectors_per_cluster as u32,
            fs_info_sector_num,
        })
    }

    /// First sector of data cluster `cluster`.
    pub fn cluster_to_sector(&self, cluster: u32) -> (s: u64)
        requires
            cluster >= 2,
            self.sector_of_cluster(cluster as int) <= u64::MAX,
        ensures
            s == self.sector_of_cluster(cluster as int),
    {
        self.data_region_start_sector + ((cluster - 2) as u64 * self.sectors_per_cluster as u64)
    }

    /// Where the FAT entry of `cluster` is stored: its sector and its byte
    /// offset in that sector. A cluster past the volume, or an entry past the
    /// first FAT, is refused.
    pub fn fat_entry_location(&self, cluster: u32) -> (r: FilesystemResult<(u64, usize)>)
        requires
            self.bytes_per_sector > 0,
            self.total_data_clusters + 2 <= u32::MAX,
            cluster * 4 <= u32::MAX,
            self.first_fat_sector + self.sectors_per_fat <= u64::MAX,
            self.first_fat_sector + cluster * 4 <= u64::MAX,
        ensures
            cluster >= self.total_data_clusters + 2 ==> r == Err::<(u64, usize), FilesystemError>(FilesystemError::InvalidFAT),
            cluster < self.total_data_clusters + 2 ==> {
                let sector = self.first_fat_sector + (cluster * 4) / (self.bytes_per_sector as int);
                &&& sector >= self.first_fat_sector + self.sectors_per_fat ==> r == Err::<(u64, usize), FilesystemError>(FilesystemError::InvalidFAT)
                &&& sector < self.first_fat_sector + self.sectors_per_fat ==> r == Ok::<(u64, usize), FilesystemError>(
                    (sector as u64, ((cluster * 4) % (self.bytes_per_sector as int)) as usize))
            },
    {
        if cluster >= self.total_data_clusters + 2 {
            return Err(FilesystemError::InvalidFAT);
        }
        let fat_offset = cluster * 4;
        let entry_sector = self.first_fat_sector + (fat_offset / self.bytes_per_sector as u32) as u64;
        let entry_offset_in_sector = (fat_offset % self.bytes_per_sector as u32) as usize;
        if entry_sector >= self.first_fat_sector + self.sectors_per_fat as u64 {
            return Err(FilesystemError::InvalidFAT);
        }
        Ok((entry_sector, entry_offset_in_sector))
    }
}

} // verus!
