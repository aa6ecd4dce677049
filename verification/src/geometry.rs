//! The shape of the volume: how many blocks it has, and which blocks hold
//! the boot sector, the two FAT copies, the root directory and the clusters.
//! The regions follow one another without gaps, in that order.

use vstd::prelude::*;

verus! {

/// Bytes per block of the volume; a cluster is one block.
pub const BLOCK_SIZE: usize = 512;

/// Payload bytes that one transfer block carries.
pub const UF2_BLOCK_SIZE: usize = 256;

/// Blocks of the volume.
pub const NUM_FAT_BLOCKS: u32 = 8000;

/// Blocks before the first FAT copy: the boot sector.
pub const RESERVED_SECTORS: u32 = 1;

/// Blocks of the root directory.
pub const ROOT_DIR_SECTORS: u32 = 4;

/// Blocks of one FAT copy: two bytes for each block of the volume, rounded
/// up to whole blocks.
pub const SECTORS_PER_FAT: u32 = (NUM_FAT_BLOCKS * 2 + 511) / 512;

/// The first block of the first FAT copy.
pub const START_FAT0: u32 = RESERVED_SECTORS;

/// The first block of the second FAT copy.
pub const START_FAT1: u32 = START_FAT0 + SECTORS_PER_FAT;

/// The first block of the root directory.
pub const START_ROOTDIR: u32 = START_FAT1 + SECTORS_PER_FAT;

/// The first block of the cluster region; it holds cluster 2.
pub const START_CLUSTERS: u32 = START_ROOTDIR + ROOT_DIR_SECTORS;

/// The highest block address of the volume.
pub const MAX_LBA: u32 = NUM_FAT_BLOCKS - 1;

/// Files in the catalog.
pub const CATALOG_SIZE: usize = 3;

/// The catalog slot of the file that shows the flash.
pub const UF2_INDEX: usize = 2;

/// The number of the first cluster of the cluster region.
pub const FIRST_CLUSTER: u32 = 2;

/// What a block of the volume belongs to.
#[derive(Debug, Clone, Copy, PartialEq, Eq, Structural)]
pub enum Region {
    /// The boot sector.
    Boot,
    /// Block `index` of a FAT copy; both copies read the same.
    Fat { index: u32 },
    /// Block `index` of the root directory.
    RootDirectory { index: u32 },
    /// The one cluster of the static file in catalog slot `slot`.
    StaticFile { slot: usize },
    /// Cluster `block` of the file that shows the flash.
    Transfer { block: u32 },
    /// Past the end of the volume.
    Outside,
}

/// The region that block `lba` belongs to.
pub open spec fn region_of(lba: u32) -> Region {
    if lba == 0 {
        Region::Boot
    } else if lba > MAX_LBA {
        Region::Outside
    } else if lba < START_FAT1 {
        Region::Fat { index: (lba - START_FAT0) as u32 }
    } else if lba < START_ROOTDIR {
        Region::Fat { index: (lba - START_FAT1) as u32 }
    } else if lba < START_CLUSTERS {
        Region::RootDirectory { index: (lba - START_ROOTDIR) as u32 }
    } else if lba - START_CLUSTERS < UF2_INDEX {
        Region::StaticFile { slot: (lba - START_CLUSTERS) as usize }
    } else {
        Region::Transfer { block: (lba - START_CLUSTERS - UF2_INDEX) as u32 }
    }
}

/// Finds the region that block `lba` belongs to.
pub fn classify(lba: u32) -> (region: Region)
    ensures
        region == region_of(lba),
{
    if lba == 0 {
        Region::Boot
    } else if lba > MAX_LBA {
        Region::Outside
    } else if lba < START_FAT1 {
        Region::Fat { index: lba - START_FAT0 }
    } else if lba < START_ROOTDIR {
        Region::Fat { index: lba - START_FAT1 }
    } else if lba < START_CLUSTERS {
        Region::RootDirectory { index: lba - START_ROOTDIR }
    } else if ((lba - START_CLUSTERS) as usize) < UF2_INDEX {
        Region::StaticFile { slot: (lba - START_CLUSTERS) as usize }
    } else {
        Region::Transfer { block: lba - START_CLUSTERS - UF2_INDEX as u32 }
    }
}

/// The regions lie as the volume's layout says: every block of the volume
/// is in exactly one of them, indices stay inside their region, and the
/// regions follow one another in the order boot sector, first FAT, second
/// FAT, root directory, clusters.
pub proof fn lemma_regions(lba: u32)
    ensures
        START_FAT0 == 1,
        START_FAT1 == START_FAT0 + SECTORS_PER_FAT,
        START_ROOTDIR == START_FAT1 + SECTORS_PER_FAT,
        START_CLUSTERS == START_ROOTDIR + ROOT_DIR_SECTORS,
        START_CLUSTERS + UF2_INDEX <= MAX_LBA,
        region_of(lba) is Boot <==> lba == 0,
        region_of(lba) is Outside <==> lba > MAX_LBA,
        region_of(lba) is Fat <==> START_FAT0 <= lba < START_ROOTDIR,
        region_of(lba) is RootDirectory <==> START_ROOTDIR <= lba < START_CLUSTERS,
        region_of(lba) is StaticFile <==> START_CLUSTERS <= lba < START_CLUSTERS + UF2_INDEX,
        region_of(lba) is Transfer <==> START_CLUSTERS + UF2_INDEX <= lba <= MAX_LBA,
        region_of(lba) matches Region::Fat { index } ==> index < SECTORS_PER_FAT && (lba
            == START_FAT0 + index || lba == START_FAT1 + index),
        region_of(lba) matches Region::RootDirectory { index } ==> index < ROOT_DIR_SECTORS && lba
            == START_ROOTDIR + index,
        region_of(lba) matches Region::StaticFile { slot } ==> slot < UF2_INDEX && lba
            == START_CLUSTERS + slot,
        region_of(lba) matches Region::Transfer { block } ==> lba == START_CLUSTERS + UF2_INDEX
            + block,
{
}

} // verus!
