//! The volume itself: a block device that answers every read from the
//! catalog and the flash, and hands every transfer block that is written to
//! it on to the flash.

use crate::catalog::{catalog_shape, fat_files, is_volume_catalog, FatFile, FatFileContent};
use crate::flash::{written, Flash, FlashError};
use crate::geometry::{classify, region_of, Region, BLOCK_SIZE, MAX_LBA, UF2_BLOCK_SIZE};
use crate::records::{fat_boot_block, is_volume_boot_block, FatBootBlock};
use crate::transfer::{accepts, decode_into, encode_from, encode_outcome, flash_sector,
    payload_of, target_of};
use crate::volume::{boot_sector, directory_sector, fat_sector, static_sector, write_boot_sector,
    write_directory_sector, write_fat_sector, write_static_sector};
use crate::wire::{fill, zeros};
use vstd::prelude::*;

verus! {

/// The flash address that cluster `block` of the flash image shows: the
/// clusters show the window from its start on, 256 bytes each.
pub open spec fn image_address<F: Flash>(flash: &F, block: u32) -> int {
    flash@.start + block * UF2_BLOCK_SIZE
}

/// Whether cluster `block` of the flash image shows flash: its 256 bytes
/// lie inside the window and can be read.
pub open spec fn image_block_shown<F: Flash>(flash: &F, block: u32) -> bool {
    &&& image_address(flash, block) <= u32::MAX
    &&& encode_outcome(flash, image_address(flash, block) as u32) is Ok
}

/// Cluster `block` of the flash image: the transfer block for the 256 bytes
/// that the flash holds there, or zeros where the cluster shows no flash.
pub open spec fn image_sector<F: Flash>(flash: &F, block: u32) -> Seq<u8> {
    if image_block_shown(flash, block) {
        flash_sector(flash, image_address(flash, block) as u32)
    } else {
        zeros(BLOCK_SIZE as nat)
    }
}

/// Block `lba` of the volume with the parameter block `boot` and the catalog
/// `files` over the flash `flash`.
pub open spec fn volume_sector<F: Flash>(
    boot: FatBootBlock,
    files: [FatFile; 3],
    flash: &F,
    lba: u32,
) -> Seq<u8> {
    match region_of(lba) {
        Region::Boot => boot_sector(boot),
        Region::Fat { index } => fat_sector(flash@.memory.len(), index as int),
        Region::RootDirectory { index } => directory_sector(
            boot.volume_label,
            files,
            flash@.memory.len(),
            index as int,
        ),
        Region::StaticFile { slot } => match files[slot as int].content {
            FatFileContent::Static(text) => static_sector(text),
            FatFileContent::Uf2 => zeros(BLOCK_SIZE as nat),
        },
        Region::Transfer { block } => image_sector(flash, block),
        Region::Outside => zeros(BLOCK_SIZE as nat),
    }
}

/// What a write of `sector` to block `lba` hands to the flash: the address
/// and the payload of a transfer block written into the flash image, and
/// nothing for anything else.
pub open spec fn incoming(lba: u32, sector: Seq<u8>) -> Option<(u32, Seq<u8>)> {
    if region_of(lba) is Transfer && accepts(sector) {
        Some((target_of(sector), payload_of(sector)))
    } else {
        None
    }
}

/// Every block of the volume is 512 bytes long.
pub proof fn lemma_sector_len<F: Flash>(
    boot: FatBootBlock,
    files: [FatFile; 3],
    flash: &F,
    lba: u32,
)
    ensures
        volume_sector(boot, files, flash, lba).len() == BLOCK_SIZE,
{
    crate::wire::lemma_le_len();
    boot.lemma_layout();
    crate::volume::volume_label_entry(boot.volume_label).lemma_layout();
    crate::volume::file_entry(files[0], 0, flash@.memory.len()).lemma_layout();
    crate::volume::file_entry(files[1], 1, flash@.memory.len()).lemma_layout();
    crate::volume::file_entry(files[2], 2, flash@.memory.len()).lemma_layout();
}

/// The two copies of the FAT read the same, block for block.
pub proof fn lemma_fat_copies_agree<F: Flash>(
    boot: FatBootBlock,
    files: [FatFile; 3],
    flash: &F,
    index: u32,
)
    requires
        index < crate::geometry::SECTORS_PER_FAT,
    ensures
        volume_sector(boot, files, flash, (crate::geometry::START_FAT0 + index) as u32)
            == volume_sector(boot, files, flash, (crate::geometry::START_FAT1 + index) as u32),
        volume_sector(boot, files, flash, (crate::geometry::START_FAT0 + index) as u32)
            == fat_sector(flash@.memory.len(), index as int),
{
}

/// What a block reads as is decided by its address, the catalog and what
/// the flash holds, and by nothing else: two volumes that agree in these
/// read the same, whatever is staged in their page buffers and however
/// often they have been read or written.
pub proof fn lemma_sector_depends_on_flash_content<F: Flash>(
    boot: FatBootBlock,
    files: [FatFile; 3],
    flash: &F,
    other: &F,
    lba: u32,
)
    requires
        flash@.start == other@.start,
        flash@.memory == other@.memory,
        forall|address: u32, len: nat|
            flash.read_fault(address, len) == other.read_fault(address, len),
    ensures
        volume_sector(boot, files, flash, lba) == volume_sector(boot, files, other, lba),
{
}

/// Reading a cluster of the flash image and writing it back hands the flash
/// the bytes that it holds, at the address where it holds them.
pub proof fn lemma_image_round_trip<F: Flash>(
    boot: FatBootBlock,
    files: [FatFile; 3],
    flash: &F,
    lba: u32,
)
    requires
        flash@.wf(),
        region_of(lba) is Transfer,
        image_block_shown(flash, region_of(lba)->block),
    ensures
        incoming(lba, volume_sector(boot, files, flash, lba)) == Some(
            (
                image_address(flash, region_of(lba)->block) as u32,
                flash@.bytes_at(image_address(flash, region_of(lba)->block), UF2_BLOCK_SIZE as int),
            ),
        ),
{
    let block = region_of(lba)->block;
    let address = image_address(flash, block);
    let payload = flash@.bytes_at(address, UF2_BLOCK_SIZE as int);
    assert(payload.len() == UF2_BLOCK_SIZE);
    assert(volume_sector(boot, files, flash, lba) == flash_sector(flash, address as u32));
    crate::transfer::lemma_encode_then_decode(
        address as u32,
        flash@.start,
        flash@.memory.len(),
        payload,
    );
}

/// A FAT16 volume over a flash device.
pub struct GhostFat<F: Flash> {
    fat_boot_block: FatBootBlock,
    fat_files: [FatFile; 3],
    flash: F,
}

impl<F: Flash> GhostFat<F> {
    /// The parameter block of the volume.
    pub closed spec fn boot_block(&self) -> FatBootBlock {
        self.fat_boot_block
    }

    /// The catalog of the volume.
    pub closed spec fn files(&self) -> [FatFile; 3] {
        self.fat_files
    }

    /// The flash device under the volume.
    pub closed spec fn device(&self) -> F {
        self.flash
    }

    /// The volume is in order: its parameter block and catalog are those of
    /// this volume, and the flash device is usable.
    pub open spec fn inv(&self) -> bool {
        &&& is_volume_boot_block(self.boot_block())
        &&& is_volume_catalog(self.files())
        &&& catalog_shape(self.files())
        &&& self.device().inv()
    }

    /// What block `lba` of the volume holds.
    pub open spec fn sector(&self, lba: u32) -> Seq<u8> {
        volume_sector(self.boot_block(), self.files(), &self.device(), lba)
    }

    /// The volume over `flash`.
    pub fn new(flash: F) -> (fat: Self)
        requires
            flash.inv(),
        ensures
            fat.inv(),
            fat.device() == flash,
    {
        GhostFat { fat_boot_block: fat_boot_block(), fat_files: fat_files(), flash }
    }

    /// The highest block address of the volume.
    pub fn max_lba(&self) -> (lba: u32)
        ensures
            lba == MAX_LBA,
    {
        MAX_LBA
    }

    /// The flash device under the volume.
    pub fn flash(&self) -> (flash: &F)
        ensures
            *flash == self.device(),
    {
        &self.flash
    }

    /// The size of the flash window in bytes.
    fn window_size(&self) -> (size: u32)
        requires
            self.inv(),
        ensures
            size == self.device()@.memory.len(),
    {
        proof {
            self.flash.lemma_inv_wf();
        }
        let range = self.flash.address_range();
        *range.end() - *range.start() + 1
    }

    /// Writes cluster `number` of the flash image into `block`.
    fn read_image_block(&self, number: u32, block: &mut [u8])
        requires
            self.inv(),
            old(block)@.len() == BLOCK_SIZE,
        ensures
            final(block)@ == image_sector(&self.device(), number),
    {
        proof {
            self.flash.lemma_inv_wf();
        }
        let range = self.flash.address_range();
        let address: u64 = *range.start() as u64 + number as u64 * UF2_BLOCK_SIZE as u64;
        if address <= u32::MAX as u64 {
            match encode_from(&self.flash, address as u32, block) {
                Ok(()) => {
                    return ;
                },
                Err(_) => {},
            }
        }
        fill(block, 0);
    }

    /// Writes what block `lba` of the volume holds into `block`.
    ///
    /// Block 0 is the boot sector; the blocks of either FAT copy show the
    /// chains of the files; the first block of the root directory lists the
    /// label and the files; each static file has one cluster with its text;
    /// each cluster of the flash image is the transfer block for 256 bytes
    /// of the flash.  Every other block, also past the end of the volume, is
    /// zero.
    pub fn read_block(&self, lba: u32, block: &mut [u8])
        requires
            self.inv(),
            old(block)@.len() == BLOCK_SIZE,
        ensures
            final(block)@ == self.sector(lba),
    {
        match classify(lba) {
            Region::Boot => {
                write_boot_sector(&self.fat_boot_block, block);
            },
            Region::Fat { index } => {
                proof {
                    crate::geometry::lemma_regions(lba);
                }
                write_fat_sector(self.window_size(), index, block);
            },
            Region::RootDirectory { index } => {
                write_directory_sector(
                    &self.fat_boot_block.volume_label,
                    &self.fat_files,
                    self.window_size(),
                    index,
                    block,
                );
            },
            Region::StaticFile { slot } => {
                match &self.fat_files[slot].content {
                    FatFileContent::Static(text) => {
                        write_static_sector(text, block);
                    },
                    FatFileContent::Uf2 => {
                        fill(block, 0);
                    },
                }
            },
            Region::Transfer { block: number } => {
                self.read_image_block(number, block);
            },
            Region::Outside => {
                fill(block, 0);
            },
        }
    }

    /// Takes a write of `block` to block `lba` of the volume.
    ///
    /// Only a transfer block written into the flash image does anything: its
    /// payload goes to the flash at the address that it names.  Every other
    /// write is dropped without a word, as hosts write such blocks all the
    /// time.  A failure of the flash is handed back.
    pub fn write_block(&mut self, lba: u32, block: &[u8]) -> (res: Result<(), FlashError>)
        requires
            old(self).inv(),
        ensures
            final(self).inv(),
            final(self).boot_block() == old(self).boot_block(),
            final(self).files() == old(self).files(),
            match incoming(lba, block@) {
                Some((address, payload)) => written(
                    old(self).device()@,
                    final(self).device()@,
                    address,
                    payload,
                    res,
                ),
                None => res is Ok && final(self).device() == old(self).device(),
            },
    {
        match classify(lba) {
            Region::Transfer { block: _ } => decode_into(&mut self.flash, block),
            _ => Ok(()),
        }
    }
}

} // verus!
