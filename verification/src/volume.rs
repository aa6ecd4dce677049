//! What each block of the volume holds.  Nothing of the volume is stored:
//! the boot sector, the FAT, the root directory and the files' clusters are
//! written out afresh whenever a block is read.

use crate::catalog::{cluster_count, first_cluster, FatFile, FatFileContent, STATIC_SIZE};
use crate::geometry::{BLOCK_SIZE, CATALOG_SIZE, FIRST_CLUSTER, SECTORS_PER_FAT, UF2_INDEX};
use crate::records::{DirectoryEntry, FatBootBlock};
use crate::transfer::blocks_in_window;
use crate::wire::{copy_into, zeros};
use vstd::prelude::*;

verus! {

/// The first entry of the FAT: the media marker.
pub const FAT_MEDIA_ENTRY: u16 = 0xFFF0;

/// The FAT entry of the last cluster of a file.
pub const FAT_END_OF_CHAIN: u16 = 0xFFFF;

/// The FAT entry of a cluster that belongs to no file.
pub const FAT_FREE: u16 = 0;

/// FAT entries in one block.
pub const FAT_ENTRIES_PER_SECTOR: usize = 256;

/// The attribute bits of the directory entry that holds the volume's label.
pub const VOLUME_LABEL_ATTRS: u8 = 0x28;

/// The two bytes that end the boot sector.
pub const BOOT_SIGNATURE: [u8; 2] = [0x55, 0xAA];

/// The number of the last cluster of the flash image, on a flash window of
/// `window_size` bytes: the image has one cluster for each transfer block
/// that shows the window.
pub open spec fn image_last_cluster(window_size: nat) -> int {
    first_cluster(UF2_INDEX as int) + blocks_in_window(window_size) - 1
}

/// Entry `cluster` of the FAT, on a flash window of `window_size` bytes.
///
/// The first two entries are markers.  Each static file has one cluster,
/// which ends its chain.  The clusters of the flash image follow, each
/// pointing to the next and the last one ending the chain.  All other
/// clusters are free.
pub open spec fn fat_entry(window_size: nat, cluster: int) -> int {
    if cluster == 0 {
        FAT_MEDIA_ENTRY as int
    } else if cluster == 1 {
        FAT_END_OF_CHAIN as int
    } else if FIRST_CLUSTER <= cluster < first_cluster(UF2_INDEX as int) {
        FAT_END_OF_CHAIN as int
    } else if first_cluster(UF2_INDEX as int) <= cluster < image_last_cluster(window_size) {
        cluster + 1
    } else if cluster == image_last_cluster(window_size) {
        FAT_END_OF_CHAIN as int
    } else {
        FAT_FREE as int
    }
}

/// Block `index` of the FAT: 256 entries of two bytes, low byte first.
pub open spec fn fat_sector(window_size: nat, index: int) -> Seq<u8> {
    Seq::new(
        BLOCK_SIZE as nat,
        |at: int|
            {
                let entry = fat_entry(window_size, index * FAT_ENTRIES_PER_SECTOR + at / 2);
                if at % 2 == 0 {
                    (entry % 256) as u8
                } else {
                    (entry / 256) as u8
                }
            },
    )
}

/// Writes block `index` of the FAT into `block`.
pub fn write_fat_sector(window_size: u32, index: u32, block: &mut [u8])
    requires
        index < SECTORS_PER_FAT,
        old(block)@.len() == BLOCK_SIZE,
    ensures
        final(block)@ == fat_sector(window_size as nat, index as int),
{
    let image_first: u32 = FIRST_CLUSTER + UF2_INDEX as u32;
    let image_last: u32 = image_first + ((window_size as u64 + 255) / 256) as u32 - 1;
    let mut i: usize = 0;
    while i < FAT_ENTRIES_PER_SECTOR
        invariant
            i <= FAT_ENTRIES_PER_SECTOR,
            index < SECTORS_PER_FAT,
            block@.len() == BLOCK_SIZE,
            image_first == first_cluster(UF2_INDEX as int),
            image_last == image_last_cluster(window_size as nat),
            forall|at: int|
                0 <= at < 2 * i ==> block@[at] == fat_sector(window_size as nat, index as int)[at],
        decreases FAT_ENTRIES_PER_SECTOR - i,
    {
        let cluster: u32 = index * FAT_ENTRIES_PER_SECTOR as u32 + i as u32;
        let entry: u32 = if cluster == 0 {
            FAT_MEDIA_ENTRY as u32
        } else if cluster < image_first {
            FAT_END_OF_CHAIN as u32
        } else if cluster < image_last {
            cluster + 1
        } else if cluster == image_last {
            FAT_END_OF_CHAIN as u32
        } else {
            FAT_FREE as u32
        };
        assert(entry == fat_entry(window_size as nat, cluster as int));
        assert((2 * i) / 2 == i && (2 * i + 1) / 2 == i);
        block[2 * i] = (entry % 256) as u8;
        block[2 * i + 1] = (entry / 256) as u8;
        i += 1;
    }
    assert(block@ =~= fat_sector(window_size as nat, index as int));
}

/// The chain of every file is as long as the file: a file of `n` clusters
/// has `n - 1` entries that point to the next cluster, and the end-of-chain
/// marker in the entry of its last cluster.
pub proof fn lemma_fat_chain(files: [FatFile; 3], window_size: nat, slot: int, step: int)
    requires
        crate::catalog::catalog_shape(files),
        0 <= slot < CATALOG_SIZE,
        0 < window_size,
        0 <= step < files[slot].clusters(window_size),
    ensures
        step < files[slot].clusters(window_size) - 1 ==> fat_entry(
            window_size,
            first_cluster(slot) + step,
        ) == first_cluster(slot) + step + 1,
        step == files[slot].clusters(window_size) - 1 ==> fat_entry(
            window_size,
            first_cluster(slot) + step,
        ) == FAT_END_OF_CHAIN,
{
    if slot < UF2_INDEX {
        assert(files[slot].content is Static);
    }
}

/// Every file has as many clusters as the bytes that it takes on the volume
/// need, and at least one: a static file one for its text, the flash image
/// one for each transfer block.  The chains of the files follow one another
/// without a gap, and no cluster behind the last chain is in use.
pub proof fn lemma_fat_covers(files: [FatFile; 3], window_size: nat, slot: int, cluster: int)
    requires
        crate::catalog::catalog_shape(files),
        0 <= slot < CATALOG_SIZE,
        0 < window_size,
    ensures
        files[slot].clusters(window_size) == cluster_count(files[slot].stored_size(window_size)),
        files[slot].clusters(window_size) >= 1,
        files[slot].content is Static ==> files[slot].clusters(window_size) == 1,
        files[slot].content is Uf2 ==> files[slot].clusters(window_size) == blocks_in_window(
            window_size,
        ),
        slot + 1 < CATALOG_SIZE ==> first_cluster(slot + 1) == first_cluster(slot)
            + files[slot].clusters(window_size),
        cluster > image_last_cluster(window_size) ==> fat_entry(window_size, cluster) == FAT_FREE,
        image_last_cluster(window_size) == first_cluster(UF2_INDEX as int)
            + files[UF2_INDEX as int].clusters(window_size) - 1,
{
    if slot < UF2_INDEX {
        assert(files[slot].content is Static);
    }
    let blocks = blocks_in_window(window_size);
    assert((blocks * 512 + 512 - 1) / 512 == blocks);
}

/// Where an entry of the FAT stands in the FAT's blocks: entry `cluster` is
/// in block `cluster / 256`, at the two bytes from `2 * (cluster % 256)` on,
/// low byte first.
pub proof fn lemma_fat_sector_entry(window_size: nat, cluster: int)
    requires
        0 <= cluster < SECTORS_PER_FAT * FAT_ENTRIES_PER_SECTOR,
    ensures
        fat_sector(window_size, cluster / 256).len() == BLOCK_SIZE,
        0 <= fat_entry(window_size, cluster) <= u16::MAX,
        fat_sector(window_size, cluster / 256).subrange(
            2 * (cluster % 256),
            2 * (cluster % 256) + 2,
        ) == crate::wire::le16(fat_entry(window_size, cluster) as u16),
{
    reveal(crate::wire::le16);
    let sector = fat_sector(window_size, cluster / 256);
    let at = 2 * (cluster % 256);
    assert((cluster / 256) * 256 + at / 2 == cluster);
    assert((cluster / 256) * 256 + (at + 1) / 2 == cluster);
    assert(sector.subrange(at, at + 2) =~= crate::wire::le16(
        fat_entry(window_size, cluster) as u16,
    ));
}

/// The boot sector starts with the parameter block and ends with the
/// signature 0x55, 0xAA.
pub proof fn lemma_boot_sector(boot: FatBootBlock)
    ensures
        boot_sector(boot).len() == BLOCK_SIZE,
        boot_sector(boot).subrange(0, FatBootBlock::BYTES as int) == boot.packed(),
        boot_sector(boot)[510] == 0x55,
        boot_sector(boot)[511] == 0xAA,
{
    boot.lemma_layout();
    assert(boot_sector(boot).subrange(0, FatBootBlock::BYTES as int) =~= boot.packed());
}

/// The boot sector: the parameter block, zeros, and the signature in the
/// last two bytes.
pub open spec fn boot_sector(boot: FatBootBlock) -> Seq<u8> {
    boot.packed() + zeros((BLOCK_SIZE - 2 - FatBootBlock::BYTES) as nat) + BOOT_SIGNATURE@
}

/// Writes the boot sector into `block`.
pub fn write_boot_sector(boot: &FatBootBlock, block: &mut [u8])
    requires
        old(block)@.len() == BLOCK_SIZE,
    ensures
        final(block)@ == boot_sector(*boot),
{
    crate::wire::fill(block, 0);
    let _ = boot.pack(block);
    block[510] = 0x55;
    block[511] = 0xAA;
    proof {
        boot.lemma_layout();
        assert(block@ =~= boot_sector(*boot));
    }
}

/// The directory entry that holds the volume's label.
pub open spec fn volume_label_entry(label: [u8; 11]) -> DirectoryEntry {
    DirectoryEntry {
        name: label,
        attrs: VOLUME_LABEL_ATTRS,
        _reserved: 0,
        create_time_fine: 0,
        create_time: 0,
        create_date: 0,
        last_access_date: 0,
        high_start_cluster: 0,
        update_time: 0,
        update_date: 0,
        start_cluster: 0,
        size: 0,
    }
}

/// The directory entry of the file in catalog slot `slot`, on a flash window
/// of `window_size` bytes.
pub open spec fn file_entry(file: FatFile, slot: int, window_size: nat) -> DirectoryEntry {
    DirectoryEntry {
        name: file.name,
        attrs: 0,
        _reserved: 0,
        create_time_fine: 0,
        create_time: 0,
        create_date: 0,
        last_access_date: 0,
        high_start_cluster: 0,
        update_time: 0,
        update_date: 0,
        start_cluster: first_cluster(slot) as u16,
        size: file.size(window_size) as u32,
    }
}

/// Block `index` of the root directory.  The first block holds the label's
/// entry and one entry for each file, in the order of the catalog; all that
/// follows is zero.
pub open spec fn directory_sector(
    label: [u8; 11],
    files: [FatFile; 3],
    window_size: nat,
    index: int,
) -> Seq<u8> {
    if index == 0 {
        volume_label_entry(label).packed() + file_entry(files[0], 0, window_size).packed()
            + file_entry(files[1], 1, window_size).packed() + file_entry(
            files[2],
            2,
            window_size,
        ).packed() + zeros((BLOCK_SIZE - (CATALOG_SIZE + 1) * DirectoryEntry::BYTES) as nat)
    } else {
        zeros(BLOCK_SIZE as nat)
    }
}

/// The first block of the root directory holds the label and then the files
/// in the order of the catalog, each under its name and with its first
/// cluster; a static file's size is the length of its text, and the flash
/// image's size is the size of the flash window.  What follows the entries
/// is zero.
pub proof fn lemma_directory_entries(
    label: [u8; 11],
    files: [FatFile; 3],
    window_size: nat,
    slot: int,
)
    requires
        0 <= slot < CATALOG_SIZE,
        window_size <= u32::MAX,
    ensures
        directory_sector(label, files, window_size, 0).len() == BLOCK_SIZE,
        entry_bytes(directory_sector(label, files, window_size, 0), 0) == volume_label_entry(
            label,
        ).packed(),
        entry_bytes(directory_sector(label, files, window_size, 0), slot + 1) == file_entry(
            files[slot],
            slot,
            window_size,
        ).packed(),
        file_entry(files[slot], slot, window_size).name == files[slot].name,
        file_entry(files[slot], slot, window_size).start_cluster == first_cluster(slot),
        files[slot].content is Static ==> file_entry(files[slot], slot, window_size).size
            == STATIC_SIZE,
        files[slot].content is Uf2 ==> file_entry(files[slot], slot, window_size).size
            == window_size,
        forall|at: int|
            (CATALOG_SIZE + 1) * DirectoryEntry::BYTES <= at < BLOCK_SIZE ==> directory_sector(
                label,
                files,
                window_size,
                0,
            )[at] == 0,
{
    let sector = directory_sector(label, files, window_size, 0);
    crate::wire::lemma_le_len();
    volume_label_entry(label).lemma_layout();
    file_entry(files[0], 0, window_size).lemma_layout();
    file_entry(files[1], 1, window_size).lemma_layout();
    file_entry(files[2], 2, window_size).lemma_layout();
    assert(entry_bytes(sector, 0) =~= volume_label_entry(label).packed());
    assert(entry_bytes(sector, 1) =~= file_entry(files[0], 0, window_size).packed());
    assert(entry_bytes(sector, 2) =~= file_entry(files[1], 1, window_size).packed());
    assert(entry_bytes(sector, 3) =~= file_entry(files[2], 2, window_size).packed());
}

/// The first clusters of the files ascend with the catalog slots, so no two
/// files share one.
pub proof fn lemma_first_clusters_ascend(
    files: [FatFile; 3],
    window_size: nat,
    slot: int,
    later: int,
)
    requires
        0 <= slot < later < CATALOG_SIZE,
    ensures
        file_entry(files[slot], slot, window_size).start_cluster < file_entry(
            files[later],
            later,
            window_size,
        ).start_cluster,
{
}

/// The bytes of entry `number` of a directory block.
pub open spec fn entry_bytes(block: Seq<u8>, number: int) -> Seq<u8> {
    block.subrange(number * DirectoryEntry::BYTES, (number + 1) * DirectoryEntry::BYTES)
}

/// Writes block `index` of the root directory into `block`.
pub fn write_directory_sector(
    label: &[u8; 11],
    files: &[FatFile; 3],
    window_size: u32,
    index: u32,
    block: &mut [u8],
)
    requires
        old(block)@.len() == BLOCK_SIZE,
    ensures
        final(block)@ == directory_sector(*label, *files, window_size as nat, index as int),
{
    crate::wire::fill(block, 0);
    if index != 0 {
        assert(block@ =~= zeros(BLOCK_SIZE as nat));
        return ;
    }
    let mut entry = DirectoryEntry::default();
    entry.name = *label;
    entry.attrs = VOLUME_LABEL_ATTRS;
    let mut packed = [0u8; 32];
    let _ = entry.pack(&mut packed);
    copy_into(block, 0, &packed);
    proof {
        assert(entry == volume_label_entry(*label));
        entry.lemma_layout();
        assert(packed@ =~= entry.packed());
        assert(entry_bytes(block@, 0) =~= entry.packed());
    }
    entry.attrs = 0;
    let mut slot: usize = 0;
    while slot < CATALOG_SIZE
        invariant
            slot <= CATALOG_SIZE,
            block@.len() == BLOCK_SIZE,
            entry.attrs == 0,
            entry._reserved == 0,
            entry.create_time_fine == 0,
            entry.create_time == 0,
            entry.create_date == 0,
            entry.last_access_date == 0,
            entry.high_start_cluster == 0,
            entry.update_time == 0,
            entry.update_date == 0,
            entry_bytes(block@, 0) == volume_label_entry(*label).packed(),
            forall|done: int|
                0 <= done < slot ==> #[trigger] entry_bytes(block@, done + 1) == file_entry(
                    files[done],
                    done,
                    window_size as nat,
                ).packed(),
            forall|at: int| (slot + 1) * DirectoryEntry::BYTES <= at < BLOCK_SIZE ==> block@[at] == 0,
        decreases CATALOG_SIZE - slot,
    {
        let file = &files[slot];
        entry.name = file.name;
        entry.start_cluster = slot as u16 + FIRST_CLUSTER as u16;
        entry.size = match file.content {
            FatFileContent::Static(_) => STATIC_SIZE as u32,
            FatFileContent::Uf2 => window_size,
        };
        let _ = entry.pack(&mut packed);
        let ghost before = block@;
        copy_into(block, (slot + 1) * DirectoryEntry::BYTES, &packed);
        proof {
            assert(entry == file_entry(files[slot as int], slot as int, window_size as nat));
            entry.lemma_layout();
            assert(packed@ =~= entry.packed());
            assert(entry_bytes(block@, 0) =~= entry_bytes(before, 0));
            assert(entry_bytes(block@, slot + 1) =~= entry.packed());
            assert forall|done: int| 0 <= done < slot implies #[trigger] entry_bytes(
                block@,
                done + 1,
            ) == file_entry(files[done], done, window_size as nat).packed() by {
                assert(entry_bytes(block@, done + 1) =~= entry_bytes(before, done + 1));
            }
        }
        slot += 1;
    }
    proof {
        let wanted = directory_sector(*label, *files, window_size as nat, 0);
        volume_label_entry(*label).lemma_layout();
        file_entry(files[0], 0, window_size as nat).lemma_layout();
        file_entry(files[1], 1, window_size as nat).lemma_layout();
        file_entry(files[2], 2, window_size as nat).lemma_layout();
        assert(entry_bytes(block@, 0int + 1) == file_entry(files[0], 0, window_size as nat).packed());
        assert(entry_bytes(block@, 1int + 1) == file_entry(files[1], 1, window_size as nat).packed());
        assert(entry_bytes(block@, 2int + 1) == file_entry(files[2], 2, window_size as nat).packed());
        assert forall|at: int| 0 <= at < BLOCK_SIZE implies block@[at] == wanted[at] by {
            if at < 32 {
                assert(block@[at] == entry_bytes(block@, 0)[at]);
            } else if at < 64 {
                assert(block@[at] == entry_bytes(block@, 1)[at - 32]);
            } else if at < 96 {
                assert(block@[at] == entry_bytes(block@, 2)[at - 64]);
            } else if at < 128 {
                assert(block@[at] == entry_bytes(block@, 3)[at - 96]);
            }
        }
        assert(block@ =~= wanted);
    }
}

/// The cluster of a static file: its text, then zeros.
pub open spec fn static_sector(text: [u8; 255]) -> Seq<u8> {
    text@ + zeros((BLOCK_SIZE - STATIC_SIZE) as nat)
}

/// Writes the cluster of the static file with the text `text` into `block`.
pub fn write_static_sector(text: &[u8; 255], block: &mut [u8])
    requires
        old(block)@.len() == BLOCK_SIZE,
    ensures
        final(block)@ == static_sector(*text),
{
    crate::wire::fill(block, 0);
    copy_into(block, 0, text);
    assert(block@ =~= static_sector(*text));
}

} // verus!
