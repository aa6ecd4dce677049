//! The two legacy control records of a FAT16 volume, and their byte-exact
//! layouts: the boot sector's parameter block and the 32-byte directory
//! entry.  All multi-byte fields are little-endian.

use crate::geometry::{NUM_FAT_BLOCKS, RESERVED_SECTORS, ROOT_DIR_SECTORS, SECTORS_PER_FAT};
use crate::wire::{copy_into, le16, le32, lemma_le16_injective, lemma_le16_write_back,
    lemma_le32_injective, lemma_le32_write_back, padded, read_array, read_le16, read_le32,
    space_padded, splice, write_le16, write_le32, ASCII_SPACE};
use vstd::prelude::*;
use vstd::string::StringSliceAdditionalSpecFns;

verus! {

/// Why packing or unpacking a record failed.
#[derive(Debug, Clone, Copy, PartialEq, Eq, Structural)]
pub enum PackingError {
    /// The buffer is shorter than the record.
    InsufficientBytes,
}

/// A directory entry of the root directory.
#[derive(Clone, Copy, Debug, PartialEq, Eq)]
pub struct DirectoryEntry {
    /// The 8.3 name, space-padded, without the dot.
    pub name: [u8; 11],
    /// The attribute bits.
    pub attrs: u8,
    /// Reserved; zero.
    pub _reserved: u8,
    /// Creation time, the part finer than two seconds.
    pub create_time_fine: u8,
    /// Creation time.
    pub create_time: u16,
    /// Creation date.
    pub create_date: u16,
    /// Date of the last access.
    pub last_access_date: u16,
    /// The high half of the first cluster's number; zero on FAT16.
    pub high_start_cluster: u16,
    /// Time of the last change.
    pub update_time: u16,
    /// Date of the last change.
    pub update_date: u16,
    /// The number of the file's first cluster.
    pub start_cluster: u16,
    /// The file's size in bytes.
    pub size: u32,
}

impl DirectoryEntry {
    /// The number of bytes that an entry packs to.
    pub const BYTES: usize = 32;

    /// The 32 bytes of the entry.
    pub open spec fn packed(self) -> Seq<u8> {
        self.name@ + seq![self.attrs, self._reserved, self.create_time_fine] + le16(
            self.create_time,
        ) + le16(self.create_date) + le16(self.last_access_date) + le16(self.high_start_cluster)
            + le16(self.update_time) + le16(self.update_date) + le16(self.start_cluster) + le32(
            self.size,
        )
    }

    /// Where each field stands among the 32 bytes.
    pub proof fn lemma_layout(self)
        ensures
            self.packed().len() == Self::BYTES,
            self.packed().subrange(0, 11) == self.name@,
            self.packed()[11] == self.attrs,
            self.packed()[12] == self._reserved,
            self.packed()[13] == self.create_time_fine,
            self.packed().subrange(14, 16) == le16(self.create_time),
            self.packed().subrange(16, 18) == le16(self.create_date),
            self.packed().subrange(18, 20) == le16(self.last_access_date),
            self.packed().subrange(20, 22) == le16(self.high_start_cluster),
            self.packed().subrange(22, 24) == le16(self.update_time),
            self.packed().subrange(24, 26) == le16(self.update_date),
            self.packed().subrange(26, 28) == le16(self.start_cluster),
            self.packed().subrange(28, 32) == le32(self.size),
    {
        crate::wire::lemma_le_len();
        let p = self.packed();
        assert(p.subrange(0, 11) =~= self.name@);
        assert(p.subrange(14, 16) =~= le16(self.create_time));
        assert(p.subrange(16, 18) =~= le16(self.create_date));
        assert(p.subrange(18, 20) =~= le16(self.last_access_date));
        assert(p.subrange(20, 22) =~= le16(self.high_start_cluster));
        assert(p.subrange(22, 24) =~= le16(self.update_time));
        assert(p.subrange(24, 26) =~= le16(self.update_date));
        assert(p.subrange(26, 28) =~= le16(self.start_cluster));
        assert(p.subrange(28, 32) =~= le32(self.size));
    }

    /// Unpacking inverts packing: entries with the same bytes agree in every
    /// field.
    pub proof fn lemma_round_trip(self, other: DirectoryEntry)
        requires
            self.packed() == other.packed(),
        ensures
            self == other,
    {
        self.lemma_layout();
        other.lemma_layout();
        lemma_le16_injective(self.create_time, other.create_time);
        lemma_le32_injective(self.size, other.size);
        lemma_le16_injective(self.create_date, other.create_date);
        lemma_le16_injective(self.last_access_date, other.last_access_date);
        lemma_le16_injective(self.high_start_cluster, other.high_start_cluster);
        lemma_le16_injective(self.update_time, other.update_time);
        lemma_le16_injective(self.update_date, other.update_date);
        lemma_le16_injective(self.start_cluster, other.start_cluster);
        assert(self.name =~= other.name);
    }

    /// Packing and then unpacking gives the entry back: whatever unpacks
    /// from a buffer into which `self` was packed is `self`.
    pub proof fn lemma_pack_then_unpack(self, buffer: Seq<u8>, unpacked: DirectoryEntry)
        requires
            buffer.len() >= Self::BYTES,
            unpacked.packed() == splice(buffer, 0, self.packed()).subrange(0, Self::BYTES as int),
        ensures
            unpacked == self,
    {
        self.lemma_layout();
        assert(splice(buffer, 0, self.packed()).subrange(0, Self::BYTES as int)
            =~= self.packed());
        self.lemma_round_trip(unpacked);
    }

    /// Writes the entry into the first 32 bytes of `bytes` and leaves the
    /// rest as it is; refuses a shorter buffer, which it leaves untouched.
    pub fn pack(&self, bytes: &mut [u8]) -> (res: Result<(), PackingError>)
        ensures
            old(bytes)@.len() < Self::BYTES ==> res == Err::<(), PackingError>(
                PackingError::InsufficientBytes,
            ) && final(bytes)@ == old(bytes)@,
            old(bytes)@.len() >= Self::BYTES ==> res is Ok && final(bytes)@ == splice(
                old(bytes)@,
                0,
                self.packed(),
            ),
    {
        if bytes.len() < Self::BYTES {
            return Err(PackingError::InsufficientBytes);
        }
        copy_into(bytes, 0, &self.name);
        bytes[11] = self.attrs;
        bytes[12] = self._reserved;
        bytes[13] = self.create_time_fine;
        write_le16(bytes, 14, self.create_time);
        write_le16(bytes, 16, self.create_date);
        write_le16(bytes, 18, self.last_access_date);
        write_le16(bytes, 20, self.high_start_cluster);
        write_le16(bytes, 22, self.update_time);
        write_le16(bytes, 24, self.update_date);
        write_le16(bytes, 26, self.start_cluster);
        write_le32(bytes, 28, self.size);
        proof {
            self.lemma_layout();
            assert(bytes@ =~= splice(old(bytes)@, 0, self.packed()));
        }
        Ok(())
    }

    /// Reads an entry from the first 32 bytes of `bytes`; refuses a shorter
    /// buffer.
    pub fn unpack(bytes: &[u8]) -> (res: Result<DirectoryEntry, PackingError>)
        ensures
            bytes@.len() < Self::BYTES ==> res == Err::<DirectoryEntry, PackingError>(
                PackingError::InsufficientBytes,
            ),
            bytes@.len() >= Self::BYTES ==> res is Ok && res->Ok_0.packed() == bytes@.subrange(
                0,
                Self::BYTES as int,
            ),
    {
        if bytes.len() < Self::BYTES {
            return Err(PackingError::InsufficientBytes);
        }
        let entry = DirectoryEntry {
            name: read_array::<11>(bytes, 0),
            attrs: bytes[11],
            _reserved: bytes[12],
            create_time_fine: bytes[13],
            create_time: read_le16(bytes, 14),
            create_date: read_le16(bytes, 16),
            last_access_date: read_le16(bytes, 18),
            high_start_cluster: read_le16(bytes, 20),
            update_time: read_le16(bytes, 22),
            update_date: read_le16(bytes, 24),
            start_cluster: read_le16(bytes, 26),
            size: read_le32(bytes, 28),
        };
        proof {
            lemma_le16_write_back(bytes@.subrange(14, 16));
            lemma_le16_write_back(bytes@.subrange(16, 18));
            lemma_le16_write_back(bytes@.subrange(18, 20));
            lemma_le16_write_back(bytes@.subrange(20, 22));
            lemma_le16_write_back(bytes@.subrange(22, 24));
            lemma_le16_write_back(bytes@.subrange(24, 26));
            lemma_le16_write_back(bytes@.subrange(26, 28));
            lemma_le32_write_back(bytes@.subrange(28, 32));
            entry.lemma_layout();
            assert(entry.packed() =~= bytes@.subrange(0, Self::BYTES as int));
        }
        Ok(entry)
    }
}

impl Default for DirectoryEntry {
    /// The entry with every byte zero.
    fn default() -> (entry: DirectoryEntry)
        ensures
            entry.name@ == crate::wire::zeros(11),
            entry.attrs == 0,
            entry._reserved == 0,
            entry.create_time_fine == 0,
            entry.create_time == 0,
            entry.create_date == 0,
            entry.last_access_date == 0,
            entry.high_start_cluster == 0,
            entry.update_time == 0,
            entry.update_date == 0,
            entry.start_cluster == 0,
            entry.size == 0,
    {
        let entry = DirectoryEntry {
            name: [0u8; 11],
            attrs: 0,
            _reserved: 0,
            create_time_fine: 0,
            create_time: 0,
            create_date: 0,
            last_access_date: 0,
            high_start_cluster: 0,
            update_time: 0,
            update_date: 0,
            start_cluster: 0,
            size: 0,
        };
        assert(entry.name@ =~= crate::wire::zeros(11));
        entry
    }
}

/// The parameter block at the start of the boot sector.
#[derive(Clone, Copy, Eq, PartialEq, Debug)]
pub struct FatBootBlock {
    /// The jump over the parameter block.
    pub jump_instruction: [u8; 3],
    /// Who formatted the volume.
    pub oem_info: [u8; 8],
    /// Bytes per sector.
    pub sector_size: u16,
    /// Sectors per cluster.
    pub sectors_per_cluster: u8,
    /// Sectors before the first FAT copy.
    pub reserved_sectors: u16,
    /// FAT copies.
    pub fat_copies: u8,
    /// Entries that the root directory has room for.
    pub root_directory_entries: u16,
    /// Sectors of the volume, where the number fits in 16 bits.
    pub total_sectors16: u16,
    /// The media descriptor.
    pub media_descriptor: u8,
    /// Sectors of one FAT copy.
    pub sectors_per_fat: u16,
    /// Sectors per track.
    pub sectors_per_track: u16,
    /// Heads.
    pub heads: u16,
    /// Sectors before the volume.
    pub hidden_sectors: u32,
    /// Sectors of the volume, as a 32-bit number.
    pub total_sectors32: u32,
    /// The BIOS number of the drive.
    pub physical_drive_num: u8,
    /// Reserved; zero.
    pub _reserved: u8,
    /// Marks the three fields that follow as present.
    pub extended_boot_sig: u8,
    /// The volume's serial number.
    pub volume_serial_number: u32,
    /// The volume's label, space-padded.
    pub volume_label: [u8; 11],
    /// The name of the file system, space-padded.
    pub filesystem_identifier: [u8; 8],
}

impl FatBootBlock {
    /// The number of bytes that a parameter block packs to.
    pub const BYTES: usize = 62;

    /// The 62 bytes of the parameter block.
    pub open spec fn packed(self) -> Seq<u8> {
        self.jump_instruction@ + self.oem_info@ + le16(self.sector_size)
            + seq![self.sectors_per_cluster] + le16(self.reserved_sectors) + seq![self.fat_copies]
            + le16(self.root_directory_entries) + le16(self.total_sectors16)
            + seq![self.media_descriptor] + le16(self.sectors_per_fat) + le16(
            self.sectors_per_track,
        ) + le16(self.heads) + le32(self.hidden_sectors) + le32(self.total_sectors32)
            + seq![self.physical_drive_num, self._reserved, self.extended_boot_sig] + le32(
            self.volume_serial_number,
        ) + self.volume_label@ + self.filesystem_identifier@
    }

    /// Where each field stands among the 62 bytes.
    pub proof fn lemma_layout(self)
        ensures
            self.packed().len() == Self::BYTES,
            self.packed().subrange(0, 3) == self.jump_instruction@,
            self.packed().subrange(3, 11) == self.oem_info@,
            self.packed().subrange(11, 13) == le16(self.sector_size),
            self.packed()[13] == self.sectors_per_cluster,
            self.packed().subrange(14, 16) == le16(self.reserved_sectors),
            self.packed()[16] == self.fat_copies,
            self.packed().subrange(17, 19) == le16(self.root_directory_entries),
            self.packed().subrange(19, 21) == le16(self.total_sectors16),
            self.packed()[21] == self.media_descriptor,
            self.packed().subrange(22, 24) == le16(self.sectors_per_fat),
            self.packed().subrange(24, 26) == le16(self.sectors_per_track),
            self.packed().subrange(26, 28) == le16(self.heads),
            self.packed().subrange(28, 32) == le32(self.hidden_sectors),
            self.packed().subrange(32, 36) == le32(self.total_sectors32),
            self.packed()[36] == self.physical_drive_num,
            self.packed()[37] == self._reserved,
            self.packed()[38] == self.extended_boot_sig,
            self.packed().subrange(39, 43) == le32(self.volume_serial_number),
            self.packed().subrange(43, 54) == self.volume_label@,
            self.packed().subrange(54, 62) == self.filesystem_identifier@,
    {
        crate::wire::lemma_le_len();
        let p = self.packed();
        assert(p.subrange(0, 3) =~= self.jump_instruction@);
        assert(p.subrange(3, 11) =~= self.oem_info@);
        assert(p.subrange(11, 13) =~= le16(self.sector_size));
        assert(p.subrange(14, 16) =~= le16(self.reserved_sectors));
        assert(p.subrange(17, 19) =~= le16(self.root_directory_entries));
        assert(p.subrange(19, 21) =~= le16(self.total_sectors16));
        assert(p.subrange(22, 24) =~= le16(self.sectors_per_fat));
        assert(p.subrange(24, 26) =~= le16(self.sectors_per_track));
        assert(p.subrange(26, 28) =~= le16(self.heads));
        assert(p.subrange(28, 32) =~= le32(self.hidden_sectors));
        assert(p.subrange(32, 36) =~= le32(self.total_sectors32));
        assert(p.subrange(39, 43) =~= le32(self.volume_serial_number));
        assert(p.subrange(43, 54) =~= self.volume_label@);
        assert(p.subrange(54, 62) =~= self.filesystem_identifier@);
    }

    /// Unpacking inverts packing: parameter blocks with the same bytes agree
    /// in every field.
    pub proof fn lemma_round_trip(self, other: FatBootBlock)
        requires
            self.packed() == other.packed(),
        ensures
            self == other,
    {
        self.lemma_layout();
        other.lemma_layout();
        lemma_le16_injective(self.sector_size, other.sector_size);
        lemma_le16_injective(self.reserved_sectors, other.reserved_sectors);
        lemma_le16_injective(self.root_directory_entries, other.root_directory_entries);
        lemma_le32_injective(self.hidden_sectors, other.hidden_sectors);
        lemma_le32_injective(self.total_sectors32, other.total_sectors32);
        lemma_le32_injective(self.volume_serial_number, other.volume_serial_number);
        lemma_le16_injective(self.total_sectors16, other.total_sectors16);
        lemma_le16_injective(self.sectors_per_fat, other.sectors_per_fat);
        lemma_le16_injective(self.sectors_per_track, other.sectors_per_track);
        lemma_le16_injective(self.heads, other.heads);
        assert(self.jump_instruction =~= other.jump_instruction);
        assert(self.oem_info =~= other.oem_info);
        assert(self.volume_label =~= other.volume_label);
        assert(self.filesystem_identifier =~= other.filesystem_identifier);
    }

    /// Packing and then unpacking gives the parameter block back: whatever unpacks
    /// from a buffer into which `self` was packed is `self`.
    pub proof fn lemma_pack_then_unpack(self, buffer: Seq<u8>, unpacked: FatBootBlock)
        requires
            buffer.len() >= Self::BYTES,
            unpacked.packed() == splice(buffer, 0, self.packed()).subrange(0, Self::BYTES as int),
        ensures
            unpacked == self,
    {
        self.lemma_layout();
        assert(splice(buffer, 0, self.packed()).subrange(0, Self::BYTES as int)
            =~= self.packed());
        self.lemma_round_trip(unpacked);
    }

    /// Writes the parameter block into the first 62 bytes of `bytes` and
    /// leaves the rest as it is; refuses a shorter buffer, which it leaves
    /// untouched.
    pub fn pack(&self, bytes: &mut [u8]) -> (res: Result<(), PackingError>)
        ensures
            old(bytes)@.len() < Self::BYTES ==> res == Err::<(), PackingError>(
                PackingError::InsufficientBytes,
            ) && final(bytes)@ == old(bytes)@,
            old(bytes)@.len() >= Self::BYTES ==> res is Ok && final(bytes)@ == splice(
                old(bytes)@,
                0,
                self.packed(),
            ),
    {
        if bytes.len() < Self::BYTES {
            return Err(PackingError::InsufficientBytes);
        }
        copy_into(bytes, 0, &self.jump_instruction);
        copy_into(bytes, 3, &self.oem_info);
        write_le16(bytes, 11, self.sector_size);
        bytes[13] = self.sectors_per_cluster;
        write_le16(bytes, 14, self.reserved_sectors);
        bytes[16] = self.fat_copies;
        write_le16(bytes, 17, self.root_directory_entries);
        write_le16(bytes, 19, self.total_sectors16);
        bytes[21] = self.media_descriptor;
        write_le16(bytes, 22, self.sectors_per_fat);
        write_le16(bytes, 24, self.sectors_per_track);
        write_le16(bytes, 26, self.heads);
        write_le32(bytes, 28, self.hidden_sectors);
        write_le32(bytes, 32, self.total_sectors32);
        bytes[36] = self.physical_drive_num;
        bytes[37] = self._reserved;
        bytes[38] = self.extended_boot_sig;
        write_le32(bytes, 39, self.volume_serial_number);
        copy_into(bytes, 43, &self.volume_label);
        copy_into(bytes, 54, &self.filesystem_identifier);
        proof {
            self.lemma_layout();
            assert(bytes@ =~= splice(old(bytes)@, 0, self.packed()));
        }
        Ok(())
    }

    /// Reads a parameter block from the first 62 bytes of `bytes`; refuses a
    /// shorter buffer.
    pub fn unpack(bytes: &[u8]) -> (res: Result<FatBootBlock, PackingError>)
        ensures
            bytes@.len() < Self::BYTES ==> res == Err::<FatBootBlock, PackingError>(
                PackingError::InsufficientBytes,
            ),
            bytes@.len() >= Self::BYTES ==> res is Ok && res->Ok_0.packed() == bytes@.subrange(
                0,
                Self::BYTES as int,
            ),
    {
        if bytes.len() < Self::BYTES {
            return Err(PackingError::InsufficientBytes);
        }
        let block = FatBootBlock {
            jump_instruction: read_array::<3>(bytes, 0),
            oem_info: read_array::<8>(bytes, 3),
            sector_size: read_le16(bytes, 11),
            sectors_per_cluster: bytes[13],
            reserved_sectors: read_le16(bytes, 14),
            fat_copies: bytes[16],
            root_directory_entries: read_le16(bytes, 17),
            total_sectors16: read_le16(bytes, 19),
            media_descriptor: bytes[21],
            sectors_per_fat: read_le16(bytes, 22),
            sectors_per_track: read_le16(bytes, 24),
            heads: read_le16(bytes, 26),
            hidden_sectors: read_le32(bytes, 28),
            total_sectors32: read_le32(bytes, 32),
            physical_drive_num: bytes[36],
            _reserved: bytes[37],
            extended_boot_sig: bytes[38],
            volume_serial_number: read_le32(bytes, 39),
            volume_label: read_array::<11>(bytes, 43),
            filesystem_identifier: read_array::<8>(bytes, 54),
        };
        proof {
            lemma_le16_write_back(bytes@.subrange(11, 13));
            lemma_le16_write_back(bytes@.subrange(14, 16));
            lemma_le16_write_back(bytes@.subrange(17, 19));
            lemma_le16_write_back(bytes@.subrange(19, 21));
            lemma_le16_write_back(bytes@.subrange(22, 24));
            lemma_le16_write_back(bytes@.subrange(24, 26));
            lemma_le16_write_back(bytes@.subrange(26, 28));
            lemma_le32_write_back(bytes@.subrange(28, 32));
            lemma_le32_write_back(bytes@.subrange(32, 36));
            lemma_le32_write_back(bytes@.subrange(39, 43));
            block.lemma_layout();
            assert(block.packed() =~= bytes@.subrange(0, Self::BYTES as int));
        }
        Ok(block)
    }
}

/// Whether `block` is the parameter block of this volume: 512-byte sectors,
/// one sector per cluster, one reserved sector, two FAT copies, a root
/// directory of 64 entries, media descriptor 0xF8, and the labels
/// "UF2 UF2", "BLUEPILL" and "FAT16".
pub open spec fn is_volume_boot_block(block: FatBootBlock) -> bool {
    &&& block.jump_instruction@ == seq![0xEBu8, 0x3Cu8, 0x90u8]
    &&& block.oem_info@ == padded("UF2 UF2".spec_bytes(), 8, ASCII_SPACE)
    &&& block.sector_size == 512
    &&& block.sectors_per_cluster == 1
    &&& block.reserved_sectors == RESERVED_SECTORS
    &&& block.fat_copies == 2
    &&& block.root_directory_entries == ROOT_DIR_SECTORS * 512 / 32
    &&& block.total_sectors16 == NUM_FAT_BLOCKS - 2
    &&& block.media_descriptor == 0xF8
    &&& block.sectors_per_fat == SECTORS_PER_FAT
    &&& block.sectors_per_track == 1
    &&& block.heads == 1
    &&& block.hidden_sectors == 0
    &&& block.total_sectors32 == NUM_FAT_BLOCKS - 1
    &&& block.physical_drive_num == 0
    &&& block._reserved == 0
    &&& block.extended_boot_sig == 0x29
    &&& block.volume_serial_number == 0x00420042
    &&& block.volume_label@ == padded("BLUEPILL".spec_bytes(), 11, ASCII_SPACE)
    &&& block.filesystem_identifier@ == padded("FAT16".spec_bytes(), 8, ASCII_SPACE)
}

/// The parameter block of this volume.
pub fn fat_boot_block() -> (block: FatBootBlock)
    ensures
        is_volume_boot_block(block),
{
    FatBootBlock {
        jump_instruction: [0xEB, 0x3C, 0x90],
        oem_info: space_padded::<8>("UF2 UF2".as_bytes()),
        sector_size: 512,
        sectors_per_cluster: 1,
        reserved_sectors: RESERVED_SECTORS as u16,
        fat_copies: 2,
        root_directory_entries: (ROOT_DIR_SECTORS * 512 / 32) as u16,
        total_sectors16: (NUM_FAT_BLOCKS - 2) as u16,
        media_descriptor: 0xF8,
        sectors_per_fat: SECTORS_PER_FAT as u16,
        sectors_per_track: 1,
        heads: 1,
        hidden_sectors: 0,
        total_sectors32: NUM_FAT_BLOCKS - 1,
        physical_drive_num: 0,
        _reserved: 0,
        extended_boot_sig: 0x29,
        volume_serial_number: 0x00420042,
        volume_label: space_padded::<11>("BLUEPILL".as_bytes()),
        filesystem_identifier: space_padded::<8>("FAT16".as_bytes()),
    }
}

/// There is one parameter block of this volume.
pub proof fn lemma_volume_boot_block_unique(a: FatBootBlock, b: FatBootBlock)
    requires
        is_volume_boot_block(a),
        is_volume_boot_block(b),
    ensures
        a == b,
{
    assert(a.jump_instruction =~= b.jump_instruction);
    assert(a.oem_info =~= b.oem_info);
    assert(a.volume_label =~= b.volume_label);
    assert(a.filesystem_identifier =~= b.filesystem_identifier);
}

} // verus!
