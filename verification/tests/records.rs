use ghost_fat::wire::{read_le16, read_le32, space_padded, write_le16, write_le32};
use ghost_fat::{fat_boot_block, DirectoryEntry, FatBootBlock, PackingError};

fn sample_entry() -> DirectoryEntry {
    DirectoryEntry {
        name: *b"FIRMWAREBIN",
        attrs: 0x21,
        create_time_fine: 0x64,
        create_time: 0x1234,
        create_date: 0x5678,
        last_access_date: 0x9ABC,
        high_start_cluster: 0xDEF0,
        update_time: 0x1357,
        update_date: 0x2468,
        start_cluster: 0x0004,
        size: 0x1234_5678,
        ..DirectoryEntry::default()
    }
}

#[test]
fn little_endian_fields_put_the_low_byte_first() {
    let mut bytes = [0u8; 8];
    write_le16(&mut bytes, 1, 0x1234);
    write_le32(&mut bytes, 4, 0x89AB_CDEF);
    assert_eq!(bytes, [0, 0x34, 0x12, 0, 0xEF, 0xCD, 0xAB, 0x89]);
    assert_eq!(read_le16(&bytes, 1), 0x1234);
    assert_eq!(read_le32(&bytes, 4), 0x89AB_CDEF);
    assert_eq!(read_le16(&bytes, 2), 0x0012);
    assert_eq!(read_le32(&[0xFF, 0xFF, 0xFF, 0xFF], 0), u32::MAX);
    assert_eq!(read_le16(&[0xFF, 0xFF], 0), u16::MAX);
}

#[test]
fn space_padding_cuts_and_fills() {
    assert_eq!(space_padded::<4>(b"ab"), *b"ab  ");
    assert_eq!(space_padded::<4>(b"abcdef"), *b"abcd");
    assert_eq!(space_padded::<4>(b""), *b"    ");
    assert_eq!(space_padded::<0>(b"abc"), []);
}

#[test]
fn default_entry_is_all_zero() {
    let mut bytes = [0xEE; 32];
    assert_eq!(DirectoryEntry::default().pack(&mut bytes), Ok(()));
    assert_eq!(bytes, [0; 32]);
}

#[test]
fn entry_packs_to_its_32_bytes() {
    let mut bytes = [0xEE; 34];
    assert_eq!(sample_entry().pack(&mut bytes), Ok(()));
    let mut expected = Vec::new();
    expected.extend_from_slice(b"FIRMWAREBIN");
    expected.extend_from_slice(&[0x21, 0x00, 0x64]);
    expected.extend_from_slice(&[0x34, 0x12, 0x78, 0x56, 0xBC, 0x9A, 0xF0, 0xDE]);
    expected.extend_from_slice(&[0x57, 0x13, 0x68, 0x24, 0x04, 0x00]);
    expected.extend_from_slice(&[0x78, 0x56, 0x34, 0x12]);
    expected.extend_from_slice(&[0xEE, 0xEE]);
    assert_eq!(DirectoryEntry::BYTES, 32);
    assert_eq!(&bytes[..], &expected[..]);
}

#[test]
fn entry_unpacks_to_what_was_packed() {
    let mut bytes = [0u8; 32];
    assert_eq!(sample_entry().pack(&mut bytes), Ok(()));
    assert_eq!(DirectoryEntry::unpack(&bytes), Ok(sample_entry()));
    let mut longer = [0x11u8; 40];
    longer[..32].copy_from_slice(&bytes);
    assert_eq!(DirectoryEntry::unpack(&longer), Ok(sample_entry()));
}

#[test]
fn entry_unpacks_the_reserved_byte_too() {
    let mut bytes = [0u8; 32];
    bytes[12] = 0x99;
    let entry = DirectoryEntry::unpack(&bytes).unwrap();
    assert_eq!(entry._reserved, 0x99);
    let mut again = [0xFFu8; 32];
    assert_eq!(entry.pack(&mut again), Ok(()));
    assert_eq!(again, bytes);
}

#[test]
fn entry_refuses_a_short_buffer() {
    let mut bytes = [0xEE; 31];
    assert_eq!(sample_entry().pack(&mut bytes), Err(PackingError::InsufficientBytes));
    assert_eq!(bytes, [0xEE; 31]);
    assert_eq!(DirectoryEntry::unpack(&bytes), Err(PackingError::InsufficientBytes));
    assert_eq!(DirectoryEntry::unpack(&[]), Err(PackingError::InsufficientBytes));
}

#[test]
fn boot_block_of_the_volume() {
    let boot = fat_boot_block();
    assert_eq!(boot.jump_instruction, [0xEB, 0x3C, 0x90]);
    assert_eq!(&boot.oem_info, b"UF2 UF2 ");
    assert_eq!(boot.sector_size, 512);
    assert_eq!(boot.sectors_per_cluster, 1);
    assert_eq!(boot.reserved_sectors, 1);
    assert_eq!(boot.fat_copies, 2);
    assert_eq!(boot.root_directory_entries, 64);
    assert_eq!(boot.total_sectors16, 7998);
    assert_eq!(boot.media_descriptor, 0xF8);
    assert_eq!(boot.sectors_per_fat, 32);
    assert_eq!(boot.sectors_per_track, 1);
    assert_eq!(boot.heads, 1);
    assert_eq!(boot.hidden_sectors, 0);
    assert_eq!(boot.total_sectors32, 7999);
    assert_eq!(boot.physical_drive_num, 0);
    assert_eq!(boot._reserved, 0);
    assert_eq!(boot.extended_boot_sig, 0x29);
    assert_eq!(boot.volume_serial_number, 0x0042_0042);
    assert_eq!(&boot.volume_label, b"BLUEPILL   ");
    assert_eq!(&boot.filesystem_identifier, b"FAT16   ");
}

#[test]
fn boot_block_packs_to_its_62_bytes() {
    let mut bytes = [0xEE; 64];
    assert_eq!(fat_boot_block().pack(&mut bytes), Ok(()));
    let mut expected = Vec::new();
    expected.extend_from_slice(&[0xEB, 0x3C, 0x90]);
    expected.extend_from_slice(b"UF2 UF2 ");
    expected.extend_from_slice(&[0x00, 0x02, 0x01, 0x01, 0x00, 0x02, 0x40, 0x00, 0x3E, 0x1F]);
    expected.extend_from_slice(&[0xF8, 0x20, 0x00, 0x01, 0x00, 0x01, 0x00]);
    expected.extend_from_slice(&[0x00, 0x00, 0x00, 0x00, 0x3F, 0x1F, 0x00, 0x00]);
    expected.extend_from_slice(&[0x00, 0x00, 0x29, 0x42, 0x00, 0x42, 0x00]);
    expected.extend_from_slice(b"BLUEPILL   ");
    expected.extend_from_slice(b"FAT16   ");
    expected.extend_from_slice(&[0xEE, 0xEE]);
    assert_eq!(FatBootBlock::BYTES, 62);
    assert_eq!(&bytes[..], &expected[..]);
}

#[test]
fn boot_block_unpacks_to_what_was_packed() {
    let boot = FatBootBlock {
        jump_instruction: [1, 2, 3],
        oem_info: *b"ABCDEFGH",
        sector_size: 0x0102,
        sectors_per_cluster: 0x03,
        reserved_sectors: 0x0405,
        fat_copies: 0x06,
        root_directory_entries: 0x0708,
        total_sectors16: 0x090A,
        media_descriptor: 0x0B,
        sectors_per_fat: 0x0C0D,
        sectors_per_track: 0x0E0F,
        heads: 0x1011,
        hidden_sectors: 0x1213_1415,
        total_sectors32: 0x1617_1819,
        physical_drive_num: 0x1A,
        _reserved: 0x1B,
        extended_boot_sig: 0x1C,
        volume_serial_number: 0x1D1E_1F20,
        volume_label: *b"LABEL LABEL",
        filesystem_identifier: *b"FILESYST",
    };
    let mut bytes = [0u8; 62];
    assert_eq!(boot.pack(&mut bytes), Ok(()));
    assert_eq!(FatBootBlock::unpack(&bytes), Ok(boot));
    assert_eq!(bytes[37], 0x1B);
    assert_eq!(&bytes[28..36], &[0x15, 0x14, 0x13, 0x12, 0x19, 0x18, 0x17, 0x16]);
}

#[test]
fn boot_block_refuses_a_short_buffer() {
    let mut bytes = [0xEE; 61];
    assert_eq!(fat_boot_block().pack(&mut bytes), Err(PackingError::InsufficientBytes));
    assert_eq!(bytes, [0xEE; 61]);
    assert_eq!(FatBootBlock::unpack(&bytes), Err(PackingError::InsufficientBytes));
}
