use ghost_fat::transfer::{decode, decode_into, encode, encode_from, uf2_family_is_correct};
use ghost_fat::{FlashError, MemFlash, PackingError, TransferBlock};

fn payload() -> [u8; 256] {
    let mut bytes = [0u8; 256];
    for (i, b) in bytes.iter_mut().enumerate() {
        *b = (i as u8) ^ 0x5A;
    }
    bytes
}

fn sector() -> [u8; 512] {
    let mut sector = [0xEE; 512];
    encode(0x0801_0400, 0x0801_0000, 0x1_0000, &payload(), &mut sector);
    sector
}

#[test]
fn default_block_carries_the_magic_numbers() {
    let block = TransferBlock::default();
    assert_eq!(block.magic_start_0, 0x0A32_4655);
    assert_eq!(block.magic_start_1, 0x9E5D_5157);
    assert_eq!(block.magic_end, 0x0AB1_6F30);
    assert_eq!(block.flags, 0);
    assert_eq!(block.target_address, 0);
    assert_eq!(block.payload_size, 0);
    assert_eq!(block.block_number, 0);
    assert_eq!(block.number_of_blocks, 0);
    assert_eq!(block.file_size_or_family_id, 0);
    assert_eq!(block.data, [0; 476]);
    assert!(uf2_family_is_correct(&block));
}

#[test]
fn encoded_sector_is_byte_exact() {
    let sector = sector();
    let mut expected = Vec::new();
    expected.extend_from_slice(b"UF2\n");
    expected.extend_from_slice(&[0x57, 0x51, 0x5D, 0x9E]);
    expected.extend_from_slice(&[0, 0, 0, 0]);
    expected.extend_from_slice(&[0x00, 0x04, 0x01, 0x08]);
    expected.extend_from_slice(&[0x00, 0x01, 0x00, 0x00]);
    expected.extend_from_slice(&[0x04, 0x00, 0x00, 0x00]);
    expected.extend_from_slice(&[0x00, 0x01, 0x00, 0x00]);
    expected.extend_from_slice(&[0, 0, 0, 0]);
    expected.extend_from_slice(&payload());
    expected.extend_from_slice(&[0; 220]);
    expected.extend_from_slice(&[0x30, 0x6F, 0xB1, 0x0A]);
    assert_eq!(expected.len(), 512);
    assert_eq!(&sector[..], &expected[..]);
}

#[test]
fn decoding_an_encoded_sector_gives_address_and_payload_back() {
    let block = decode(&sector()).unwrap();
    assert_eq!(block.target_address, 0x0801_0400);
    assert_eq!(block.payload_size, 256);
    assert_eq!(block.block_number, 4);
    assert_eq!(block.number_of_blocks, 256);
    assert_eq!(&block.data[..256], &payload()[..]);
    assert_eq!(&block.data[256..], &[0; 220][..]);
}

#[test]
fn sector_with_a_wrong_magic_number_is_no_transfer_block() {
    for at in [0, 3, 4, 7, 508, 511] {
        let mut sector = sector();
        sector[at] ^= 0x01;
        assert_eq!(decode(&sector), None);
    }
}

#[test]
fn sector_of_another_length_is_no_transfer_block() {
    let sector = sector();
    assert_eq!(decode(&sector[..511]), None);
    assert_eq!(decode(&sector[..0]), None);
    let mut longer = vec![0u8; 513];
    longer[..512].copy_from_slice(&sector);
    assert_eq!(decode(&longer), None);
    let mut ends_late = vec![0u8; 1024];
    ends_late[..512].copy_from_slice(&sector);
    assert_eq!(decode(&ends_late), None);
}

#[test]
fn payload_of_more_than_256_bytes_is_no_transfer_block() {
    let mut block = TransferBlock::default();
    block.payload_size = 257;
    let mut sector = [0u8; 512];
    assert_eq!(block.pack(&mut sector), Ok(()));
    assert_eq!(decode(&sector), None);
    block.payload_size = 476;
    assert_eq!(block.pack(&mut sector), Ok(()));
    assert_eq!(decode(&sector), None);
    block.payload_size = 0x0100_0000;
    assert_eq!(block.pack(&mut sector), Ok(()));
    assert_eq!(decode(&sector), None);
    block.payload_size = 256;
    assert_eq!(block.pack(&mut sector), Ok(()));
    assert_eq!(decode(&sector), Some(block));
}

#[test]
fn any_family_and_any_flags_are_taken() {
    let mut block = TransferBlock::default();
    block.file_size_or_family_id = 0x5EE2_1072;
    block.flags = 0x0000_2000;
    block.payload_size = 16;
    block.target_address = 0x2000;
    let mut sector = [0u8; 512];
    assert_eq!(block.pack(&mut sector), Ok(()));
    assert_eq!(decode(&sector), Some(block));
}

#[test]
fn block_unpacks_whatever_512_bytes_hold() {
    let bytes = [0xA5u8; 512];
    let block = TransferBlock::unpack(&bytes).unwrap();
    assert_eq!(block.magic_start_0, 0xA5A5_A5A5);
    assert_eq!(block.data, [0xA5; 476]);
    let mut again = [0u8; 512];
    assert_eq!(block.pack(&mut again), Ok(()));
    assert_eq!(again, bytes);
    assert_eq!(TransferBlock::BYTES, 512);
}

#[test]
fn block_refuses_a_short_buffer() {
    let mut bytes = [0xEE; 511];
    assert_eq!(TransferBlock::default().pack(&mut bytes), Err(PackingError::InsufficientBytes));
    assert_eq!(bytes, [0xEE; 511]);
    assert_eq!(TransferBlock::unpack(&bytes), Err(PackingError::InsufficientBytes));
}

#[test]
fn block_number_counts_from_the_start_of_the_window() {
    let mut sector = [0u8; 512];
    encode(0x2000, 0x2000, 1, &payload(), &mut sector);
    let first = decode(&sector).unwrap();
    assert_eq!((first.block_number, first.number_of_blocks), (0, 1));
    encode(0x20FF, 0x2000, 256, &payload(), &mut sector);
    let inside = decode(&sector).unwrap();
    assert_eq!((inside.block_number, inside.number_of_blocks), (0, 1));
    encode(0x2100, 0x2000, 257, &payload(), &mut sector);
    let second = decode(&sector).unwrap();
    assert_eq!((second.block_number, second.number_of_blocks), (1, 2));
    encode(0xFFFF_FF00, 0, u32::MAX, &payload(), &mut sector);
    let last = decode(&sector).unwrap();
    assert_eq!((last.block_number, last.number_of_blocks), (0x00FF_FFFF, 0x0100_0000));
    assert_eq!(last.target_address, 0xFFFF_FF00);
}

#[test]
fn flash_is_shown_at_any_address_with_256_bytes_inside_the_window() {
    let image: Vec<u8> = (0..0x400).map(|i| (i % 253) as u8).collect();
    let flash = MemFlash::new(0x8000, 256, image.clone()).unwrap();
    let mut sector = [0xEE; 512];
    assert_eq!(encode_from(&flash, 0x8123, &mut sector), Ok(()));
    let block = decode(&sector).unwrap();
    assert_eq!(block.target_address, 0x8123);
    assert_eq!(block.payload_size, 256);
    assert_eq!(block.block_number, 1);
    assert_eq!(block.number_of_blocks, 4);
    assert_eq!(&block.data[..256], &image[0x123..0x223]);
    assert_eq!(encode_from(&flash, 0x8300, &mut sector), Ok(()));
    assert_eq!(decode(&sector).unwrap().block_number, 3);
}

#[test]
fn flash_outside_the_window_is_not_shown() {
    let flash = MemFlash::new(0x8000, 256, vec![0x33; 0x400]).unwrap();
    for address in [0, 0x7FFF, 0x8301, 0x83FF, 0x8400, 0xFFFF_FFFF] {
        let mut sector = [0xEE; 512];
        assert_eq!(encode_from(&flash, address, &mut sector), Err(FlashError::InvalidAddress));
        assert_eq!(sector, [0xEE; 512]);
    }
    let small = MemFlash::new(0x8000, 256, vec![0x33; 255]).unwrap();
    let mut sector = [0xEE; 512];
    assert_eq!(encode_from(&small, 0x8000, &mut sector), Err(FlashError::InvalidAddress));
    assert_eq!(sector, [0xEE; 512]);
}

#[test]
fn decoded_payload_goes_to_the_address_that_the_block_names() {
    let mut flash = MemFlash::new(0x0801_0000, 1024, vec![0xFF; 0x800]).unwrap();
    assert_eq!(decode_into(&mut flash, &sector()), Ok(()));
    assert_eq!(&flash.memory()[..0x400], &[0xFF; 0x400][..]);
    assert_eq!(&flash.memory()[0x400..0x500], &payload()[..]);
    assert_eq!(&flash.memory()[0x500..], &[0xFF; 0x300][..]);
    let mut shown = [0u8; 512];
    assert_eq!(encode_from(&flash, 0x0801_0400, &mut shown), Ok(()));
    assert_eq!(decode(&shown).unwrap().target_address, 0x0801_0400);
    assert_eq!(&decode(&shown).unwrap().data[..256], &payload()[..]);
}

#[test]
fn sector_that_is_no_transfer_block_is_dropped_without_a_fault() {
    let mut flash = MemFlash::new(0x0801_0000, 1024, vec![0xFF; 0x800]).unwrap();
    let mut corrupted = sector();
    corrupted[1] = 0;
    assert_eq!(decode_into(&mut flash, &corrupted), Ok(()));
    assert_eq!(decode_into(&mut flash, &[]), Ok(()));
    assert_eq!(decode_into(&mut flash, &[0u8; 512]), Ok(()));
    assert_eq!(flash.memory(), &[0xFF; 0x800][..]);
    assert_eq!(flash.read_count(), 0);
}

#[test]
fn transfer_block_for_an_address_outside_the_flash_fails() {
    let mut flash = MemFlash::new(0x0802_0000, 1024, vec![0xFF; 0x800]).unwrap();
    assert_eq!(decode_into(&mut flash, &sector()), Err(FlashError::InvalidAddress));
    assert_eq!(flash.memory(), &[0xFF; 0x800][..]);
}
