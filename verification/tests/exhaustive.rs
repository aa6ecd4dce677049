use ghost_fat::flash::{overlay_span, PageSpan};
use ghost_fat::{DirectoryEntry, Flash, FlashError, GhostFat, MemFlash, TransferBlock};

fn pattern(len: usize) -> Vec<u8> {
    (0..len).map(|i| (i * 7 % 251) as u8).collect()
}

#[test]
fn every_write_to_a_small_device_changes_its_bytes_and_no_others() {
    let image = pattern(64);
    for address in 0x100u32..0x140 {
        for len in 0usize..=64 {
            let bytes: Vec<u8> = (0..len).map(|i| 0x80 | i as u8).collect();
            let mut flash = MemFlash::new(0x100, 16, image.clone()).unwrap();
            let end = address as usize - 0x100 + len;
            let result = flash.write_bytes(address, &bytes);
            if end <= 64 {
                assert_eq!(result, Ok(()));
                let at = address as usize - 0x100;
                assert_eq!(&flash.memory()[..at], &image[..at]);
                assert_eq!(&flash.memory()[at..end], &bytes[..]);
                assert_eq!(&flash.memory()[end..], &image[end..]);
                let pages = if len == 0 { 0 } else { (end - 1) / 16 - at / 16 + 1 };
                assert_eq!(flash.read_count(), pages as u64);
                assert_eq!(flash.flush_count(), pages as u64);
                if len > 0 {
                    let last_page = 0x100 + ((end - 1) / 16 * 16) as u32;
                    assert_eq!(flash.current_page(), &Some(last_page));
                }
            } else {
                assert_eq!(result, Err(FlashError::InvalidAddress));
                let at = address as usize - 0x100;
                assert_eq!(&flash.memory()[..at], &image[..at]);
            }
        }
    }
}

#[test]
fn every_write_counts_its_pages_whatever_was_staged() {
    let image = pattern(64);
    for staged in [0x100u32, 0x110, 0x120, 0x130] {
        for address in 0x100u32..0x140 {
            for len in 1usize..=(0x140 - address as usize) {
                let mut flash = MemFlash::new(0x100, 16, image.clone()).unwrap();
                flash.read_page(staged).unwrap();
                flash.page_buffer()[0] ^= 0xFF;
                let bytes = vec![0x3C; len];
                assert_eq!(flash.write_bytes(address, &bytes), Ok(()));
                let first = address / 16 * 16;
                let last = (address + len as u32 - 1) / 16 * 16;
                let pages = ((last - first) / 16 + 1) as u64;
                let other = u64::from(staged != first);
                assert_eq!(flash.flush_count(), pages + other);
                assert_eq!(flash.read_count(), 1 + pages - (1 - other));
                let mut expected = image.clone();
                expected[staged as usize - 0x100] ^= 0xFF;
                let at = address as usize - 0x100;
                expected[at..at + len].copy_from_slice(&bytes);
                assert_eq!(flash.memory(), &expected[..]);
            }
        }
    }
}

#[test]
fn span_is_the_overlap_of_write_and_page() {
    for page_size in [1u32, 2, 4, 8, 16] {
        for address in 0u32..40 {
            for last in address..40 {
                for page in (0u32..48).step_by(page_size as usize) {
                    let covered: Vec<u32> = (address..=last)
                        .filter(|cell| page <= *cell && *cell < page + page_size)
                        .collect();
                    let span = overlay_span(address, last, page, page_size);
                    if covered.is_empty() {
                        assert_eq!(span, PageSpan { buffer_offset: 0, source_offset: 0, count: 0 });
                    } else {
                        assert_eq!(span.count, covered.len());
                        assert_eq!(span.buffer_offset as u32, covered[0] - page);
                        assert_eq!(span.source_offset as u32, covered[0] - address);
                    }
                }
            }
        }
    }
}

#[test]
fn chain_and_size_of_the_flash_image_agree_for_every_window() {
    for len in (1usize..5000).step_by(37).chain([1, 511, 512, 513, 1024, 65536]) {
        let fat = GhostFat::new(MemFlash::new(0x0800_0000, 256, vec![0; len]).unwrap());
        let mut directory = [0u8; 512];
        fat.read_block(65, &mut directory);
        let entry = DirectoryEntry::unpack(&directory[96..]).unwrap();
        assert_eq!(entry.size as usize, len);
        assert_eq!(entry.start_cluster, 4);
        let clusters = (len + 255) / 256;
        let mut table = Vec::new();
        for index in 0..32 {
            let mut block = [0u8; 512];
            fat.read_block(1 + index, &mut block);
            for pair in block.chunks(2) {
                table.push(u16::from_le_bytes([pair[0], pair[1]]));
            }
        }
        assert_eq!(table.len(), 8192);
        for step in 0..clusters - 1 {
            assert_eq!(table[4 + step] as usize, 4 + step + 1);
        }
        assert_eq!(table[4 + clusters - 1], 0xFFFF);
        assert!(table[4 + clusters..].iter().all(|entry| *entry == 0));
        assert_eq!(&table[..4], &[0xFFF0, 0xFFFF, 0xFFFF, 0xFFFF]);
    }
}

#[test]
fn every_cluster_of_the_image_shows_its_256_bytes_or_nothing() {
    let image = pattern(0x1234);
    let fat = GhostFat::new(MemFlash::new(0x0800_0000, 256, image.clone()).unwrap());
    for block in 0u32..40 {
        let mut sector = [0xEE; 512];
        fat.read_block(71 + block, &mut sector);
        let at = 256 * block as usize;
        if at + 256 <= image.len() {
            let shown = TransferBlock::unpack(&sector).unwrap();
            assert_eq!(shown.target_address, 0x0800_0000 + 256 * block);
            assert_eq!(shown.block_number, block);
            assert_eq!(shown.number_of_blocks, 19);
            assert_eq!(shown.payload_size, 256);
            assert_eq!(&shown.data[..256], &image[at..at + 256]);
            assert_eq!(&shown.data[256..], &[0; 220][..]);
        } else {
            assert_eq!(sector, [0; 512]);
        }
    }
}

#[test]
fn records_of_any_content_survive_packing() {
    let mut seed = 0x1234_5678u32;
    let mut next = move || {
        seed = seed.wrapping_mul(1_664_525).wrapping_add(1_013_904_223);
        (seed >> 8) as u8
    };
    for _ in 0..200 {
        let mut bytes = [0u8; 512];
        for b in bytes.iter_mut() {
            *b = next();
        }
        let entry = DirectoryEntry::unpack(&bytes).unwrap();
        let mut packed = [0u8; 32];
        entry.pack(&mut packed).unwrap();
        assert_eq!(&packed[..], &bytes[..32]);
        assert_eq!(DirectoryEntry::unpack(&packed), Ok(entry));
        let boot = ghost_fat::FatBootBlock::unpack(&bytes).unwrap();
        let mut packed = [0u8; 62];
        boot.pack(&mut packed).unwrap();
        assert_eq!(&packed[..], &bytes[..62]);
        let block = TransferBlock::unpack(&bytes).unwrap();
        let mut packed = [0u8; 512];
        block.pack(&mut packed).unwrap();
        assert_eq!(packed, bytes);
    }
}
