use ghost_fat::flash::{overlay_span, PageSpan};
use ghost_fat::{Flash, FlashError, MemFlash};

fn pattern(len: usize) -> Vec<u8> {
    (0..len).map(|i| (i % 251) as u8).collect()
}

fn device() -> MemFlash {
    MemFlash::new(0x1000, 1024, pattern(0x1000)).unwrap()
}

#[test]
fn short_write_inside_one_page_reads_and_flushes_once() {
    let image = pattern(0x1000);
    let mut flash = device();
    assert_eq!(flash.current_page(), &None);
    assert_eq!(flash.write_bytes(0x1000 + 10, &[0xAA; 20]), Ok(()));
    assert_eq!(flash.read_count(), 1);
    assert_eq!(flash.flush_count(), 1);
    assert_eq!(flash.current_page(), &Some(0x1000));
    assert_eq!(&flash.page_buffer()[10..30], &[0xAA; 20]);
    let mut page = [0u8; 1024];
    assert_eq!(flash.read_bytes(0x1000, &mut page), Ok(()));
    assert_eq!(&page[..10], &image[..10]);
    assert_eq!(&page[10..30], &[0xAA; 20]);
    assert_eq!(&page[30..], &image[30..1024]);
    assert_eq!(&flash.memory()[1024..], &image[1024..]);
}

#[test]
fn overwriting_programmed_cells_costs_one_erase_and_one_program() {
    let mut flash = device();
    assert_eq!(flash.write_bytes(0x1000 + 10, &[0xAA; 20]), Ok(()));
    assert_eq!(flash.erase_count(), 1);
    assert_eq!(flash.program_count(), 1);
}

#[test]
fn writing_to_erased_cells_needs_no_erase() {
    let mut flash = MemFlash::new(0x1000, 1024, vec![0xFF; 0x1000]).unwrap();
    assert_eq!(flash.write_bytes(0x1400, &[1, 2, 3, 4]), Ok(()));
    assert_eq!(flash.erase_count(), 0);
    assert_eq!(flash.program_count(), 1);
    assert_eq!(&flash.memory()[0x400..0x404], &[1, 2, 3, 4]);
    assert_eq!(flash.memory()[0x404], 0xFF);
    assert_eq!(flash.memory()[0x3FF], 0xFF);
}

#[test]
fn clearing_bits_needs_no_erase() {
    let mut image = vec![0xFF; 256];
    image[0] = 0x12;
    image[1] = 0xFF;
    let mut flash = MemFlash::new(0, 256, image).unwrap();
    assert_eq!(flash.write_bytes(0, &[0x12, 0x34]), Ok(()));
    assert_eq!(flash.erase_count(), 0);
    assert_eq!(flash.program_count(), 1);
    assert_eq!(&flash.memory()[..3], &[0x12, 0x34, 0xFF]);
}

#[test]
fn writing_what_is_there_touches_no_cell() {
    let image = pattern(0x1000);
    let mut flash = device();
    assert_eq!(flash.write_bytes(0x1100, &image[0x100..0x180]), Ok(()));
    assert_eq!(flash.read_count(), 1);
    assert_eq!(flash.flush_count(), 1);
    assert_eq!(flash.erase_count(), 0);
    assert_eq!(flash.program_count(), 0);
    assert_eq!(flash.memory(), &image[..]);
}

#[test]
fn write_over_three_pages_flushes_each_page_once() {
    let image = pattern(0x1000);
    let mut flash = device();
    let bytes: Vec<u8> = (0..1100).map(|i| (i % 7) as u8 + 0x80).collect();
    assert_eq!(flash.write_bytes(0x1000 + 1000, &bytes), Ok(()));
    assert_eq!(flash.read_count(), 3);
    assert_eq!(flash.flush_count(), 3);
    assert_eq!(flash.erase_count(), 3);
    assert_eq!(flash.program_count(), 3);
    assert_eq!(flash.current_page(), &Some(0x1800));
    assert_eq!(&flash.memory()[..1000], &image[..1000]);
    assert_eq!(&flash.memory()[1000..2100], &bytes[..]);
    assert_eq!(&flash.memory()[2100..], &image[2100..]);
}

#[test]
fn write_of_exactly_one_page() {
    let image = pattern(0x1000);
    let mut flash = device();
    assert_eq!(flash.write_bytes(0x1400, &[0x5A; 1024]), Ok(()));
    assert_eq!(flash.read_count(), 1);
    assert_eq!(flash.flush_count(), 1);
    assert_eq!(&flash.memory()[..1024], &image[..1024]);
    assert_eq!(&flash.memory()[1024..2048], &[0x5A; 1024][..]);
    assert_eq!(&flash.memory()[2048..], &image[2048..]);
}

#[test]
fn staged_page_is_not_read_again() {
    let mut flash = device();
    assert_eq!(flash.write_bytes(0x1800, &[1, 2, 3]), Ok(()));
    assert_eq!((flash.read_count(), flash.flush_count()), (1, 1));
    assert_eq!(flash.write_bytes(0x1810, &[4, 5, 6]), Ok(()));
    assert_eq!((flash.read_count(), flash.flush_count()), (1, 2));
    assert_eq!(&flash.memory()[0x800..0x803], &[1, 2, 3]);
    assert_eq!(&flash.memory()[0x810..0x813], &[4, 5, 6]);
}

#[test]
fn another_staged_page_is_flushed_first() {
    let mut flash = device();
    assert_eq!(flash.write_bytes(0x1800, &[1, 2, 3]), Ok(()));
    assert_eq!(flash.write_bytes(0x1000, &[9]), Ok(()));
    assert_eq!((flash.read_count(), flash.flush_count()), (2, 3));
    assert_eq!(flash.current_page(), &Some(0x1000));
    assert_eq!(flash.memory()[0], 9);
    assert_eq!(&flash.memory()[0x800..0x803], &[1, 2, 3]);
}

#[test]
fn what_waits_in_the_buffer_is_flushed_with_the_write() {
    let image = pattern(0x1000);
    let mut flash = device();
    assert_eq!(flash.read_page(0x1400), Ok(()));
    flash.page_buffer()[5] = 0x77;
    assert_eq!(flash.memory()[0x405], image[0x405]);
    assert_eq!(flash.write_bytes(0x1000, &[1]), Ok(()));
    assert_eq!(flash.memory()[0x405], 0x77);
    assert_eq!(flash.memory()[0], 1);
    assert_eq!(&flash.memory()[1..0x405], &image[1..0x405]);
    assert_eq!(&flash.memory()[0x406..], &image[0x406..]);
}

#[test]
fn empty_write_touches_nothing() {
    let mut flash = device();
    assert_eq!(flash.write_bytes(0x1234, &[]), Ok(()));
    assert_eq!(flash.write_bytes(0, &[]), Ok(()));
    assert_eq!((flash.read_count(), flash.flush_count()), (0, 0));
    assert_eq!(flash.current_page(), &None);
    assert_eq!(flash.memory(), &pattern(0x1000)[..]);
}

#[test]
fn write_below_the_window_is_refused() {
    let mut flash = device();
    assert_eq!(flash.write_bytes(0x0FFF, &[1, 2, 3]), Err(FlashError::InvalidAddress));
    assert_eq!(flash.memory(), &pattern(0x1000)[..]);
}

#[test]
fn write_behind_the_window_is_refused() {
    let mut flash = device();
    assert_eq!(flash.write_bytes(0x2000, &[1, 2, 3]), Err(FlashError::InvalidAddress));
    assert_eq!(flash.memory(), &pattern(0x1000)[..]);
}

#[test]
fn write_that_leaves_the_window_keeps_the_pages_flushed_before() {
    let image = pattern(0x1000);
    let mut flash = device();
    assert_eq!(flash.write_bytes(0x1FFE, &[1, 2, 3]), Err(FlashError::InvalidAddress));
    assert_eq!(&flash.memory()[..0xFFE], &image[..0xFFE]);
    assert_eq!(&flash.memory()[0xFFE..], &[1, 2]);
}

#[test]
fn write_past_the_last_address_is_refused_untouched() {
    let image = pattern(0x1000);
    let mut flash = MemFlash::new(0xFFFF_F000, 1024, image.clone()).unwrap();
    assert_eq!(flash.address_range(), 0xFFFF_F000..=0xFFFF_FFFF);
    assert_eq!(flash.write_bytes(0xFFFF_FFFF, &[1, 2]), Err(FlashError::InvalidAddress));
    assert_eq!((flash.read_count(), flash.flush_count()), (0, 0));
    assert_eq!(flash.memory(), &image[..]);
    assert_eq!(flash.write_bytes(0xFFFF_FFFF, &[1]), Ok(()));
    assert_eq!(flash.memory()[0xFFF], 1);
    assert_eq!(flash.write_bytes(0xFFFF_FFFE, &[7, 8]), Ok(()));
    assert_eq!(&flash.memory()[0xFFE..], &[7, 8]);
}

#[test]
fn worn_page_fails_the_write_with_an_erase_error() {
    let image = pattern(0x1000);
    let mut flash = device();
    flash.wear_out(0x1400);
    assert_eq!(flash.write_bytes(0x1400, &[0xAA; 4]), Err(FlashError::EraseError));
    assert_eq!(flash.memory(), &image[..]);
    assert_eq!(flash.write_bytes(0x1000, &[0xAA; 4]), Err(FlashError::EraseError));
}

#[test]
fn worn_page_stops_a_long_write_after_the_pages_before_it() {
    let image = pattern(0x1000);
    let mut flash = device();
    flash.wear_out(0x1400);
    assert_eq!(flash.write_bytes(0x13FF, &[0xAA; 2]), Err(FlashError::EraseError));
    assert_eq!(flash.memory()[0x3FF], 0xAA);
    assert_eq!(&flash.memory()[0x400..], &image[0x400..]);
}

#[test]
fn page_address_rounds_down_to_the_page() {
    let flash = device();
    assert_eq!(flash.page_size(), 1024);
    assert_eq!(flash.page_address(0x1234), 0x1000);
    assert_eq!(flash.page_address(0x1400), 0x1400);
    assert_eq!(flash.page_address(0x17FF), 0x1400);
    assert_eq!(flash.page_address(0), 0);
    assert_eq!(flash.page_address(0xFFFF_FFFF), 0xFFFF_FC00);
    let small = MemFlash::new(0, 1, vec![0; 4]).unwrap();
    assert_eq!(small.page_address(3), 3);
}

#[test]
fn span_of_a_write_that_starts_inside_the_page() {
    assert_eq!(
        overlay_span(0x100A, 0x101D, 0x1000, 1024),
        PageSpan { buffer_offset: 10, source_offset: 0, count: 20 }
    );
    assert_eq!(
        overlay_span(1000, 3000, 0, 1024),
        PageSpan { buffer_offset: 1000, source_offset: 0, count: 24 }
    );
}

#[test]
fn span_of_a_write_that_starts_before_the_page() {
    assert_eq!(
        overlay_span(1000, 3000, 1024, 1024),
        PageSpan { buffer_offset: 0, source_offset: 24, count: 1024 }
    );
    assert_eq!(
        overlay_span(1000, 3000, 2048, 1024),
        PageSpan { buffer_offset: 0, source_offset: 1048, count: 953 }
    );
}

#[test]
fn span_of_a_page_that_the_write_misses_is_empty() {
    let nothing = PageSpan { buffer_offset: 0, source_offset: 0, count: 0 };
    assert_eq!(overlay_span(1000, 3000, 3072, 1024), nothing);
    assert_eq!(overlay_span(2048, 3000, 1024, 1024), nothing);
    assert_eq!(overlay_span(5, 4, 0, 16), nothing);
    assert_eq!(overlay_span(5, 9, 0, 0), nothing);
}

#[test]
fn span_at_the_top_of_the_address_space() {
    assert_eq!(
        overlay_span(0xFFFF_FFF0, 0xFFFF_FFFF, 0xFFFF_FC00, 1024),
        PageSpan { buffer_offset: 0x3F0, source_offset: 0, count: 16 }
    );
    assert_eq!(
        overlay_span(0, 0xFFFF_FFFF, 0x8000_0000, 0x8000_0000),
        PageSpan { buffer_offset: 0, source_offset: 0x8000_0000, count: 0x8000_0000 }
    );
}

#[test]
fn staging_a_page_reads_it_once() {
    let image = pattern(0x1000);
    let mut flash = device();
    assert_eq!(flash.stage_page(0x1400), Ok(()));
    assert_eq!(flash.current_page(), &Some(0x1400));
    assert_eq!(flash.page_buffer(), &image[0x400..0x800]);
    assert_eq!((flash.read_count(), flash.flush_count()), (1, 0));
    assert_eq!(flash.stage_page(0x1400), Ok(()));
    assert_eq!((flash.read_count(), flash.flush_count()), (1, 0));
}

#[test]
fn staging_another_page_flushes_the_staged_one_first() {
    let image = pattern(0x1000);
    let mut flash = device();
    assert_eq!(flash.stage_page(0x1400), Ok(()));
    flash.page_buffer()[3] = 0x5C;
    assert_eq!(flash.stage_page(0x1C00), Ok(()));
    assert_eq!((flash.read_count(), flash.flush_count()), (2, 1));
    assert_eq!(flash.memory()[0x403], 0x5C);
    assert_eq!(flash.page_buffer(), &image[0xC00..0x1000]);
    assert_eq!(flash.current_page(), &Some(0x1C00));
}

#[test]
fn staging_what_is_no_page_of_the_window_fails() {
    let mut flash = device();
    assert_eq!(flash.stage_page(0x1401), Err(FlashError::InvalidAddress));
    assert_eq!(flash.stage_page(0x2000), Err(FlashError::InvalidAddress));
    assert_eq!(flash.current_page(), &None);
    assert_eq!(flash.memory(), &pattern(0x1000)[..]);
}

#[test]
fn short_write_over_cells_that_all_hold_0x11() {
    let mut flash = MemFlash::new(0x1000, 1024, vec![0x11; 0x1000]).unwrap();
    assert_eq!(flash.write_bytes(0x1000 + 10, &[0xAA; 20]), Ok(()));
    assert_eq!((flash.read_count(), flash.flush_count()), (1, 1));
    assert_eq!((flash.erase_count(), flash.program_count()), (1, 1));
    assert_eq!(flash.current_page(), &Some(0x1000));
    let mut expected = [0x11u8; 1024];
    expected[10..30].copy_from_slice(&[0xAA; 20]);
    assert_eq!(flash.page_buffer(), &expected[..]);
    let mut read_back = [0u8; 1024];
    assert_eq!(flash.read_bytes(0x1000, &mut read_back), Ok(()));
    assert_eq!(read_back, expected);
    assert_eq!(&flash.memory()[0x400..], &[0x11; 0xC00][..]);
}

#[test]
fn hundred_bytes_across_a_page_boundary() {
    let mut flash = MemFlash::new(0x1000, 1024, vec![0xFF; 0x1000]).unwrap();
    let bytes: Vec<u8> = (0..100).collect();
    assert_eq!(flash.write_bytes(0x13E8, &bytes), Ok(()));
    assert_eq!(&flash.memory()[0x3E8..0x44C], &bytes[..]);
    assert_eq!(flash.memory()[0x400], 24);
    assert_eq!(flash.memory()[0x44B], 99);
    assert_eq!(&flash.memory()[..0x3E8], &[0xFF; 0x3E8][..]);
    assert_eq!(&flash.memory()[0x44C..], &[0xFF; 0xBB4][..]);
    assert_eq!(flash.flush_count(), 2);
    assert_eq!(flash.read_count(), 2);
}

#[test]
fn fault_in_the_middle_keeps_the_pages_before_new_and_the_pages_behind_old() {
    let image = pattern(0x1000);
    let mut flash = device();
    flash.wear_out(0x1400);
    let bytes = vec![0xA5; 0x900];
    assert_eq!(flash.write_bytes(0x1300, &bytes), Err(FlashError::EraseError));
    assert_eq!(&flash.memory()[..0x300], &image[..0x300]);
    assert_eq!(&flash.memory()[0x300..0x400], &[0xA5; 0x100][..]);
    assert_eq!(&flash.memory()[0x800..], &image[0x800..]);
    assert_eq!(flash.flush_count(), 1);
    assert_eq!(flash.read_count(), 2);
    assert_eq!(flash.current_page(), &Some(0x1400));
}

#[test]
fn fault_at_the_last_flush_keeps_the_pages_before_new() {
    let image = pattern(0x1000);
    let mut flash = device();
    flash.wear_out(0x1800);
    let bytes = vec![0xA5; 0x900];
    assert_eq!(flash.write_bytes(0x1300, &bytes), Err(FlashError::EraseError));
    assert_eq!(&flash.memory()[0x300..0x800], &[0xA5; 0x500][..]);
    assert_eq!(&flash.memory()[0xC00..], &image[0xC00..]);
    assert_eq!(flash.flush_count(), 2);
}

#[test]
fn fault_of_the_first_read_comes_back_and_nothing_is_written() {
    let mut flash = device();
    assert_eq!(flash.write_bytes(0x0FF0, &[1; 0x20]), Err(FlashError::InvalidAddress));
    assert_eq!((flash.read_count(), flash.flush_count()), (0, 0));
    assert_eq!(flash.memory(), &pattern(0x1000)[..]);
}
