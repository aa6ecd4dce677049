use ghost_fat::{fat_files, FatFile, FatFileContent};

fn text_of(file: &FatFile) -> [u8; 255] {
    match file.content {
        FatFileContent::Static(text) => text,
        FatFileContent::Uf2 => panic!("the file is the flash image"),
    }
}

#[test]
fn static_file_is_filled_up_with_spaces() {
    let file = FatFile::with_content(b"README", b"hello");
    assert_eq!(&file.name, b"README     ");
    let text = text_of(&file);
    assert_eq!(&text[..5], b"hello");
    assert_eq!(&text[5..], &[0x20; 250][..]);
}

#[test]
fn static_file_is_cut_to_its_fields() {
    let long = [b'x'; 300];
    let file = FatFile::with_content(b"A_VERY_LONG_NAME", &long);
    assert_eq!(&file.name, b"A_VERY_LONG");
    assert_eq!(text_of(&file), [b'x'; 255]);
}

#[test]
fn static_file_of_nothing_is_all_spaces() {
    let file = FatFile::with_content(b"", b"");
    assert_eq!(file.name, [0x20; 11]);
    assert_eq!(text_of(&file), [0x20; 255]);
}

#[test]
fn catalog_has_two_texts_and_the_flash_image() {
    let [info, index, current] = fat_files();
    assert_eq!(&info.name, b"INFO_UF2TXT");
    assert_eq!(&index.name, b"INDEX   HTM");
    assert_eq!(&current.name, b"CURRENT UF2");
    assert!(matches!(current.content, FatFileContent::Uf2));

    let info_text = "UF2 Bootloader 1.2.3\r\nModel: BluePill\r\nBoard-ID: xyz_123\r\n";
    assert_eq!(info_text.len(), 58);
    let text = text_of(&info);
    assert_eq!(&text[..58], info_text.as_bytes());
    assert_eq!(&text[58..], &[0x20; 197][..]);

    let index_text =
        "<!doctype html>\n<html><body><script>\nlocation.replace(INDEX_URL);\n</script></body></html>\n";
    let text = text_of(&index);
    assert_eq!(&text[..index_text.len()], index_text.as_bytes());
    assert!(text[index_text.len()..].iter().all(|b| *b == 0x20));
}
