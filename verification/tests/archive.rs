use quake_rs::error::FormatError;
use quake_rs::resource::{init, palette_index_to_rgba, Pak, Palette};

/// Builds an archive: a "PACK" header pointing at a directory of 64-byte
/// records, with the given payload bytes already in place.
fn build_pak(entries: &[(&[u8], i32, i32)], payload: &[u8]) -> Vec<u8> {
    let dir_offset = 12 + payload.len() as i32;
    let mut b = Vec::new();
    b.extend_from_slice(b"PACK");
    b.extend_from_slice(&dir_offset.to_le_bytes());
    b.extend_from_slice(&(entries.len() as i32 * 64).to_le_bytes());
    b.extend_from_slice(payload);
    for (name, offset, size) in entries {
        let mut rec = [0u8; 64];
        rec[..name.len()].copy_from_slice(name);
        rec[56..60].copy_from_slice(&offset.to_le_bytes());
        rec[60..64].copy_from_slice(&size.to_le_bytes());
        b.extend_from_slice(&rec);
    }
    b
}

#[test]
fn directory_holds_every_record() {
    let payload = [0u8; 32];
    let pak = Pak::open(build_pak(
        &[(b"one", 12, 8), (b"two", 20, 4), (b"three", 24, 0)],
        &payload,
    ))
    .unwrap();
    assert_eq!(pak.num_entries(), 3);
    let (name0, off0, size0) = pak.entry(0);
    assert_eq!(name0, b"one".to_vec());
    assert_eq!((off0, size0), (12, 8));
    let (name1, off1, size1) = pak.entry(1);
    assert_eq!(name1, b"two".to_vec());
    assert_eq!((off1, size1), (20, 4));
    let (name2, off2, size2) = pak.entry(2);
    assert_eq!(name2, b"three".to_vec());
    assert_eq!((off2, size2), (24, 0));
}

#[test]
fn read_returns_exact_bytes_and_not_found_for_absent() {
    let mut payload = [0u8; 16];
    payload[3] = 0xaa;
    payload[4] = 0xbb;
    let pak = Pak::open(build_pak(&[(b"blob", 15, 2)], &payload)).unwrap();
    assert_eq!(pak.read(b"blob").unwrap(), vec![0xaa, 0xbb]);
    assert_eq!(pak.read(b"missing").unwrap_err(), FormatError::NotFound);
}

#[test]
fn ten_byte_entry_round_trip() {
    // An archive with one 10-byte entry "a.txt" at offset 12 holding the
    // bytes 1..=10.
    let payload: Vec<u8> = (1u8..=10).collect();
    let pak = Pak::open(build_pak(&[(b"a.txt", 12, 10)], &payload)).unwrap();
    assert_eq!(pak.read(b"a.txt").unwrap(), payload);
}

#[test]
fn bad_container_tag_is_rejected() {
    let mut b = build_pak(&[], &[]);
    b[0] = b'J';
    assert_eq!(Pak::open(b).unwrap_err(), FormatError::BadSignature);
}

#[test]
fn short_header_is_rejected() {
    assert_eq!(
        Pak::open(b"PACK\x00\x00".to_vec()).unwrap_err(),
        FormatError::MalformedRecord
    );
}

#[test]
fn entry_outside_extent_is_rejected() {
    let b = build_pak(&[(b"big", 12, 1000)], &[0u8; 4]);
    assert_eq!(Pak::open(b).unwrap_err(), FormatError::MalformedRecord);
}

#[test]
fn negative_entry_offset_is_rejected() {
    let b = build_pak(&[(b"neg", -4, 2)], &[0u8; 4]);
    assert_eq!(Pak::open(b).unwrap_err(), FormatError::MalformedRecord);
}

#[test]
fn truncated_directory_is_rejected() {
    let mut b = build_pak(&[(b"x", 12, 0)], &[]);
    b.truncate(b.len() - 10);
    assert_eq!(Pak::open(b).unwrap_err(), FormatError::MalformedRecord);
}

#[test]
fn duplicate_names_last_write_wins() {
    let payload = [7u8, 8, 9, 10];
    let pak = Pak::open(build_pak(&[(b"dup", 12, 1), (b"dup", 14, 2)], &payload)).unwrap();
    assert_eq!(pak.num_entries(), 2);
    assert_eq!(pak.read(b"dup").unwrap(), vec![9, 10]);
}

#[test]
fn palette_mapping_is_exact() {
    let mut rgb = vec![0u8; 768];
    rgb[0] = 10;
    rgb[1] = 20;
    rgb[2] = 30;
    rgb[3 * 5] = 50;
    rgb[3 * 5 + 1] = 51;
    rgb[3 * 5 + 2] = 52;
    let palette = Palette { rgb };
    let out = palette_index_to_rgba(&palette, &vec![0, 5, 0xff]);
    assert_eq!(
        out,
        vec![10, 20, 30, 255, 50, 51, 52, 255, 0, 0, 0, 0]
    );
}

#[test]
fn init_reads_palette_from_archive() {
    let mut payload = vec![0u8; 768];
    for i in 0..768 {
        payload[i] = (i % 251) as u8;
    }
    let b = build_pak(&[(b"gfx/palette.lmp", 12, 768)], &payload);
    let store = init(b).unwrap();
    assert_eq!(store.palette.rgb, payload);
    assert_eq!(store.read(b"gfx/palette.lmp").unwrap().len(), 768);
}

#[test]
fn init_without_palette_entry_fails() {
    let b = build_pak(&[(b"other", 12, 0)], &[]);
    assert_eq!(init(b).unwrap_err(), FormatError::NotFound);
}

#[test]
fn init_with_short_palette_fails() {
    let b = build_pak(&[(b"gfx/palette.lmp", 12, 100)], &[0u8; 100]);
    assert_eq!(init(b).unwrap_err(), FormatError::MalformedRecord);
}

#[test]
fn name_without_nul_takes_whole_field() {
    let name = [b'n'; 56];
    let pak = Pak::open(build_pak(&[(&name, 12, 0)], &[])).unwrap();
    let (stored, _, _) = pak.entry(0);
    assert_eq!(stored, name.to_vec());
}

#[test]
fn directory_length_rounds_down_to_whole_records() {
    // A directory byte length of 70 announces exactly one 64-byte record.
    let mut b = build_pak(&[(b"only", 12, 0)], &[]);
    b[8..12].copy_from_slice(&70i32.to_le_bytes());
    let pak = Pak::open(b).unwrap();
    assert_eq!(pak.num_entries(), 1);
}

#[test]
fn negative_directory_length_means_no_entries() {
    let mut b = build_pak(&[], &[]);
    b[8..12].copy_from_slice(&(-64i32).to_le_bytes());
    let pak = Pak::open(b).unwrap();
    assert_eq!(pak.num_entries(), 0);
}

#[test]
fn negative_directory_offset_with_entries_is_rejected() {
    let mut b = build_pak(&[(b"x", 12, 0)], &[]);
    b[4..8].copy_from_slice(&(-1i32).to_le_bytes());
    assert_eq!(Pak::open(b).unwrap_err(), FormatError::MalformedRecord);
}

#[test]
fn empty_index_buffer_maps_to_empty_rgba() {
    let palette = Palette { rgb: vec![0u8; 768] };
    assert_eq!(palette_index_to_rgba(&palette, &Vec::new()), Vec::<u8>::new());
}
