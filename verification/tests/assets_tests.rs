use rme_editor::assets::{pattern_stride, resolve_dur_ms};
use rme_editor::appearances::ItemType;
use rme_editor::catalog::{catalog_from_entries, parse_catalog, CatalogEntry, CatalogError, SpriteLayout};
use rme_editor::spr::{decode_sprite, sprite_offset};
use rme_editor::sprite::{decode_sheet, parse_sheet_header, sheet_from_output, SheetError, SHEET_BYTES};
use rme_editor::tabs::{compute_floor_stack, AntiAliasing, ShaderOptions};

fn entry(kind: &str, file: Option<&str>, first: Option<u64>, last: Option<u64>, sprite_type: Option<u64>) -> CatalogEntry {
    CatalogEntry {
        kind: Some(kind.to_string()),
        file: file.map(|f| f.to_string()),
        first_sprite_id: first,
        last_sprite_id: last,
        sprite_type,
    }
}

#[test]
fn parses_catalog_and_finds_sheet() {
    let json = r#"[
        {"type":"appearances","file":"appearances-abc.dat"},
        {"type":"map","file":"map-x.dat"},
        {"type":"sprite","file":"a.bmp.lzma","spritetype":0,"firstspriteid":0,"lastspriteid":143,"area":0},
        {"type":"sprite","file":"b.bmp.lzma","spritetype":1,"firstspriteid":144,"lastspriteid":287,"area":0}
    ]"#;
    let cat = parse_catalog(json).unwrap();
    assert_eq!(cat.appearance_file, "appearances-abc.dat");
    assert_eq!(cat.sheets.len(), 2);
    assert_eq!(cat.sprites_count, 287);
    assert_eq!(cat.sheets[0].sprite_type, SpriteLayout::OneByOne);
    assert_eq!(cat.sheets[1].sprite_type, SpriteLayout::OneByTwo);
    assert_eq!(cat.sheets[1].sprite_type.sprite_size(), (32, 64));
    assert_eq!(cat.sheet_for_sprite(10).unwrap().first_id, 0);
    assert_eq!(cat.sheet_for_sprite(150).unwrap().first_id, 144);
    assert!(cat.sheet_for_sprite(5000).is_none());
}

#[test]
fn catalog_text_must_be_a_json_array() {
    assert!(matches!(parse_catalog("{\"type\":\"sprite\"}"), Err(CatalogError::NotArray)));
    assert!(matches!(parse_catalog("[{"), Err(CatalogError::InvalidJson(_))));
    assert_eq!(CatalogError::NotArray.message(), "catalog-content.json deve ser um array JSON");
    let cat = parse_catalog("[]").unwrap();
    assert!(cat.sheets.is_empty());
}

#[test]
fn catalog_sorts_sheets_stably_and_skips_incomplete_entries() {
    let entries = vec![
        entry("sprite", Some("c"), Some(300), Some(400), Some(3)),
        entry("sprite", Some("a"), Some(1), Some(100), Some(2)),
        entry("sprite", Some("b"), Some(50), Some(100), None),
        entry("sprite", Some("x"), None, Some(900), None),
        entry("appearances", None, None, None, None),
    ];
    let cat = catalog_from_entries(&entries);
    let files: Vec<&str> = cat.sheets.iter().map(|s| s.file.as_str()).collect();
    assert_eq!(files, vec!["a", "b", "c"]);
    assert_eq!(cat.sheets[0].sprite_type, SpriteLayout::TwoByOne);
    assert_eq!(cat.sheets[2].sprite_type, SpriteLayout::TwoByTwo);
    assert_eq!(cat.sprites_count, 400);
    assert_eq!(cat.appearance_file, "");
    assert!(cat.sheet_for_sprite(0).is_none());
    assert!(cat.sheet_for_sprite(200).is_none());
    assert_eq!(cat.sheet_for_sprite(350).unwrap().file, "c");
}

#[test]
fn pattern_stride_and_frame_duration() {
    let t = ItemType { pattern_width: 2, pattern_height: 0, pattern_depth: 3, layers: 2, ..Default::default() };
    assert_eq!(pattern_stride(&t), 12);
    assert_eq!(resolve_dur_ms(&[]), 0);
    assert_eq!(resolve_dur_ms(&[(100, 300), (0, 0)]), 200);
    assert_eq!(resolve_dur_ms(&[(0, 0), (0, 0)]), 1);
    assert_eq!(resolve_dur_ms(&[(100, 100), (300, 300)]), 200);
}

#[test]
fn floor_stack_and_view_settings() {
    assert_eq!(compute_floor_stack(7), (7, 7, 0));
    assert_eq!(compute_floor_stack(3), (7, 3, 0));
    assert_eq!(compute_floor_stack(9), (11, 9, 8));
    assert_eq!(compute_floor_stack(14), (15, 14, 8));
    assert_eq!(AntiAliasing::Retro.label(), "Retro (Sharp Bilinear)");
    assert_eq!(AntiAliasing::RoundedEdges.shader_mode(), 3);
    let o = ShaderOptions::default();
    assert!(o.checkerboard_dither && o.crt_bloom && o.crt_color);
}

#[test]
fn spr_offsets_and_run_length_decoding() {
    let offsets = [10u32, 0, 30];
    assert_eq!(sprite_offset(&offsets, 0), None);
    assert_eq!(sprite_offset(&offsets, 1), Some(10));
    assert_eq!(sprite_offset(&offsets, 2), None);
    assert_eq!(sprite_offset(&offsets, 3), Some(30));
    assert_eq!(sprite_offset(&offsets, 4), None);

    // skip 2 pixels, then 2 coloured pixels (RGB, no alpha)
    let data = [2u8, 0, 2, 0, 1, 2, 3, 4, 5, 6];
    let px = decode_sprite(&data, false);
    assert_eq!(px.len(), 4096);
    assert_eq!(&px[0..8], &[0; 8]);
    assert_eq!(&px[8..16], &[1, 2, 3, 255, 4, 5, 6, 255]);
    assert!(px[16..].iter().all(|&b| b == 0));

    // with alpha; the second run is cut short by the end of the data
    let data = [0u8, 0, 1, 0, 9, 8, 7, 6, 1, 0, 5, 0, 1, 1, 1];
    let px = decode_sprite(&data, true);
    assert_eq!(&px[0..4], &[9, 8, 7, 6]);
    assert!(px[4..].iter().all(|&b| b == 0));
}

#[test]
fn sheet_header_errors() {
    assert!(matches!(parse_sheet_header(&[0, 0, 0]), Err(SheetError::TruncatedHeader)));
    assert!(matches!(decode_sheet(&[0, 0, 0x70, 0x0A, 0xFA]), Err(SheetError::TruncatedHeader)));
    let mut header = vec![0u8; 32];
    header.extend_from_slice(&[0x70, 0x0A, 0xFA, 0x80, 0x24, 0x81, 0x01, 0x5D]);
    header.extend_from_slice(&0x1000u32.to_le_bytes());
    header.extend_from_slice(&[0; 8]);
    let h = parse_sheet_header(&header).unwrap();
    assert_eq!(h.lclppb, 0x5D);
    assert_eq!(h.dict_size, 0x1000);
    assert_eq!(h.data_start, header.len());
    assert!(matches!(sheet_from_output(&[0u8; 100]), Err(SheetError::TruncatedOutput)));
}

fn bitmap() -> Vec<u8> {
    let mut out = vec![0u8; 122];
    out[10..14].copy_from_slice(&122u32.to_le_bytes());
    for row in 0..384usize {
        for col in 0..1536usize {
            out.push(((row * 7 + col) % 251) as u8);
        }
    }
    out
}

#[test]
fn sheet_rows_are_flipped() {
    let out = bitmap();
    let sheet = sheet_from_output(&out).unwrap();
    assert_eq!(sheet.len(), SHEET_BYTES);
    for row in [0usize, 1, 200, 383] {
        let src = 122 + (383 - row) * 1536;
        assert_eq!(&sheet[row * 1536..(row + 1) * 1536], &out[src..src + 1536]);
    }
}

#[test]
fn decodes_a_compressed_sheet() {
    let out = bitmap();
    let mut packed = Vec::new();
    lzma_rs::lzma_compress(&mut std::io::Cursor::new(&out), &mut packed).unwrap();
    // .lzma: properties (1 byte), dictionary size (4), unpacked size (8), raw data
    let props = packed[0];
    let dict = &packed[1..5];
    let raw = &packed[13..];
    let mut file = vec![0u8; 32];
    file.extend_from_slice(&[0x70, 0x0A, 0xFA, 0x80, 0x24, 0x01, props]);
    file.extend_from_slice(dict);
    file.extend_from_slice(&[0; 8]);
    file.extend_from_slice(raw);
    let sheet = decode_sheet(&file).unwrap();
    assert_eq!(sheet, sheet_from_output(&out).unwrap());
    // damaged data is refused by the decoder
    let cut = &file[..file.len() / 2];
    assert!(matches!(decode_sheet(cut), Err(SheetError::Lzma(_)) | Err(SheetError::TruncatedOutput)));
}

#[test]
fn sheet_errors_have_their_texts() {
    assert_eq!(SheetError::TruncatedHeader.message(), "cabeçalho CIP truncado");
    assert_eq!(SheetError::TruncatedOutput.message(), "saída LZMA menor que o esperado");
}
