use rme_editor::binary::{build_tree, ESCAPE_CHAR, NODE_END, NODE_START};
use rme_editor::otbm::{
    parse, OtbmDocument, OtbmError, OtbmWarning, OtmPos, MAP_OTBM_1, MAP_OTBM_2, MAP_OTBM_4, OTBM_ATTR_COUNT,
    OTBM_ATTR_DESCRIPTION, OTBM_ATTR_ITEM, OTBM_ATTR_TEXT, OTBM_ATTR_TILE_FLAGS, OTBM_ITEM, OTBM_MAP_DATA,
    OTBM_ROOTV1, OTBM_TILE, OTBM_TILE_AREA, OTBM_TOWN, OTBM_TOWNS, TILESTATE_PROTECTIONZONE,
};

struct W {
    bytes: Vec<u8>,
}

impl W {
    fn escaped(b: u8) -> [u8; 2] {
        if matches!(b, NODE_START | NODE_END | ESCAPE_CHAR) {
            [ESCAPE_CHAR, b]
        } else {
            [b, 0]
        }
    }

    fn start_node(&mut self, ty: u8) {
        self.bytes.push(NODE_START);
        self.bytes.push(ty);
    }
    fn root(&mut self, ty: u8) {
        self.bytes.push(ty);
    }
    fn end_node(&mut self) {
        self.bytes.push(NODE_END);
    }
    fn u8(&mut self, b: u8) {
        self.bytes.push(b);
    }
    fn u16(&mut self, v: u16) {
        self.bytes.extend_from_slice(&v.to_le_bytes());
    }
    fn u32(&mut self, v: u32) {
        self.bytes.extend_from_slice(&v.to_le_bytes());
    }
    fn string(&mut self, s: &str) {
        self.raw_string(s.as_bytes());
    }
    fn raw_string(&mut self, bytes: &[u8]) {
        self.u16(bytes.len() as u16);
        for &b in bytes {
            let e = Self::escaped(b);
            self.bytes.push(e[0]);
            if e[1] != 0 {
                self.bytes.push(e[1]);
            }
        }
    }
}

fn doc(bytes: &[u8]) -> OtbmDocument {
    parse(bytes, |_| false).expect("parse deve ter sucesso")
}

#[test]
fn parses_escaped_tokens_and_nesting() {
    let mut w = W { bytes: Vec::new() };
    w.bytes.extend_from_slice(&[0, 0, 0, 0, NODE_START]);
    w.root(OTBM_ROOTV1);
    w.u32(MAP_OTBM_4);
    w.u16(100);
    w.u16(200);
    w.start_node(OTBM_MAP_DATA);
    w.u8(OTBM_ATTR_DESCRIPTION);
    w.string("chão com caçamba");
    w.start_node(OTBM_TILE_AREA);
    w.u16(1000);
    w.u16(2000);
    w.u8(7);
    w.start_node(OTBM_TILE);
    w.u8(1);
    w.u8(2);
    w.u8(OTBM_ATTR_TILE_FLAGS);
    w.u32(TILESTATE_PROTECTIONZONE);
    w.start_node(OTBM_ITEM);
    w.u16(3040);
    w.u8(OTBM_ATTR_TEXT);
    w.raw_string(&[0xFE, 0xFF, 0xFD, b' ', b'x']);
    w.u8(OTBM_ATTR_COUNT);
    w.u8(5);
    w.end_node();
    w.end_node();
    w.end_node();
    w.end_node();
    w.end_node();

    let d = doc(&w.bytes);
    assert_eq!(d.version, MAP_OTBM_4);
    assert_eq!((d.width, d.height), (100, 200));
    assert_eq!(d.description, "chão com caçamba");
    assert_eq!(d.tiles.len(), 1);
    let tile = &d.tiles[0];
    assert_eq!((tile.x, tile.y, tile.z), (1001, 2002, 7));
    assert_eq!(tile.flags, TILESTATE_PROTECTIONZONE);
    assert_eq!(tile.items.len(), 1);
    let item = &tile.items[0];
    assert_eq!(item.id, 3040);
    assert_eq!(item.subtype, 5);
    assert_eq!(item.text.as_deref(), Some("\u{fffd}\u{fffd}\u{fffd} x"));
    assert!(d.warnings.is_empty(), "warnings: {:?}", d.warnings);
}

#[test]
fn parses_container_and_town() {
    let mut w = W { bytes: Vec::new() };
    w.bytes.extend_from_slice(&[0, 0, 0, 0, NODE_START]);
    w.root(OTBM_ROOTV1);
    w.u32(MAP_OTBM_2);
    w.u16(10);
    w.u16(10);
    w.start_node(OTBM_MAP_DATA);
    w.start_node(OTBM_TILE_AREA);
    w.u16(0);
    w.u16(0);
    w.u8(7);
    w.start_node(OTBM_TILE);
    w.u8(0);
    w.u8(0);
    w.start_node(OTBM_ITEM);
    w.u16(1987);
    w.start_node(OTBM_ITEM);
    w.u16(4600);
    w.u8(OTBM_ATTR_COUNT);
    w.u8(1);
    w.end_node();
    w.end_node();
    w.end_node();
    w.end_node();
    w.start_node(OTBM_TOWNS);
    w.start_node(OTBM_TOWN);
    w.u32(1);
    w.string("Dawnport");
    w.u16(32064);
    w.u16(31892);
    w.u8(6);
    w.end_node();
    w.end_node();
    w.end_node();
    w.end_node();

    let d = doc(&w.bytes);
    assert_eq!(d.tiles[0].items[0].id, 1987);
    assert_eq!(d.tiles[0].items[0].container.len(), 1);
    assert_eq!(d.tiles[0].items[0].container[0].id, 4600);
    assert_eq!(d.towns.len(), 1);
    assert_eq!(d.towns[0].name, "Dawnport");
    assert_eq!(d.towns[0].temple, OtmPos { x: 32064, y: 31892, z: 6 });
}

#[test]
fn rejects_bad_header() {
    assert!(matches!(parse(&[0, 0, 0, 0, 0xFE], |_| false), Err(OtbmError::Truncated(_))));
    assert!(matches!(parse(&[0, 0, 0, 0], |_| false), Err(OtbmError::TooSmall)));
    assert!(matches!(parse(b"NOTOTBM!!!", |_| false), Err(OtbmError::BadMagic)));
    let mut short = vec![0u8; 5];
    short[4] = NODE_START;
    assert!(matches!(parse(&short, |_| false), Err(OtbmError::Truncated(_))));
}

fn header(w: &mut W, version: u32) {
    w.bytes.extend_from_slice(b"OTBM");
    w.bytes.push(NODE_START);
    w.root(OTBM_ROOTV1);
    w.u32(version);
    w.u16(1);
    w.u16(1);
}

#[test]
fn rejects_file_without_map_data_and_bad_root() {
    let mut w = W { bytes: Vec::new() };
    header(&mut w, MAP_OTBM_2);
    w.end_node();
    assert!(matches!(parse(&w.bytes, |_| false), Err(OtbmError::MissingMapData)));
    assert!(matches!(parse(&[b'O', b'T', b'B', b'M', 0x00], |_| false), Err(OtbmError::BadRootNode)));
}

#[test]
fn duplicate_tiles_and_repeated_warnings_are_reported_once() {
    let mut w = W { bytes: Vec::new() };
    header(&mut w, MAP_OTBM_2);
    w.start_node(OTBM_MAP_DATA);
    w.u8(77);
    w.u8(77);
    w.start_node(OTBM_TILE_AREA);
    w.u16(10);
    w.u16(20);
    w.u8(7);
    for _ in 0..3 {
        w.start_node(OTBM_TILE);
        w.u8(1);
        w.u8(1);
        w.end_node();
    }
    w.end_node();
    w.end_node();
    w.end_node();
    let d = doc(&w.bytes);
    assert_eq!(d.tiles.len(), 1);
    assert_eq!(
        d.warnings,
        vec![
            OtbmWarning::UnknownHeaderAttr(77),
            OtbmWarning::DuplicateTile(OtmPos { x: 11, y: 21, z: 7 }),
        ]
    );
}

#[test]
fn first_version_reads_inline_subtype_only_for_marked_ids() {
    let build = |version: u32| {
        let mut w = W { bytes: Vec::new() };
        header(&mut w, version);
        w.start_node(OTBM_MAP_DATA);
        w.start_node(OTBM_TILE_AREA);
        w.u16(0);
        w.u16(0);
        w.u8(7);
        w.start_node(OTBM_TILE);
        w.u8(0);
        w.u8(0);
        w.u8(OTBM_ATTR_ITEM);
        w.u16(2148);
        w.u8(9);
        w.end_node();
        w.end_node();
        w.end_node();
        w.end_node();
        w.bytes
    };
    let v1 = parse(&build(MAP_OTBM_1), |id| id == 2148).unwrap();
    assert_eq!(v1.tiles[0].items.len(), 1);
    assert_eq!(v1.tiles[0].items[0].subtype, 9);
    let v2 = parse(&build(MAP_OTBM_2), |id| id == 2148).unwrap();
    assert_eq!(v2.tiles[0].items[0].subtype, 0);
    assert_eq!(v2.tiles[0].items.len(), 1);
    assert_eq!(v2.warnings, vec![OtbmWarning::LegacyItemWithoutId]);
    assert!(v1.warnings.is_empty());
}

#[test]
fn duplicate_tile_keeps_the_first_and_duplicate_town_is_dropped() {
    let mut w = W { bytes: Vec::new() };
    header(&mut w, MAP_OTBM_2);
    w.start_node(OTBM_MAP_DATA);
    w.start_node(OTBM_TILE_AREA);
    w.u16(100);
    w.u16(100);
    w.u8(7);
    for id in [4526u16, 4527] {
        w.start_node(OTBM_TILE);
        w.u8(0);
        w.u8(0);
        w.start_node(OTBM_ITEM);
        w.u16(id);
        w.end_node();
        w.end_node();
    }
    w.end_node();
    w.start_node(OTBM_TOWNS);
    for name in ["Thais", "Venore"] {
        w.start_node(OTBM_TOWN);
        w.u32(3);
        w.string(name);
        w.u16(1);
        w.u16(2);
        w.u8(7);
        w.end_node();
    }
    w.end_node();
    w.end_node();
    w.end_node();
    let d = doc(&w.bytes);
    assert_eq!(d.tiles.len(), 1);
    assert_eq!(d.tiles[0].items[0].id, 4526);
    assert_eq!(d.towns.len(), 1);
    assert_eq!(d.towns[0].name, "Thais");
    assert_eq!(
        d.warnings,
        vec![OtbmWarning::DuplicateTile(OtmPos { x: 100, y: 100, z: 7 }), OtbmWarning::DuplicateTown(3)]
    );
}

#[test]
fn refuses_versions_newer_than_the_last_known() {
    let mut w = W { bytes: Vec::new() };
    header(&mut w, 6);
    w.start_node(OTBM_MAP_DATA);
    w.end_node();
    w.end_node();
    assert!(matches!(parse(&w.bytes, |_| false), Err(OtbmError::UnsupportedVersion(6))));
    let mut ok = W { bytes: Vec::new() };
    header(&mut ok, 5);
    ok.start_node(OTBM_MAP_DATA);
    ok.end_node();
    ok.end_node();
    assert!(parse(&ok.bytes, |_| false).is_ok());
}

#[test]
fn escaped_node_stream_reads_back() {
    let closed = [5u8, ESCAPE_CHAR, NODE_START, 1, NODE_START, 6, ESCAPE_CHAR, ESCAPE_CHAR, NODE_END, NODE_END];
    for bytes in [&closed[..], &closed[..closed.len() - 1]] {
        let t = build_tree(bytes);
        assert_eq!(t.data, vec![5, NODE_START, 1]);
        assert_eq!(t.children.len(), 1);
        assert_eq!(t.children[0].data, vec![6, ESCAPE_CHAR]);
        assert!(t.children[0].children.is_empty());
    }
}

#[test]
fn reports_have_their_texts() {
    assert_eq!(
        OtbmWarning::DuplicateTile(OtmPos { x: 11, y: 21, z: 7 }).message(),
        format!("tile duplicado em {:?}, descartado", OtmPos { x: 11, y: 21, z: 7 })
    );
    assert_eq!(
        OtbmWarning::UnknownItemAttr(2148, 200).message(),
        "item 2148: atributo desconhecido (200), atributos restantes ignorados"
    );
    assert_eq!(OtbmError::UnsupportedVersion(4294967295).message(), "OTBM versão 4294967295 não suportada");
    assert_eq!(OtbmError::Truncated("altura do mapa").message(), "arquivo truncado ao ler altura do mapa");
    assert_eq!(OtbmWarning::DuplicateTown(0).message(), "town id duplicado 0, descartado");
}
