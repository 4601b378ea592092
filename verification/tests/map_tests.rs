use rme_editor::appearances::{ItemGroup, ItemType, ItemTypeTable};
use rme_editor::document::MapDocument;
use rme_editor::history::History;
use rme_editor::import::{import_otbm, is_subtype_embedded, to_item, Bounds};
use rme_editor::item::{Item, ItemAttrFlags, Tile, TileZoneFlags};
use rme_editor::otbm::{
    OtbmDocument, OtmItem, OtmTile, TILESTATE_NOLOGOUT, TILESTATE_PROTECTIONZONE,
};
use rme_editor::position::{ChunkCoord, Position};
use rme_editor::spatial_map::SpatialMap;

fn table() -> ItemTypeTable {
    let mut items = vec![None; 2001];
    items[96] = Some(ItemType { id: 96, group: ItemGroup::Ground, sprite_ids: vec![1000], ..Default::default() });
    items[100] = Some(ItemType { id: 100, group: ItemGroup::Ground, sprite_ids: vec![1100], ..Default::default() });
    items[2000] = Some(ItemType {
        id: 2000,
        group: ItemGroup::None_,
        always_on_bottom: true,
        always_on_top_order: 2,
        ..Default::default()
    });
    ItemTypeTable { items, max_item_id: 2000 }
}

fn tile(x: u16, y: u16, z: u8, flags: u32, house_id: u32, items: Vec<(u16, u16)>) -> OtmTile {
    OtmTile {
        x,
        y,
        z,
        flags,
        house_id,
        items: items
            .into_iter()
            .map(|(id, subtype)| {
                let mut it = OtmItem { id, ..Default::default() };
                it.subtype = subtype;
                it
            })
            .collect(),
    }
}

#[test]
fn imports_ground_zone_and_house() {
    let table = table();
    let doc = OtbmDocument {
        version: 2,
        description: "test".into(),
        tiles: vec![tile(1, 2, 7, TILESTATE_PROTECTIONZONE | TILESTATE_NOLOGOUT, 77, vec![(96, 0)])],
        ..Default::default()
    };
    let (doc, bounds) = import_otbm(&doc, &table);
    let t = doc.map.get_tile(Position { x: 1, y: 2, z: 7 }).unwrap();
    assert_eq!(t.ground.as_ref().unwrap().type_id, 96);
    assert!(t.zone.contains(TileZoneFlags::PROTECTION_ZONE));
    assert!(t.zone.contains(TileZoneFlags::NO_LOGOUT));
    assert!(t.zone.contains(TileZoneFlags::HOUSE_TILE));
    assert_eq!(t.house_id, 77);
    assert_eq!(bounds.min_x, 1);
    assert_eq!(bounds.max_x, 1);
    assert_eq!(bounds.max_y, 2);
}

#[test]
fn ground_overwrites_and_bottom_items_are_ordered() {
    let table = table();
    let doc = OtbmDocument {
        version: 2,
        tiles: vec![tile(0, 0, 7, 0, 0, vec![(2000, 0), (96, 0), (100, 0), (2000, 0)])],
        ..Default::default()
    };
    let (doc, _) = import_otbm(&doc, &table);
    let t = doc.map.get_tile(Position { x: 0, y: 0, z: 7 }).unwrap();
    assert_eq!(t.ground.as_ref().unwrap().type_id, 100);
    assert_eq!(t.items.len(), 2);
    assert!((0..t.items.len()).all(|i| t.items.get(i).type_id == 2000));
}

#[test]
fn subtype_embedded_detects_stackables_and_fluids() {
    let mut table = table();
    table.items[7] = Some(ItemType { id: 7, stackable: true, ..Default::default() });
    table.items[8] = Some(ItemType { id: 8, group: ItemGroup::Fluid, ..Default::default() });
    table.items[9] = Some(ItemType { id: 9, group: ItemGroup::Splash, ..Default::default() });
    assert!(is_subtype_embedded(&table, 7));
    assert!(is_subtype_embedded(&table, 8));
    assert!(is_subtype_embedded(&table, 9));
    assert!(!is_subtype_embedded(&table, 96));
    assert!(!is_subtype_embedded(&table, 9999));
}

#[test]
fn bottom_items_stack_by_order_and_others_go_on_top() {
    let mut table = table();
    table.items[1500] = Some(ItemType { id: 1500, always_on_bottom: true, always_on_top_order: 1, ..Default::default() });
    table.items[1600] = Some(ItemType { id: 1600, ..Default::default() });
    let doc = OtbmDocument {
        tiles: vec![tile(5, 5, 7, 0, 0, vec![(1600, 0), (2000, 0), (1500, 0), (1234, 0)])],
        ..Default::default()
    };
    let (doc, bounds) = import_otbm(&doc, &table);
    let t = doc.map.get_tile(Position { x: 5, y: 5, z: 7 }).unwrap();
    let ids: Vec<u16> = (0..t.items.len()).map(|i| t.items.get(i).type_id).collect();
    assert_eq!(ids, vec![1500, 2000, 1600, 1234]);
    assert_eq!(doc.name, "map.otbm");
    assert_eq!(bounds, Bounds { min_x: 5, min_y: 5, max_x: 5, max_y: 5, min_z: 7, max_z: 7 });
}

#[test]
fn bounds_cover_all_tiles() {
    let table = table();
    let doc = OtbmDocument {
        tiles: vec![tile(10, 4, 7, 0, 0, vec![]), tile(3, 9, 6, 0, 0, vec![]), tile(8, 2, 8, 0, 0, vec![])],
        ..Default::default()
    };
    let (_, bounds) = import_otbm(&doc, &table);
    assert_eq!(bounds, Bounds { min_x: 3, min_y: 2, max_x: 10, max_y: 9, min_z: 6, max_z: 8 });
}

#[test]
fn to_item_keeps_count_ids_text_and_contents() {
    let table = table();
    let inner = OtmItem { id: 3031, subtype: 300, ..Default::default() };
    let src = OtmItem {
        id: 1987,
        action_id: 5,
        text: Some("hi".to_string()),
        container: vec![inner],
        ..Default::default()
    };
    let item = to_item(&src, &table);
    assert_eq!(item.type_id, 1987);
    assert_eq!(item.count, 1);
    assert_eq!(item.action_id, 5);
    assert!(item.attrs.contains(ItemAttrFlags::HAS_ACTION_ID | ItemAttrFlags::HAS_TEXT | ItemAttrFlags::HAS_CONTAINER));
    assert!(!item.attrs.contains(ItemAttrFlags::HAS_COUNT));
    assert_eq!(item.text.as_deref(), Some("hi"));
    let contents = item.container.as_ref().unwrap();
    assert_eq!(contents.len(), 1);
    assert_eq!(contents[0].type_id, 3031);
    assert_eq!(contents[0].count, 255);
    assert!(contents[0].attrs.contains(ItemAttrFlags::HAS_COUNT));
}

fn grass_tile(id: u16) -> Tile {
    let mut t = Tile::default();
    t.ground = Some(Item::new(id));
    t
}

#[test]
fn undo_restores_and_redo_reapplies() {
    let mut doc = MapDocument::new("m");
    let p = Position { x: 40, y: 40, z: 7 };
    let q = Position { x: 41, y: 40, z: 7 };
    let mut tx = doc.begin_transaction("Draw");
    tx.record_before(&doc, p);
    tx.record_before(&doc, q);
    tx.set_after(p, grass_tile(96));
    tx.set_after(q, grass_tile(100));
    tx.commit(&mut doc);
    assert!(doc.dirty);
    assert_eq!(doc.map.get_tile(p).unwrap().ground.as_ref().unwrap().type_id, 96);
    assert_eq!(doc.map.get_tile(q).unwrap().ground.as_ref().unwrap().type_id, 100);

    assert!(doc.history.undo(&mut doc.map));
    // the chunk was left empty, so it is freed
    assert!(doc.map.get_tile(p).is_none());
    assert!(doc.map.get_tile(q).is_none());
    assert!(!doc.history.undo(&mut doc.map));

    assert!(doc.history.redo(&mut doc.map));
    assert_eq!(doc.map.get_tile(p).unwrap().ground.as_ref().unwrap().type_id, 96);
    assert!(!doc.history.redo(&mut doc.map));
}

#[test]
fn empty_transaction_changes_nothing() {
    let mut doc = MapDocument::new("m");
    let tx = doc.begin_transaction("Nothing");
    tx.commit(&mut doc);
    assert!(!doc.dirty);
    assert!(!doc.history.undo(&mut doc.map));
}

#[test]
fn set_after_changes_only_the_first_record_at_a_position() {
    let mut doc = MapDocument::new("m");
    let p = Position { x: 1, y: 1, z: 7 };
    let mut tx = doc.begin_transaction("Draw");
    tx.record_before(&doc, p);
    tx.record_before(&doc, p);
    tx.set_after(p, grass_tile(96));
    tx.commit(&mut doc);
    // the second record sets the tile back to empty, after the first
    let t = doc.map.get_tile(p).unwrap();
    assert!(t.is_empty());
}

#[test]
fn map_tracks_dirty_chunks() {
    let mut map = SpatialMap::new();
    assert!(map.get_tile(Position { x: 70, y: 3, z: 7 }).is_none());
    *map.get_tile_mut(Position { x: 70, y: 3, z: 7 }) = grass_tile(96);
    let dirty = map.dirty_chunks();
    assert_eq!(dirty, vec![ChunkCoord { cx: 2, cy: 0, z: 7 }]);
    map.clear_dirty(&ChunkCoord { cx: 2, cy: 0, z: 7 });
    assert!(map.dirty_chunks().is_empty());
    assert_eq!(map.get_tile(Position { x: 70, y: 3, z: 7 }).unwrap().ground.as_ref().unwrap().type_id, 96);
    // a chunk that still holds something is not freed
    map.compact_chunk_if_empty(ChunkCoord { cx: 2, cy: 0, z: 7 });
    assert!(map.get_tile(Position { x: 70, y: 3, z: 7 }).is_some());
}

#[test]
fn positions_map_to_chunks() {
    let p = Position { x: 70, y: 33, z: 7 };
    assert_eq!(p.chunk_coord(), ChunkCoord { cx: 2, cy: 1, z: 7 });
    assert_eq!(p.local_index(), 32 + 6);
}

#[test]
fn only_max_depth_commands_can_be_undone() {
    let mut doc = MapDocument::new("m");
    doc.history = History::new(2);
    for (i, id) in [96u16, 100, 96].iter().enumerate() {
        let p = Position { x: 10 + i as u16, y: 10, z: 7 };
        let mut tx = doc.begin_transaction("Draw");
        tx.record_before(&doc, p);
        tx.set_after(p, grass_tile(*id));
        tx.commit(&mut doc);
    }
    assert!(doc.history.undo(&mut doc.map));
    assert!(doc.history.undo(&mut doc.map));
    assert!(!doc.history.undo(&mut doc.map));
    // the first command was dropped: its tile stays
    assert_eq!(doc.map.get_tile(Position { x: 10, y: 10, z: 7 }).unwrap().ground.as_ref().unwrap().type_id, 96);
    assert!(doc.map.get_tile(Position { x: 11, y: 10, z: 7 }).unwrap().ground.is_none());
}
