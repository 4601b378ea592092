use rme_editor::anim::{entries_from_bytes, frames_from_bytes, AnimEntry, AnimPush, AnimTableState, MAX_ANIM_FRAMES};
use rme_editor::assets::{
    anim_block, animated_layer, bgra_to_rgba, cell_place, decode_sprite_cell, plan_visual, visual_type, VisualPlan, pick_sprite, sprite_cells, AnimBlockInfo, CachedSprite,
    CellPlace,
};
use rme_editor::atlas::{AtlasAppend, AtlasLayout};
use rme_editor::catalog::{SpriteLayout, SpriteSheetInfo};
use rme_editor::appearances::{ItemType, ItemTypeTable};
use rme_editor::components::ComponentUnion;
use rme_editor::document::sample_document;
use rme_editor::item::{Item, Tile};
use rme_editor::position::{ChunkCoord, Position};
use rme_editor::spatial_map::SpatialMap;
use rme_editor::scene::{chunk_draw_lists, sync_for_floor};
use rme_editor::sprite::SHEET_BYTES;
use rme_editor::tabs::{compute_map_bounds, floor_layers, floors_to_sync, EditorTab};

#[test]
fn union_joins_classes_and_find_agrees() {
    let mut u = ComponentUnion::new(6);
    for i in 0..6 {
        assert_eq!(u.find(i), i);
    }
    u.union(0, 1);
    u.union(2, 3);
    assert_eq!(u.find(0), u.find(1));
    assert_eq!(u.find(2), u.find(3));
    assert_ne!(u.find(0), u.find(2));
    u.union(1, 3);
    let r = u.find(0);
    for i in 0..4 {
        assert_eq!(u.find(i), r);
    }
    assert_eq!(u.find(4), 4);
    assert_eq!(u.find(5), 5);
}

#[test]
fn union_keeps_the_larger_class_representative() {
    let mut u = ComponentUnion::new(4);
    u.union(0, 1); // tie: 0 stays
    assert_eq!(u.find(1), 0);
    u.union(2, 0); // {2} is smaller than {0, 1}: 0 stays
    assert_eq!(u.find(2), 0);
    u.union(3, 3);
    assert_eq!(u.find(3), 3);
}

fn ground_tile(id: u16) -> Tile {
    let mut t = Tile::default();
    t.ground = Some(Item::new(id));
    t
}

#[test]
fn map_bounds_cover_grounded_tiles_of_the_floor() {
    let mut map = SpatialMap::new();
    assert_eq!(compute_map_bounds(&map, 7), None);
    *map.get_tile_mut(Position { x: 100, y: 200, z: 7 }) = ground_tile(4526);
    *map.get_tile_mut(Position { x: 140, y: 190, z: 7 }) = ground_tile(4526);
    *map.get_tile_mut(Position { x: 10, y: 10, z: 6 }) = ground_tile(4526);
    // a tile without ground does not count
    let _ = map.get_tile_mut(Position { x: 5, y: 5, z: 7 });
    assert_eq!(compute_map_bounds(&map, 7), Some((100, 190, 140, 200)));
    assert_eq!(compute_map_bounds(&map, 6), Some((10, 10, 10, 10)));
    assert_eq!(compute_map_bounds(&map, 8), None);
}

#[test]
fn bgra_becomes_rgba() {
    let bgra = [1u8, 2, 3, 4, 5, 6, 7, 8, 9, 10];
    assert_eq!(bgra_to_rgba(&bgra), vec![3, 2, 1, 4, 7, 6, 5, 8, 0, 0]);
}

#[test]
fn sprites_fill_the_sheet_row_by_row() {
    assert_eq!(cell_place(SpriteLayout::OneByOne, 100, 100), CellPlace { x0: 0, y0: 0, width: 1, height: 1 });
    assert_eq!(cell_place(SpriteLayout::OneByOne, 100, 113), CellPlace { x0: 32, y0: 32, width: 1, height: 1 });
    assert_eq!(cell_place(SpriteLayout::TwoByTwo, 0, 35), CellPlace { x0: 320, y0: 320, width: 2, height: 2 });
    assert_eq!(cell_place(SpriteLayout::OneByTwo, 10, 22), CellPlace { x0: 0, y0: 64, width: 1, height: 2 });
}

#[test]
fn sprite_blocks_copy_the_sheet() {
    let sheet: Vec<u8> = (0..SHEET_BYTES).map(|i| (i % 251) as u8).collect();
    let place = CellPlace { x0: 64, y0: 32, width: 2, height: 1 };
    let cells = sprite_cells(&sheet, place);
    assert_eq!(cells.len(), 2);
    assert_eq!(cells[0].len(), 4096);
    // first byte of the first block: pixel (64, 32)
    assert_eq!(cells[0][0], sheet[32 * 1536 + 64 * 4]);
    // second row of the second block: pixel (96, 33)
    assert_eq!(cells[1][128], sheet[33 * 1536 + 96 * 4]);
    assert_eq!(cells[1][4095], sheet[63 * 1536 + 127 * 4 + 3]);
}

#[test]
fn animation_strip_needs_contiguous_sprites() {
    let s = |base_layer: u32| CachedSprite { base_layer, width: 1, height: 1 };
    let phases = [(100u32, 300u32), (200, 200)];
    let b = anim_block(&[s(5), s(6), s(7), s(8)], &phases, 2);
    assert_eq!(
        b,
        AnimBlockInfo {
            frames: 2,
            strip_base: 5,
            sprites_per_frame: 2,
            cells_per_sprite: 1,
            width: 1,
            height: 1,
            dur_ms: 200
        }
    );
    let broken = anim_block(&[s(5), s(7)], &phases, 2);
    assert_eq!(broken.frames, 0);
    assert_eq!(anim_block(&[], &phases, 2).frames, 0);
    assert_eq!(animated_layer(&b, 3), Some((8, 2)));
    assert_eq!(animated_layer(&broken, 3), None);
}

#[test]
fn sprite_pick_falls_back_to_the_first() {
    assert_eq!(pick_sprite(&vec![7, 8, 9], 2), Some(9));
    assert_eq!(pick_sprite(&vec![7, 8, 9], 5), Some(7));
    assert_eq!(pick_sprite(&vec![], 0), None);
}

#[test]
fn anim_table_reserves_entry_zero_and_refuses_overflow() {
    let (mut t, first) = AnimTableState::new();
    assert_eq!(
        first,
        AnimPush::Added {
            id: 0,
            first_frame: 0,
            entry: AnimEntry { first_frame: 0, frame_count: 1, frame_duration_ms: 1, mode: 0 }
        }
    );
    let p = t.push_animated(4, 0, true);
    assert_eq!(
        p,
        AnimPush::Added {
            id: 1,
            first_frame: 1,
            entry: AnimEntry { first_frame: 1, frame_count: 4, frame_duration_ms: 1, mode: 1 }
        }
    );
    assert_eq!(p.id(), 1);
    let full = t.push_animated(MAX_ANIM_FRAMES as usize, 100, false);
    assert_eq!(full, AnimPush::FramesFull);
    assert_eq!(full.id(), 0);
    assert_eq!(t.push_static().id(), 2);
}

#[test]
fn atlas_grows_by_doubling_rows() {
    // a 256-pixel texture: 8 columns, at most 8 rows
    let mut a = AtlasLayout::new(256);
    assert_eq!(a.columns(), 8);
    assert_eq!(a.max_layers(), 64);
    assert_eq!(a.layer_count(), 1);
    for slot in 1..8 {
        assert_eq!(a.plan_append(), AtlasAppend::Place { slot, grow_to: None });
        a.commit_append(None);
    }
    assert_eq!(a.plan_append(), AtlasAppend::Place { slot: 8, grow_to: Some(2) });
    a.commit_append(Some(2));
    assert_eq!(a.cell_origin(9), (32, 32));
    for _ in 9..16 {
        if let AtlasAppend::Place { grow_to, .. } = a.plan_append() {
            assert_eq!(grow_to, None);
            a.commit_append(grow_to);
        } else {
            panic!("room left");
        }
    }
    assert_eq!(a.plan_append(), AtlasAppend::Place { slot: 16, grow_to: Some(4) });
    assert_eq!(a.grown_rows(7), Some(8));
    assert_eq!(a.grown_rows(9), None);
}

#[test]
fn atlas_columns_are_a_power_of_two() {
    assert_eq!(AtlasLayout::new(8192).columns(), 256);
    assert_eq!(AtlasLayout::new(8000).columns(), 128);
    assert_eq!(AtlasLayout::new(0).columns(), 1);
}

#[test]
fn sample_document_lays_a_patch_of_ground() {
    let doc = sample_document(4);
    assert_eq!(doc.name, "Global.otbm");
    let ground = |x: u16, y: u16| doc.map.get_tile(Position { x, y, z: 7 }).and_then(|t| t.ground.as_ref().map(|g| g.type_id));
    assert_eq!(ground(0, 0), Some(1));
    assert_eq!(ground(1, 0), Some(2));
    assert_eq!(ground(0, 1), Some(4));
    assert_eq!(ground(1, 1), Some(1));
    assert_eq!(ground(15, 15), Some(1 + (15 + 15 * 7) % 4));
    assert_eq!(ground(16, 0), None);
    assert_eq!(compute_map_bounds(&doc.map, 7), Some((0, 0, 15, 15)));
    let only_one = sample_document(0);
    assert_eq!(only_one.map.get_tile(Position { x: 3, y: 9, z: 7 }).unwrap().ground.as_ref().unwrap().type_id, 1);
}

#[test]
fn tab_titles_name_the_document() {
    let docs = vec![sample_document(1)];
    assert_eq!(EditorTab::Viewport { doc_index: 0 }.title(&docs), "Global.otbm");
    assert_eq!(EditorTab::Viewport { doc_index: 3 }.title(&docs), "Viewport");
    assert_eq!(EditorTab::Minimap.title(&docs), "Minimap");
}

#[test]
fn draw_lists_put_grounds_first_then_stack_levels() {
    let mut map = SpatialMap::new();
    let a = Position { x: 33, y: 32, z: 7 };
    let b = Position { x: 32, y: 33, z: 7 };
    {
        let t = map.get_tile_mut(a);
        t.ground = Some(Item::new(100));
        t.push_item(Item::new(200));
        t.push_item(Item::new(201));
    }
    {
        let t = map.get_tile_mut(b);
        t.ground = Some(Item::new(101));
        t.push_item(Item::new(300));
    }
    let coord = ChunkCoord { cx: 1, cy: 1, z: 7 };
    let d = chunk_draw_lists(&map, coord);
    assert_eq!(d.grounds, vec![(a, 100), (b, 101)]);
    assert_eq!(d.item_layers.len(), 2);
    assert_eq!(d.item_layers[0], vec![(a, 200), (b, 300)]);
    assert_eq!(d.item_layers[1], vec![(a, 201)]);

    *map.get_tile_mut(Position { x: 0, y: 0, z: 6 }) = ground_tile(5);
    let synced = sync_for_floor(&mut map, 7);
    assert_eq!(synced.len(), 1);
    assert_eq!(synced[0].0, coord);
    assert_eq!(synced[0].1.grounds, vec![(a, 100), (b, 101)]);
    // the chunk of floor 6 is still to be drawn; floor 7 is clean
    assert_eq!(map.dirty_chunks(), vec![ChunkCoord { cx: 0, cy: 0, z: 6 }]);
    assert!(sync_for_floor(&mut map, 7).is_empty());
}

#[test]
fn sprite_cell_is_cut_from_its_place_in_the_sheet() {
    let sheet: Vec<u8> = (0..SHEET_BYTES).map(|i| (i % 253) as u8).collect();
    let info = SpriteSheetInfo { first_id: 1000, last_id: 1143, sprite_type: SpriteLayout::TwoByOne, file: "s.bmp.lzma".to_string() };
    // 64x32 sprites: six to a row; sprite 1007 is the second of the second row
    let cell = decode_sprite_cell(&info, 1007, &sheet);
    assert_eq!(cell.place, CellPlace { x0: 64, y0: 32, width: 2, height: 1 });
    assert_eq!(cell.cells.len(), 2);
    assert_eq!(cell.cells[1][0], sheet[32 * 1536 + 96 * 4]);
}

#[test]
fn readback_decodes_entries_and_frames() {
    let mut bytes = Vec::new();
    for v in [7u32, 3, 250, 1, 0x0102_0304, 1, 1, 0] {
        bytes.extend_from_slice(&v.to_le_bytes());
    }
    let entries = entries_from_bytes(&bytes, 2);
    assert_eq!(entries[0], AnimEntry { first_frame: 7, frame_count: 3, frame_duration_ms: 250, mode: 1 });
    assert_eq!(entries[1], AnimEntry { first_frame: 0x0102_0304, frame_count: 1, frame_duration_ms: 1, mode: 0 });
    assert_eq!(frames_from_bytes(&bytes[..12], 3), vec![7, 3, 250]);
    let (mut t, _) = AnimTableState::new();
    t.push_animated(9, 100, false);
    assert_eq!(t.readback_sizes(4), (2, 4));
    assert_eq!(t.readback_sizes(100), (2, 10));
}

#[test]
fn floor_stack_order_and_shifts() {
    assert_eq!(floors_to_sync(7), vec![7, 6, 5, 4, 3, 2, 1, 0]);
    assert_eq!(floors_to_sync(3), vec![7, 6, 5, 4, 3, 2, 1, 0]);
    assert_eq!(floors_to_sync(9), vec![11, 10, 9, 8]);
    assert_eq!(floors_to_sync(15), vec![15, 14, 13, 12, 11, 10, 9, 8]);
    assert_eq!(floor_layers(5), vec![(7, 0), (6, 32), (5, 64)]);
    assert_eq!(floor_layers(7), vec![(7, 0)]);
    assert_eq!(floor_layers(9), vec![(11, -64), (10, -32), (9, 0)]);
    assert_eq!(floor_layers(15), vec![(15, 0)]);
}

#[test]
fn no_visual_for_type_zero_or_unknown_types() {
    let mut items = vec![None; 4];
    items[0] = Some(ItemType { id: 0, ..Default::default() });
    items[3] = Some(ItemType { id: 3, ..Default::default() });
    let table = ItemTypeTable { items, max_item_id: 3 };
    assert!(visual_type(&table, 0).is_none());
    assert!(visual_type(&table, 2).is_none());
    assert!(visual_type(&table, 9).is_none());
    assert_eq!(visual_type(&table, 3).unwrap().id, 3);
}

#[test]
fn visual_plan_follows_the_item_table() {
    let mut items = vec![None; 8];
    items[5] = Some(ItemType { id: 5, pattern_width: 2, sprite_ids: vec![11, 12], ..Default::default() });
    items[6] = Some(ItemType { id: 6, ..Default::default() });
    items[7] = Some(ItemType { id: 7, sprite_ids: vec![0], ..Default::default() });
    let table = ItemTypeTable { items, max_item_id: 7 };
    let at = |x: u16| Position { x, y: 0, z: 7 };
    assert_eq!(plan_visual(&table, 5, at(1)), VisualPlan::Sprite { sprite_id: 12, sprite_index: 1 });
    assert_eq!(plan_visual(&table, 5, at(2)), VisualPlan::Sprite { sprite_id: 11, sprite_index: 0 });
    assert_eq!(plan_visual(&table, 6, at(0)), VisualPlan::NoSprite);
    assert_eq!(plan_visual(&table, 7, at(0)), VisualPlan::NoSprite);
    assert_eq!(plan_visual(&table, 0, at(0)), VisualPlan::Empty);
    assert_eq!(plan_visual(&table, 4, at(0)), VisualPlan::Empty);
}
