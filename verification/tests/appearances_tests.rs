use rme_editor::appearances::{load_appearances, parse_appearances, ItemGroup, ItemType};
use rme_editor::pb::{for_each_field, Reader};

fn varint(out: &mut Vec<u8>, v: u64) {
    let mut x = v;
    loop {
        let b = (x & 0x7f) as u8;
        x >>= 7;
        if x == 0 {
            out.push(b);
            break;
        }
        out.push(b | 0x80);
    }
}

fn field_varint(out: &mut Vec<u8>, field: u32, v: u64) {
    varint(out, u64::from(field << 3));
    varint(out, v);
}

fn field_len(out: &mut Vec<u8>, field: u32, payload: &[u8]) {
    varint(out, u64::from((field << 3) | 2));
    varint(out, payload.len() as u64);
    out.extend_from_slice(payload);
}

#[test]
fn parses_appearances_validating_item_table() {
    let mut app = Vec::new();
    let mut obj = Vec::new();
    field_varint(&mut obj, 1, 2);
    let mut flags = Vec::new();
    field_len(&mut flags, 1, &[0x08, 0x00]);
    field_varint(&mut flags, 13, 1);
    field_len(&mut obj, 3, &flags);
    field_len(&mut obj, 4, b"Grass");
    let mut si = Vec::new();
    field_varint(&mut si, 1, 1);
    field_varint(&mut si, 2, 1);
    field_varint(&mut si, 3, 1);
    field_varint(&mut si, 4, 1);
    field_varint(&mut si, 5, 100);
    field_len(&mut si, 5, &[0xC8, 0x01]);
    let mut fg = Vec::new();
    field_varint(&mut fg, 1, 2);
    field_len(&mut fg, 3, &si);
    field_len(&mut obj, 2, &fg);
    field_len(&mut app, 1, &obj);

    let table = load_appearances(&app).unwrap();
    let item = table.get_opt(2).unwrap();
    assert_eq!(item.name, "Grass");
    assert_eq!(item.group, ItemGroup::Ground);
    assert!(item.is_ground_tile());
    assert!(item.unpassable);
    assert_eq!(item.always_on_top_order, 0);
    assert_eq!(item.sprite_ids, vec![100, 200]);
    assert_eq!(item.numsprites(), 1);
    assert!(table.get_opt(999).is_none());
    assert!(!table.get(999).is_ground_tile());
}

#[test]
fn parses_container_and_animations() {
    let mut app = Vec::new();
    let mut obj = Vec::new();
    field_varint(&mut obj, 1, 7);
    let mut flags = Vec::new();
    field_varint(&mut flags, 5, 1);
    field_varint(&mut flags, 6, 1);
    field_len(&mut obj, 3, &flags);
    let mut anim = Vec::new();
    field_varint(&mut anim, 1, 1);
    field_varint(&mut anim, 2, 0);
    field_varint(&mut anim, 5, 3);
    let mut phase = Vec::new();
    field_varint(&mut phase, 1, 500);
    field_varint(&mut phase, 2, 1000);
    field_len(&mut anim, 6, &phase);
    let mut si = Vec::new();
    field_varint(&mut si, 1, 2);
    field_varint(&mut si, 2, 3);
    field_varint(&mut si, 3, 1);
    field_varint(&mut si, 4, 2);
    field_len(&mut si, 6, &anim);
    let mut fg = Vec::new();
    field_len(&mut fg, 3, &si);
    field_len(&mut obj, 2, &fg);
    field_len(&mut app, 1, &obj);

    let table = load_appearances(&app).unwrap();
    let item = table.get_opt(7).unwrap();
    assert_eq!(item.group, ItemGroup::Container);
    assert!(item.is_container);
    assert!(item.stackable);
    assert_eq!(item.layers, 2);
    assert_eq!(item.pattern_width, 2);
    assert_eq!(item.pattern_height, 3);
    assert_eq!(item.animation_phases, vec![(500, 1000)]);
    assert_eq!(item.start_frame, 1);
    assert_eq!(item.loop_count, 3);
    assert!(item.async_animation);
    assert_eq!(item.numsprites(), 12);
}

#[test]
fn rejects_truncated_data() {
    let app = [0x0a, 0x05, 0x08, 0x01];
    assert!(load_appearances(&app).is_none());
}

#[test]
fn sprite_index_orders_frame_z_y_x_layer() {
    let mut app = Vec::new();
    let mut obj = Vec::new();
    field_varint(&mut obj, 1, 3);
    let flags: Vec<u8> = Vec::new();
    field_len(&mut obj, 3, &flags);
    let mut anim = Vec::new();
    let mut phase = Vec::new();
    field_varint(&mut phase, 1, 100);
    field_varint(&mut phase, 2, 100);
    field_len(&mut anim, 6, &phase);
    field_len(&mut anim, 6, &phase);
    let mut si = Vec::new();
    field_varint(&mut si, 1, 2);
    field_varint(&mut si, 2, 2);
    field_varint(&mut si, 3, 1);
    field_varint(&mut si, 4, 2);
    field_len(&mut si, 6, &anim);
    let mut fg = Vec::new();
    field_len(&mut fg, 3, &si);
    field_len(&mut obj, 2, &fg);
    field_len(&mut app, 1, &obj);

    let table = load_appearances(&app).unwrap();
    let item = table.get_opt(3).unwrap();
    // layers 2, width 2, height 2, depth 1, 2 phases: 16 sprites
    assert_eq!(item.numsprites(), 16);
    // frame 1, x 1, y 1, layer 1 -> ((((1*1)+0)*2+1)*2+1)*2+1 = 15
    assert_eq!(item.sprite_index(1, 1, 1, 0, 1), 15);
    // coordinates wrap at their sizes
    assert_eq!(item.sprite_index(3, 3, 2, 5, 2), item.sprite_index(1, 1, 0, 0, 0));
}

#[test]
fn skips_appearances_without_flags_and_unknown_fields() {
    let mut app = Vec::new();
    let mut obj = Vec::new();
    field_varint(&mut obj, 1, 5);
    field_varint(&mut obj, 99, 12345);
    field_len(&mut app, 1, &obj);
    let parsed = parse_appearances(&app).unwrap();
    assert_eq!(parsed.objects.len(), 1);
    assert_eq!(parsed.objects[0].id, Some(5));
    let table = load_appearances(&app).unwrap();
    assert!(table.get_opt(5).is_none());
    assert!(!table.is_valid(5));
}

#[test]
fn later_appearance_with_the_same_id_wins() {
    let object = |id: u64, name: &[u8]| {
        let mut obj = Vec::new();
        field_varint(&mut obj, 1, id);
        let mut flags = Vec::new();
        field_varint(&mut flags, 13, 1);
        field_len(&mut obj, 3, &flags);
        field_len(&mut obj, 4, name);
        obj
    };
    let mut app = Vec::new();
    field_len(&mut app, 1, &object(5, b"first"));
    field_len(&mut app, 1, &object(7, b"other"));
    field_len(&mut app, 1, &object(5, b"second"));
    let table = load_appearances(&app).unwrap();
    assert_eq!(table.get_opt(5).unwrap().name, "second");
    assert_eq!(table.get_opt(7).unwrap().name, "other");
    assert!(table.get_opt(6).is_none());
    assert_eq!(table.max_item_id, 7);
}

#[test]
fn for_each_field_hands_each_field_to_the_callback() {
    let p = [0x08u8, 0x96, 0x01, 0x12, 0x02, 0x61, 0x62];
    let mut seen = Vec::new();
    let r = for_each_field(&p, |mut rd, field| {
        if field == 1 {
            seen.push((field, rd.varint().map(|v| v.to_string())));
        } else {
            seen.push((field, rd.len_payload().map(|b| String::from_utf8_lossy(b).into_owned())));
        }
    });
    assert_eq!(r, Some(()));
    assert_eq!(seen, vec![(1, Some("150".to_string())), (2, Some("ab".to_string()))]);
    let q = [0x08u8];
    let mut fields = Vec::new();
    assert_eq!(for_each_field(&q, |_, field| fields.push(field)), None);
    assert_eq!(fields, vec![1]);
}

#[test]
fn varint_reads_back_what_was_written() {
    for v in [0u64, 1, 127, 128, 300, 16383, 16384, u32::MAX as u64, u64::MAX] {
        let mut bytes = Vec::new();
        varint(&mut bytes, v);
        let n = bytes.len();
        bytes.extend_from_slice(&[0xAA, 0xBB]);
        let mut r = Reader::new(&bytes);
        assert_eq!(r.varint(), Some(v));
        assert_eq!(r.bytes(2), Some(&bytes[n..]));
        assert!(r.is_done());
    }
}

#[test]
fn sprite_indices_cover_the_sprites_once_and_repeat() {
    let t = ItemType {
        pattern_width: 2,
        pattern_height: 3,
        pattern_depth: 1,
        layers: 2,
        animation_phases: vec![(100, 100); 2],
        ..Default::default()
    };
    let n = t.numsprites();
    assert_eq!(n, 24);
    let mut seen = vec![false; n];
    for f in 0..2u32 {
        for z in 0..1u32 {
            for y in 0..3u32 {
                for x in 0..2u32 {
                    for l in 0..2u32 {
                        let i = t.sprite_index(f, x, y, z, l);
                        assert!(i < n && !seen[i]);
                        seen[i] = true;
                        assert_eq!(t.sprite_index(f + 2, x + 4, y + 3, z + 5, l + 2), i);
                    }
                }
            }
        }
    }
    assert!(seen.iter().all(|&s| s));
}
