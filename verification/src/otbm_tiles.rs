//! What reading a map keeps once: a map data node one tile per position,
//! a town list one town per id, the first one read in each case. Proved
//! of the reading that `otbm` specifies.

use vstd::prelude::*;
use crate::binary::{CursorView, NodeView, spec_build_tree};
use crate::otbm::{
    DocView, MapState, OTBM_MAP_DATA, OtbmWarning, OtmPos, OtmTileView, area_child, area_children, lemma_reads,
    map_child, map_children, map_data, map_header, node_type_of, place_tile, pos_key, root_children, spec_parse,
    tile_area, tile_attrs, tile_children, town_children, waypoint_children,
};

verus! {

/// The position of a tile.
pub open spec fn position_of(t: OtmTileView) -> OtmPos {
    OtmPos { x: t.x, y: t.y, z: t.z }
}

/// The tiles from index `from` on are at distinct positions, each
/// remembered in `seen`.
pub open spec fn fresh_from(st: MapState, from: int) -> bool {
    &&& 0 <= from <= st.doc.tiles.len()
    &&& forall|i: int| from <= i < st.doc.tiles.len() ==> #[trigger] st.seen.contains(pos_key(position_of(st.doc.tiles[i])))
    &&& forall|i: int, j: int|
        from <= i < j < st.doc.tiles.len() ==> position_of(#[trigger] st.doc.tiles[i]) != position_of(#[trigger] st.doc.tiles[j])
}

/// The tiles of `after` past those of `before` are at positions that
/// `before` had not seen.
pub open spec fn new_tiles_unseen(before: MapState, after: MapState) -> bool {
    forall|i: int|
        before.doc.tiles.len() <= i < after.doc.tiles.len() ==> !before.seen.contains(
            pos_key(position_of(#[trigger] after.doc.tiles[i])),
        )
}

/// `b` holds the tiles of `a`, then maybe more.
pub open spec fn extends(a: Seq<OtmTileView>, b: Seq<OtmTileView>) -> bool {
    a.len() <= b.len() && forall|i: int| 0 <= i < a.len() ==> #[trigger] b[i] == a[i]
}

proof fn lemma_tile_attrs_position(
    c: CursorView,
    tile: OtmTileView,
    ws: Seq<OtbmWarning>,
    pos: OtmPos,
    version: u32,
    emb: spec_fn(u16) -> bool,
)
    ensures
        position_of(tile_attrs(c, tile, ws, pos, version, emb).0) == position_of(tile),
    decreases c.bytes.len() - c.pos,
{
    if c.wf() {
        let (a, c1) = c.read_u8();
        lemma_reads(c);
        lemma_reads(c1);
        if let Some(attr) = a {
            let (f, c2f) = c1.read_u32();
            let (id, c2) = c1.read_u16();
            lemma_reads(c2);
            let (v, c3) = c2.read_u8();
            match f {
                Some(f) => lemma_tile_attrs_position(c2f, OtmTileView { flags: f, ..tile }, ws, pos, version, emb),
                None => lemma_tile_attrs_position(
                    c2f,
                    tile,
                    crate::otbm::warn(ws, OtbmWarning::BadTileFlags(pos)),
                    pos,
                    version,
                    emb,
                ),
            }
            if let Some(id) = id {
                let item = crate::otbm::OtmItemView {
                    subtype: match v {
                        Some(b) => b as u16,
                        None => 0,
                    },
                    ..crate::otbm::new_item(id)
                };
                lemma_tile_attrs_position(c3, OtmTileView { items: tile.items.push(item), ..tile }, ws, pos, version, emb);
                lemma_tile_attrs_position(
                    c2,
                    OtmTileView { items: tile.items.push(crate::otbm::new_item(id)), ..tile },
                    ws,
                    pos,
                    version,
                    emb,
                );
            }
            lemma_tile_attrs_position(
                c1,
                tile,
                crate::otbm::warn(ws, OtbmWarning::UnknownTileAttr(attr, pos)),
                pos,
                version,
                emb,
            );
        }
    }
}

proof fn lemma_tile_children_position(
    node: NodeView,
    n: nat,
    tile: OtmTileView,
    ws: Seq<OtbmWarning>,
    pos: OtmPos,
    version: u32,
    emb: spec_fn(u16) -> bool,
)
    ensures
        position_of(tile_children(node, n, tile, ws, pos, version, emb).0) == position_of(tile),
    decreases n,
{
    if n > 0 && n <= node.children.len() {
        lemma_tile_children_position(node, (n - 1) as nat, tile, ws, pos, version, emb);
    }
}

proof fn lemma_place_tile(
    child: NodeView,
    st: MapState,
    pos: OtmPos,
    house: u32,
    c: CursorView,
    version: u32,
    emb: spec_fn(u16) -> bool,
    from: int,
)
    requires
        fresh_from(st, from),
    ensures
        fresh_from(place_tile(child, st, pos, house, c, version, emb), from),
        extends(st.doc.tiles, place_tile(child, st, pos, house, c, version, emb).doc.tiles),
        st.seen.subset_of(place_tile(child, st, pos, house, c, version, emb).seen),
        new_tiles_unseen(st, place_tile(child, st, pos, house, c, version, emb)),
{
    let r = place_tile(child, st, pos, house, c, version, emb);
    if !st.seen.contains(pos_key(pos)) {
        let t0 = crate::otbm::empty_tile(pos, house);
        let (t1, ws1) = tile_attrs(c, t0, st.ws, pos, version, emb);
        lemma_tile_attrs_position(c, t0, st.ws, pos, version, emb);
        lemma_tile_children_position(child, child.children.len(), t1, ws1, pos, version, emb);
        let n = st.doc.tiles.len();
        assert(position_of(r.doc.tiles[n as int]) == pos);
        assert forall|i: int| from <= i < r.doc.tiles.len() implies #[trigger] r.seen.contains(
            pos_key(position_of(r.doc.tiles[i])),
        ) by {
            if i < n {
                assert(r.doc.tiles[i] == st.doc.tiles[i]);
            }
        }
        assert forall|i: int, j: int| from <= i < j < r.doc.tiles.len() implies position_of(#[trigger] r.doc.tiles[i])
            != position_of(#[trigger] r.doc.tiles[j]) by {
            if j == n {
                assert(r.doc.tiles[i] == st.doc.tiles[i]);
                assert(st.seen.contains(pos_key(position_of(st.doc.tiles[i]))));
            } else {
                assert(r.doc.tiles[i] == st.doc.tiles[i] && r.doc.tiles[j] == st.doc.tiles[j]);
            }
        }
    }
}

proof fn lemma_area_child(
    child: NodeView,
    st: MapState,
    bx: u16,
    by: u16,
    bz: u8,
    version: u32,
    emb: spec_fn(u16) -> bool,
    from: int,
)
    requires
        fresh_from(st, from),
    ensures
        fresh_from(area_child(child, st, bx, by, bz, version, emb), from),
        extends(st.doc.tiles, area_child(child, st, bx, by, bz, version, emb).doc.tiles),
        st.seen.subset_of(area_child(child, st, bx, by, bz, version, emb).seen),
        new_tiles_unseen(st, area_child(child, st, bx, by, bz, version, emb)),
{
    match crate::otbm::node_type_of(child) {
        None => {},
        Some(t) => if t == crate::otbm::OTBM_TILE || t == crate::otbm::OTBM_HOUSETILE {
            let (xo, c1) = crate::otbm::after_type(child.data).read_u8();
            let (yo, c2) = c1.read_u8();
            if xo is Some && yo is Some {
                let pos = crate::otbm::tile_pos(bx, by, bz, xo->0, yo->0);
                let (h, c3) = c2.read_u32();
                let warned = MapState { ws: crate::otbm::warn(st.ws, OtbmWarning::InvalidHouseId(pos)), ..st };
                lemma_place_tile(child, warned, pos, 0, c3, version, emb, from);
                if let Some(h) = h {
                    lemma_place_tile(child, st, pos, h, c3, version, emb, from);
                }
                lemma_place_tile(child, st, pos, 0, c2, version, emb, from);
            }
        },
    }
}

proof fn lemma_area_children(
    node: NodeView,
    n: nat,
    st: MapState,
    bx: u16,
    by: u16,
    bz: u8,
    version: u32,
    emb: spec_fn(u16) -> bool,
    from: int,
)
    requires
        fresh_from(st, from),
    ensures
        fresh_from(area_children(node, n, st, bx, by, bz, version, emb), from),
        extends(st.doc.tiles, area_children(node, n, st, bx, by, bz, version, emb).doc.tiles),
        st.seen.subset_of(area_children(node, n, st, bx, by, bz, version, emb).seen),
        new_tiles_unseen(st, area_children(node, n, st, bx, by, bz, version, emb)),
    decreases n,
{
    if n > 0 && n <= node.children.len() {
        let prev = area_children(node, (n - 1) as nat, st, bx, by, bz, version, emb);
        lemma_area_children(node, (n - 1) as nat, st, bx, by, bz, version, emb, from);
        lemma_area_child(node.children[n - 1], prev, bx, by, bz, version, emb, from);
        let r = area_children(node, n, st, bx, by, bz, version, emb);
        assert forall|i: int| st.doc.tiles.len() <= i < r.doc.tiles.len() implies !st.seen.contains(
            pos_key(position_of(#[trigger] r.doc.tiles[i])),
        ) by {
            if i < prev.doc.tiles.len() {
                assert(r.doc.tiles[i] == prev.doc.tiles[i]);
            } else {
                assert(!prev.seen.contains(pos_key(position_of(r.doc.tiles[i]))));
            }
        }
    }
}

/// Reading one tile area keeps one tile per position: the tiles it adds
/// are at distinct positions none of which was seen before (earlier in
/// the map data or in this area), each now remembered; the tiles before
/// are kept.
pub proof fn lemma_tile_area_one_tile_per_position(
    node: NodeView,
    st: MapState,
    version: u32,
    emb: spec_fn(u16) -> bool,
)
    requires
        fresh_from(st, 0),
    ensures
        fresh_from(tile_area(node, st, version, emb), 0),
        extends(st.doc.tiles, tile_area(node, st, version, emb).doc.tiles),
        st.seen.subset_of(tile_area(node, st, version, emb).seen),
        new_tiles_unseen(st, tile_area(node, st, version, emb)),
{
    let (bx, c1) = crate::otbm::after_type(node.data).read_u16();
    let (by, c2) = c1.read_u16();
    let (bz, c3) = c2.read_u8();
    if bx is Some && by is Some && bz is Some {
        lemma_area_children(node, node.children.len(), st, bx->0, by->0, bz->0, version, emb, 0);
    }
}

proof fn lemma_town_children_tiles(node: NodeView, n: nat, doc: DocView, ws: Seq<OtbmWarning>, seen: Set<u32>)
    ensures
        town_children(node, n, doc, ws, seen).0.tiles == doc.tiles,
    decreases n,
{
    if n > 0 && n <= node.children.len() {
        lemma_town_children_tiles(node, (n - 1) as nat, doc, ws, seen);
    }
}

proof fn lemma_waypoint_children_tiles(node: NodeView, n: nat, doc: DocView, ws: Seq<OtbmWarning>)
    ensures
        waypoint_children(node, n, doc, ws).0.tiles == doc.tiles,
    decreases n,
{
    if n > 0 && n <= node.children.len() {
        lemma_waypoint_children_tiles(node, (n - 1) as nat, doc, ws);
    }
}

proof fn lemma_map_child(child: NodeView, st: MapState, version: u32, emb: spec_fn(u16) -> bool, from: int)
    requires
        fresh_from(st, from),
    ensures
        fresh_from(map_child(child, st, version, emb), from),
        extends(st.doc.tiles, map_child(child, st, version, emb).doc.tiles),
        st.seen.subset_of(map_child(child, st, version, emb).seen),
{
    lemma_town_children_tiles(child, child.children.len(), st.doc, st.ws, Set::empty());
    lemma_waypoint_children_tiles(child, child.children.len(), st.doc, st.ws);
    let (bx, c1) = crate::otbm::after_type(child.data).read_u16();
    let (by, c2) = c1.read_u16();
    let (bz, c3) = c2.read_u8();
    if bx is Some && by is Some && bz is Some {
        lemma_area_children(child, child.children.len(), st, bx->0, by->0, bz->0, version, emb, from);
    }
}

proof fn lemma_map_children(node: NodeView, n: nat, st: MapState, version: u32, emb: spec_fn(u16) -> bool, from: int)
    requires
        fresh_from(st, from),
    ensures
        fresh_from(map_children(node, n, st, version, emb), from),
        extends(st.doc.tiles, map_children(node, n, st, version, emb).doc.tiles),
    decreases n,
{
    if n > 0 && n <= node.children.len() {
        let prev = map_children(node, (n - 1) as nat, st, version, emb);
        lemma_map_children(node, (n - 1) as nat, st, version, emb, from);
        lemma_map_child(node.children[n - 1], prev, version, emb, from);
    }
}

proof fn lemma_map_header_tiles(c: CursorView, doc: DocView, ws: Seq<OtbmWarning>)
    ensures
        map_header(c, doc, ws).0.tiles == doc.tiles,
    decreases c.bytes.len() - c.pos,
{
    if c.wf() {
        let (a, c1) = c.read_u8();
        lemma_reads(c);
        lemma_reads(c1);
        if let Some(attr) = a {
            let (s, c2) = c1.read_string();
            match s {
                Some(d) => lemma_map_header_tiles(c2, DocView { description: d, ..doc }, ws),
                None => {},
            }
            lemma_map_header_tiles(c2, doc, crate::otbm::warn(ws, OtbmWarning::BadMapDescription));
            lemma_map_header_tiles(c2, DocView { spawn_monster_file: s, ..doc }, ws);
            lemma_map_header_tiles(c2, DocView { house_file: s, ..doc }, ws);
            lemma_map_header_tiles(c2, DocView { zone_file: s, ..doc }, ws);
            lemma_map_header_tiles(c2, DocView { spawn_npc_file: s, ..doc }, ws);
            lemma_map_header_tiles(c1, doc, crate::otbm::warn(ws, OtbmWarning::UnknownHeaderAttr(attr)));
        }
    }
}

/// One map data node keeps one tile per position: the tiles it adds to
/// the document are at distinct positions (of several tiles read at one
/// position, only the first is kept), and the tiles before are kept.
pub proof fn lemma_map_data_one_tile_per_position(
    node: NodeView,
    doc: DocView,
    ws: Seq<OtbmWarning>,
    version: u32,
    emb: spec_fn(u16) -> bool,
)
    ensures
        extends(doc.tiles, map_data(node, doc, ws, version, emb).0.tiles),
        forall|i: int, j: int|
            doc.tiles.len() <= i < j < map_data(node, doc, ws, version, emb).0.tiles.len() ==> position_of(
                #[trigger] map_data(node, doc, ws, version, emb).0.tiles[i],
            ) != position_of(#[trigger] map_data(node, doc, ws, version, emb).0.tiles[j]),
{
    let (d1, w1) = map_header(crate::otbm::after_type(node.data), doc, ws);
    lemma_map_header_tiles(crate::otbm::after_type(node.data), doc, ws);
    let st0 = MapState { doc: d1, ws: w1, seen: Set::empty() };
    lemma_map_children(node, node.children.len(), st0, version, emb, doc.tiles.len() as int);
}

/// No two tiles are at the same position.
pub open spec fn one_tile_per_position(tiles: Seq<OtmTileView>) -> bool {
    forall|i: int, j: int|
        0 <= i < j < tiles.len() ==> position_of(#[trigger] tiles[i]) != position_of(#[trigger] tiles[j])
}

/// At most one child of the root is a map data node.
pub open spec fn single_map_data(root: NodeView) -> bool {
    forall|i: int, j: int|
        0 <= i < j < root.children.len() ==> !(node_type_of(#[trigger] root.children[i]) == Some(OTBM_MAP_DATA)
            && node_type_of(#[trigger] root.children[j]) == Some(OTBM_MAP_DATA))
}

/// Some of the first `n` children of the root is a map data node.
pub open spec fn has_map_data(root: NodeView, n: int) -> bool {
    exists|i: int| 0 <= i < n && node_type_of(#[trigger] root.children[i]) == Some(OTBM_MAP_DATA)
}

proof fn lemma_root_children(
    root: NodeView,
    n: nat,
    doc: DocView,
    ws: Seq<OtbmWarning>,
    version: u32,
    emb: spec_fn(u16) -> bool,
)
    requires
        doc.tiles.len() == 0,
        single_map_data(root),
        n <= root.children.len(),
    ensures
        one_tile_per_position(root_children(root, n, doc, ws, version, emb).0.tiles),
        !has_map_data(root, n as int) ==> root_children(root, n, doc, ws, version, emb).0.tiles == doc.tiles,
    decreases n,
{
    if n > 0 {
        let (d, w, seen) = root_children(root, (n - 1) as nat, doc, ws, version, emb);
        lemma_root_children(root, (n - 1) as nat, doc, ws, version, emb);
        let child = root.children[n - 1];
        if node_type_of(child) == Some(OTBM_MAP_DATA) {
            assert(!has_map_data(root, n - 1)) by {
                if has_map_data(root, n - 1) {
                    let i = choose|i: int| 0 <= i < n - 1 && node_type_of(#[trigger] root.children[i]) == Some(OTBM_MAP_DATA);
                    assert(node_type_of(root.children[i]) == Some(OTBM_MAP_DATA));
                    assert(node_type_of(root.children[n - 1]) == Some(OTBM_MAP_DATA));
                }
            }
            lemma_map_data_one_tile_per_position(child, d, w, version, emb);
            assert(node_type_of(root.children[n - 1]) == Some(OTBM_MAP_DATA));
        } else {
            assert(has_map_data(root, n as int) ==> has_map_data(root, n - 1)) by {
                if has_map_data(root, n as int) {
                    let i = choose|i: int| 0 <= i < n && node_type_of(#[trigger] root.children[i]) == Some(OTBM_MAP_DATA);
                    assert(i < n - 1);
                }
            }
        }
    }
}

/// A map file with one map data node holds one tile per position: the
/// first one read there.
pub proof fn lemma_parsed_map_one_tile_per_position(data: Seq<u8>, emb: spec_fn(u16) -> bool)
    requires
        single_map_data(spec_build_tree(data.skip(5))),
        spec_parse(data, emb) is Ok,
    ensures
        one_tile_per_position(spec_parse(data, emb)->Ok_0.tiles),
{
    let root = spec_build_tree(data.skip(5));
    let (v, c1) = crate::otbm::after_type(root.data).read_u32();
    let (w, c2) = c1.read_u16();
    let (h, c3) = c2.read_u16();
    let version = v->0;
    lemma_root_children(
        root,
        root.children.len(),
        crate::otbm::header_doc(version, w->0, h->0),
        Seq::empty(),
        version,
        crate::otbm::embedded_fn(version, emb),
    );
}

/// The towns from index `from` on have distinct ids, each remembered in
/// `seen`.
pub open spec fn fresh_towns(towns: Seq<crate::otbm::OtmTownView>, seen: Set<u32>, from: int) -> bool {
    &&& 0 <= from <= towns.len()
    &&& forall|i: int| from <= i < towns.len() ==> #[trigger] seen.contains(towns[i].id)
    &&& forall|i: int, j: int| from <= i < j < towns.len() ==> (#[trigger] towns[i]).id != (#[trigger] towns[j]).id
}

/// A town list keeps one town per id: the towns it adds have distinct ids
/// (of several towns with one id, only the first is kept), and the towns
/// before are kept.
pub proof fn lemma_town_list_one_town_per_id(node: NodeView, n: nat, doc: DocView, ws: Seq<OtbmWarning>)
    ensures
        doc.towns.len() <= town_children(node, n, doc, ws, Set::empty()).0.towns.len(),
        forall|i: int| 0 <= i < doc.towns.len() ==> #[trigger] town_children(node, n, doc, ws, Set::empty()).0.towns[i]
            == doc.towns[i],
        fresh_towns(
            town_children(node, n, doc, ws, Set::empty()).0.towns,
            town_children(node, n, doc, ws, Set::empty()).2,
            doc.towns.len() as int,
        ),
    decreases n,
{
    if n > 0 && n <= node.children.len() {
        lemma_town_list_one_town_per_id(node, (n - 1) as nat, doc, ws);
    }
}

} // verus!
