//! Turning a read `.otbm` document into an editor document:
//!  - a ground item becomes the tile's ground (a later ground replaces an
//!    earlier one; valid maps never have two);
//!  - always-on-bottom items go where their stacking order puts them among
//!    the items already there; the others go on top;
//!  - tile state bits become zone flags, and a house id marks a house tile.

use vstd::prelude::*;
use vstd::string::StrSliceExecFns;
use crate::document::MapDocument;
use crate::item::{
    Item, ItemAttrFlags, ItemView, Tile, TileView, TileZoneFlags, empty_tile_view, lemma_view_items_equal,
    view_item_list, view_items_all,
};
use crate::item_types::{ItemGroup, ItemTypeTable, ItemTypeTableView, ItemTypeView};
use crate::otbm::{
    DocView, OtbmDocument, OtmItem, OtmItemView, OtmTile, OtmTileView, TILESTATE_NOLOGOUT, TILESTATE_NOPVP,
    TILESTATE_PROTECTIONZONE, TILESTATE_PVPZONE, TILESTATE_REFRESH, lemma_view_items, view_items,
};
use crate::position::Position;
use crate::spatial_map::SpatialMap;
use crate::history::write_tiles;

verus! {

/// The bounding box of the map in tile coordinates (for the camera).
#[derive(Debug, Clone, Copy, Default, PartialEq, Eq, Structural)]
pub struct Bounds {
    pub min_x: u16,
    pub min_y: u16,
    pub max_x: u16,
    pub max_y: u16,
    pub min_z: u8,
    pub max_z: u8,
}

pub open spec fn min_u16(a: u16, b: u16) -> u16 {
    if a <= b {
        a
    } else {
        b
    }
}

pub open spec fn max_u16(a: u16, b: u16) -> u16 {
    if a >= b {
        a
    } else {
        b
    }
}

pub open spec fn min_u8(a: u8, b: u8) -> u8 {
    if a <= b {
        a
    } else {
        b
    }
}

pub open spec fn max_u8(a: u8, b: u8) -> u8 {
    if a >= b {
        a
    } else {
        b
    }
}

/// `b` grown to hold `p`.
pub open spec fn expanded(b: Bounds, p: Position) -> Bounds {
    Bounds {
        min_x: min_u16(b.min_x, p.x),
        min_y: min_u16(b.min_y, p.y),
        max_x: max_u16(b.max_x, p.x),
        max_y: max_u16(b.max_y, p.y),
        min_z: min_u8(b.min_z, p.z),
        max_z: max_u8(b.max_z, p.z),
    }
}

/// The box holding just `p`.
pub open spec fn point_bounds(p: Position) -> Bounds {
    Bounds { min_x: p.x, min_y: p.y, max_x: p.x, max_y: p.y, min_z: p.z, max_z: p.z }
}

pub open spec fn tile_position(t: OtmTileView) -> Position {
    Position { x: t.x, y: t.y, z: t.z }
}

/// The smallest box holding the first `n` tiles (all zero when there are
/// none).
pub open spec fn bounds_of(tiles: Seq<OtmTileView>, n: nat) -> Bounds
    decreases n,
{
    if n == 0 || n > tiles.len() {
        Bounds { min_x: 0, min_y: 0, max_x: 0, max_y: 0, min_z: 0, max_z: 0 }
    } else if n == 1 {
        point_bounds(tile_position(tiles[0]))
    } else {
        expanded(bounds_of(tiles, (n - 1) as nat), tile_position(tiles[n - 1]))
    }
}

/// The box holds `p`.
pub open spec fn holds(b: Bounds, p: Position) -> bool {
    b.min_x <= p.x <= b.max_x && b.min_y <= p.y <= b.max_y && b.min_z <= p.z <= b.max_z
}

/// The box of some tiles holds each of them, and each of its six sides
/// touches one of them.
pub proof fn lemma_bounds_hold_tiles(tiles: Seq<OtmTileView>, n: nat)
    requires
        1 <= n <= tiles.len(),
    ensures
        forall|i: int| 0 <= i < n ==> holds(bounds_of(tiles, n), tile_position(#[trigger] tiles[i])),
        exists|i: int| 0 <= i < n && (#[trigger] tiles[i]).x == bounds_of(tiles, n).min_x,
        exists|i: int| 0 <= i < n && (#[trigger] tiles[i]).y == bounds_of(tiles, n).min_y,
        exists|i: int| 0 <= i < n && (#[trigger] tiles[i]).z == bounds_of(tiles, n).min_z,
        exists|i: int| 0 <= i < n && (#[trigger] tiles[i]).x == bounds_of(tiles, n).max_x,
        exists|i: int| 0 <= i < n && (#[trigger] tiles[i]).y == bounds_of(tiles, n).max_y,
        exists|i: int| 0 <= i < n && (#[trigger] tiles[i]).z == bounds_of(tiles, n).max_z,
    decreases n,
{
    if n == 1 {
        assert(tiles[0].x == bounds_of(tiles, n).min_x);
    } else {
        lemma_bounds_hold_tiles(tiles, (n - 1) as nat);
        let b = bounds_of(tiles, (n - 1) as nat);
        let t = tiles[n - 1];
        assert(holds(bounds_of(tiles, n), tile_position(t)));
        if t.x < b.min_x {
            assert(tiles[n - 1].x == bounds_of(tiles, n).min_x);
        }
        if t.y < b.min_y {
            assert(tiles[n - 1].y == bounds_of(tiles, n).min_y);
        }
        if t.z < b.min_z {
            assert(tiles[n - 1].z == bounds_of(tiles, n).min_z);
        }
        if t.x > b.max_x {
            assert(tiles[n - 1].x == bounds_of(tiles, n).max_x);
        }
        if t.y > b.max_y {
            assert(tiles[n - 1].y == bounds_of(tiles, n).max_y);
        }
        if t.z > b.max_z {
            assert(tiles[n - 1].z == bounds_of(tiles, n).max_z);
        }
    }
}

impl Bounds {
    /// Grows the box to hold `pos`.
    pub fn expand(&mut self, pos: Position)
        ensures
            *final(self) == expanded(*old(self), pos),
    {
        if pos.x < self.min_x {
            self.min_x = pos.x;
        }
        if pos.y < self.min_y {
            self.min_y = pos.y;
        }
        if pos.x > self.max_x {
            self.max_x = pos.x;
        }
        if pos.y > self.max_y {
            self.max_y = pos.y;
        }
        if pos.z < self.min_z {
            self.min_z = pos.z;
        }
        if pos.z > self.max_z {
            self.max_z = pos.z;
        }
    }
}

/// Whether a first-version map stores the count of item `id` right after
/// its id: stackables, fluids and splashes.
pub open spec fn subtype_embedded_in(table: ItemTypeTableView, id: u16) -> bool {
    match table.lookup(id) {
        Some(t) => t.stackable || t.group == ItemGroup::Fluid || t.group == ItemGroup::Splash,
        None => false,
    }
}

pub fn is_subtype_embedded(table: &ItemTypeTable, id: u16) -> (b: bool)
    ensures
        b == subtype_embedded_in(table@, id),
{
    match table.get_opt(id) {
        Some(t) => t.stackable || t.group == ItemGroup::Fluid || t.group == ItemGroup::Splash,
        None => false,
    }
}

// ---------------------------------------------------------------------------
// Items
// ---------------------------------------------------------------------------

/// The attribute bits of an item read from a map: count, action id,
/// unique id, text, contents, each when present.
pub open spec fn attr_bits(src: OtmItemView) -> u8 {
    let b0: u8 = 0;
    let b1: u8 = if src.subtype != 0 { b0 | ItemAttrFlags::HAS_COUNT } else { b0 };
    let b2: u8 = if src.action_id != 0 { b1 | ItemAttrFlags::HAS_ACTION_ID } else { b1 };
    let b3: u8 = if src.unique_id != 0 { b2 | ItemAttrFlags::HAS_UNIQUE_ID } else { b2 };
    let b4: u8 = if src.text is Some { b3 | ItemAttrFlags::HAS_TEXT } else { b3 };
    if src.container.len() > 0 { b4 | ItemAttrFlags::HAS_CONTAINER } else { b4 }
}

/// The map item made from an item read from a map: its type, its count
/// (the subtype, at most 255; 1 when there is none), action and unique ids,
/// text and contents.
pub open spec fn item_from(src: OtmItemView) -> ItemView
    decreases src, 0nat,
{
    ItemView {
        type_id: src.id,
        attrs: attr_bits(src),
        count: if src.subtype == 0 {
            1
        } else if src.subtype > 255 {
            255
        } else {
            src.subtype as u8
        },
        action_id: src.action_id,
        unique_id: src.unique_id,
        text: src.text,
        container: if src.container.len() > 0 {
            Some(items_from(src.container, src.container.len()))
        } else {
            None
        },
    }
}

/// The map items made from the first `n` items of `s`.
pub open spec fn items_from(s: Seq<OtmItemView>, n: nat) -> Seq<ItemView>
    decreases s, n,
{
    if n == 0 || n > s.len() {
        Seq::empty()
    } else {
        items_from(s, (n - 1) as nat).push(item_from(s[n - 1]))
    }
}

/// An imported item keeps the type, the action id, the unique id and the
/// text that the map gave it; its count is the subtype, at most 255, or 1
/// when the subtype is 0. Its attribute bits carry `HAS_COUNT` (1) exactly
/// when the subtype is not 0, `HAS_ACTION_ID` (2) exactly when the action
/// id is not 0, `HAS_UNIQUE_ID` (4) exactly when the unique id is not 0,
/// `HAS_TEXT` (8) exactly when there is a text, and `HAS_CONTAINER` (16)
/// exactly when it holds items.
pub proof fn lemma_imported_ids(src: OtmItemView)
    ensures
        ItemAttrFlags::HAS_COUNT == 1,
        ItemAttrFlags::HAS_ACTION_ID == 2,
        ItemAttrFlags::HAS_UNIQUE_ID == 4,
        ItemAttrFlags::HAS_TEXT == 8,
        ItemAttrFlags::HAS_CONTAINER == 16,
        item_from(src).type_id == src.id,
        item_from(src).action_id == src.action_id,
        item_from(src).unique_id == src.unique_id,
        item_from(src).text == src.text,
        src.subtype == 0 ==> item_from(src).count == 1,
        1 <= src.subtype <= 255 ==> item_from(src).count == src.subtype,
        src.subtype > 255 ==> item_from(src).count == 255,
        (item_from(src).attrs & 1 == 1) <==> src.subtype != 0,
        (item_from(src).attrs & 2 == 2) <==> src.action_id != 0,
        (item_from(src).attrs & 4 == 4) <==> src.unique_id != 0,
        (item_from(src).attrs & 8 == 8) <==> src.text is Some,
        (item_from(src).attrs & 16 == 16) <==> src.container.len() > 0,
        item_from(src).attrs & 0xe0 == 0,
{
    assert(forall|b: u8|
        #![auto]
        (b | 1u8) & 1u8 == 1u8 && (b | 1u8) & 2u8 == b & 2u8 && (b | 1u8) & 4u8 == b & 4u8 && (b | 1u8) & 8u8 == b
            & 8u8 && (b | 1u8) & 16u8 == b & 16u8 && (b | 1u8) & 0xe0u8 == b & 0xe0u8) by (bit_vector);
    assert(forall|b: u8|
        #![auto]
        (b | 2u8) & 1u8 == b & 1u8 && (b | 2u8) & 2u8 == 2u8 && (b | 2u8) & 4u8 == b & 4u8 && (b | 2u8) & 8u8 == b
            & 8u8 && (b | 2u8) & 16u8 == b & 16u8 && (b | 2u8) & 0xe0u8 == b & 0xe0u8) by (bit_vector);
    assert(forall|b: u8|
        #![auto]
        (b | 4u8) & 1u8 == b & 1u8 && (b | 4u8) & 2u8 == b & 2u8 && (b | 4u8) & 4u8 == 4u8 && (b | 4u8) & 8u8 == b
            & 8u8 && (b | 4u8) & 16u8 == b & 16u8 && (b | 4u8) & 0xe0u8 == b & 0xe0u8) by (bit_vector);
    assert(forall|b: u8|
        #![auto]
        (b | 8u8) & 1u8 == b & 1u8 && (b | 8u8) & 2u8 == b & 2u8 && (b | 8u8) & 4u8 == b & 4u8 && (b | 8u8) & 8u8
            == 8u8 && (b | 8u8) & 16u8 == b & 16u8 && (b | 8u8) & 0xe0u8 == b & 0xe0u8) by (bit_vector);
    assert(forall|b: u8|
        #![auto]
        (b | 16u8) & 1u8 == b & 1u8 && (b | 16u8) & 2u8 == b & 2u8 && (b | 16u8) & 4u8 == b & 4u8 && (b | 16u8) & 8u8
            == b & 8u8 && (b | 16u8) & 16u8 == 16u8 && (b | 16u8) & 0xe0u8 == b & 0xe0u8) by (bit_vector);
    assert(0u8 & 1u8 == 0u8 && 0u8 & 2u8 == 0u8 && 0u8 & 4u8 == 0u8 && 0u8 & 8u8 == 0u8 && 0u8 & 16u8 == 0u8 && 0u8
        & 0xe0u8 == 0u8) by (bit_vector);
}

proof fn lemma_items_from(s: Seq<OtmItemView>, n: nat)
    requires
        n <= s.len(),
    ensures
        items_from(s, n).len() == n,
        forall|i: int| 0 <= i < n ==> #[trigger] items_from(s, n)[i] == item_from(s[i]),
    decreases n,
{
    if n > 0 {
        lemma_items_from(s, (n - 1) as nat);
    }
}

pub fn to_item(src: &OtmItem, table: &ItemTypeTable) -> (item: Item)
    ensures
        item.view_item() == item_from(src.view_item()),
    decreases src,
{
    let mut item = Item::new(src.id);
    if src.subtype != 0 {
        item.attrs.insert(ItemAttrFlags::HAS_COUNT);
        item.count = if src.subtype > 255 {
            255
        } else {
            src.subtype as u8
        };
    }
    if src.action_id != 0 {
        item.attrs.insert(ItemAttrFlags::HAS_ACTION_ID);
        item.action_id = src.action_id;
    }
    if src.unique_id != 0 {
        item.attrs.insert(ItemAttrFlags::HAS_UNIQUE_ID);
        item.unique_id = src.unique_id;
    }
    match &src.text {
        Some(text) => {
            item.attrs.insert(ItemAttrFlags::HAS_TEXT);
            item.text = Some(text.clone());
        },
        None => {},
    }
    if src.container.len() > 0 {
        item.attrs.insert(ItemAttrFlags::HAS_CONTAINER);
        let ghost sv = src.view_item().container;
        proof {
            lemma_view_items(src.container@, src.container@.len());
            lemma_items_from(sv, sv.len());
        }
        let mut v: Vec<Item> = Vec::new();
        let mut i: usize = 0;
        while i < src.container.len()
            invariant
                i <= src.container@.len(),
                sv == src.view_item().container,
                sv.len() == src.container@.len(),
                forall|k: int| 0 <= k < src.container@.len() ==> #[trigger] sv[k] == src.container@[k].view_item(),
                v@.len() == i,
                forall|k: int| 0 <= k < i ==> #[trigger] v@[k].view_item() == item_from(sv[k]),
            decreases src.container@.len() - i,
        {
            proof {
                assert(decreases_to!(src => src.container));
                assert(decreases_to!(src.container => src.container@));
                assert(decreases_to!(src.container@ => src.container@[i as int]));
            }
            let c = to_item(&src.container[i], table);
            v.push(c);
            i += 1;
        }
        proof {
            crate::item::lemma_view_item_list(v@, v@.len());
            assert(view_item_list(v@, v@.len()) =~= items_from(sv, sv.len()));
        }
        item.container = Some(Box::new(v));
    }
    item
}

// ---------------------------------------------------------------------------
// Tiles
// ---------------------------------------------------------------------------

/// Whether an item already on a tile is where a new always-on-bottom item
/// of type `ty` goes in front of: an item that is not always-on-bottom (or
/// of an unknown type), or one that stacks after `ty`.
pub open spec fn stops(e: ItemView, ty: ItemTypeView, table: ItemTypeTableView) -> bool {
    match table.lookup(e.type_id) {
        None => true,
        Some(et) => !et.always_on_bottom || ty.always_on_top_order < et.always_on_top_order,
    }
}

/// The first index from `i` on where an always-on-bottom item of type `ty`
/// stops, or the end.
pub open spec fn first_stop(items: Seq<ItemView>, ty: ItemTypeView, table: ItemTypeTableView, i: int) -> int
    decreases items.len() - i,
{
    if i < 0 || i >= items.len() {
        items.len() as int
    } else if stops(items[i], ty, table) {
        i
    } else {
        first_stop(items, ty, table, i + 1)
    }
}

/// A tile after an item is added to it.
pub open spec fn add_item_view(t: TileView, it: ItemView, table: ItemTypeTableView) -> TileView {
    match table.lookup(it.type_id) {
        None => TileView { items: t.items.push(it), ..t },
        Some(ty) => if ty.group == ItemGroup::Ground {
            TileView { ground: Some(it), ..t }
        } else if ty.always_on_bottom {
            TileView { items: t.items.insert(first_stop(t.items, ty, table, 0), it), ..t }
        } else {
            TileView { items: t.items.push(it), ..t }
        },
    }
}

/// Whether an item is always on bottom, by its (known) type.
pub open spec fn is_bottom(e: ItemView, table: ItemTypeTableView) -> bool {
    match table.lookup(e.type_id) {
        Some(t) => t.always_on_bottom,
        None => false,
    }
}

/// The stacking order of an item's type (0 for an unknown type).
pub open spec fn order_of(e: ItemView, table: ItemTypeTableView) -> u8 {
    match table.lookup(e.type_id) {
        Some(t) => t.always_on_top_order,
        None => 0,
    }
}

/// The items are in stacking order: the always-on-bottom items come first,
/// sorted by their stacking order.
pub open spec fn bottom_sorted(items: Seq<ItemView>, table: ItemTypeTableView) -> bool {
    forall|i: int, j: int|
        0 <= i < j < items.len() && #[trigger] is_bottom(items[j], table) ==> is_bottom(#[trigger] items[i], table)
            && order_of(items[i], table) <= order_of(items[j], table)
}

proof fn lemma_first_stop(items: Seq<ItemView>, ty: ItemTypeView, table: ItemTypeTableView, i: int)
    requires
        0 <= i <= items.len(),
    ensures
        i <= first_stop(items, ty, table, i) <= items.len(),
        first_stop(items, ty, table, i) < items.len() ==> stops(items[first_stop(items, ty, table, i)], ty, table),
        forall|k: int| i <= k < first_stop(items, ty, table, i) ==> !stops(#[trigger] items[k], ty, table),
    decreases items.len() - i,
{
    if i < items.len() && !stops(items[i], ty, table) {
        lemma_first_stop(items, ty, table, i + 1);
    }
}

/// Adding an item to a tile keeps its items in stacking order.
pub proof fn lemma_add_item_keeps_order(t: TileView, it: ItemView, table: ItemTypeTableView)
    requires
        bottom_sorted(t.items, table),
    ensures
        bottom_sorted(add_item_view(t, it, table).items, table),
{
    let items = t.items;
    let r = add_item_view(t, it, table).items;
    match table.lookup(it.type_id) {
        None => {
            assert forall|a: int, b: int|
                0 <= a < b < r.len() && #[trigger] is_bottom(r[b], table) implies is_bottom(#[trigger] r[a], table)
                && order_of(r[a], table) <= order_of(r[b], table) by {
                assert(r[a] == items[a]);
                assert(r[b] == items[b]);
            }
        },
        Some(ty) => {
            if ty.group == ItemGroup::Ground {
            } else if ty.always_on_bottom {
                let p = first_stop(items, ty, table, 0);
                lemma_first_stop(items, ty, table, 0);
                assert(is_bottom(it, table) && order_of(it, table) == ty.always_on_top_order);
                assert forall|a: int, b: int|
                    0 <= a < b < r.len() && #[trigger] is_bottom(r[b], table) implies is_bottom(#[trigger] r[a], table)
                    && order_of(r[a], table) <= order_of(r[b], table) by {
                    if b < p {
                        assert(r[a] == items[a] && r[b] == items[b]);
                    } else if b == p {
                        assert(r[a] == items[a]);
                        assert(!stops(items[a], ty, table));
                    } else {
                        assert(r[b] == items[b - 1]);
                        if a < p {
                            assert(r[a] == items[a]);
                        } else if a == p {
                            assert(stops(items[p], ty, table));
                            if p < b - 1 {
                                assert(is_bottom(items[p], table));
                            }
                        } else {
                            assert(r[a] == items[a - 1]);
                        }
                    }
                }
            } else {
                assert forall|a: int, b: int|
                    0 <= a < b < r.len() && #[trigger] is_bottom(r[b], table) implies is_bottom(#[trigger] r[a], table)
                    && order_of(r[a], table) <= order_of(r[b], table) by {
                    assert(r[a] == items[a]);
                    assert(r[b] == items[b]);
                }
            }
        },
    }
}

/// A tile after the first `n` items of `items` are added, in order.
pub open spec fn add_items_view(t: TileView, items: Seq<OtmItemView>, n: nat, table: ItemTypeTableView) -> TileView
    decreases n,
{
    if n == 0 || n > items.len() {
        t
    } else {
        add_item_view(add_items_view(t, items, (n - 1) as nat, table), item_from(items[n - 1]), table)
    }
}

/// The zone bits of a tile read from a map: house tile when it has a
/// house, then each tile state bit that is set.
pub open spec fn zone_bits(src: OtmTileView) -> u16 {
    let z0: u16 = 0;
    let z1: u16 = if src.house_id != 0 { z0 | TileZoneFlags::HOUSE_TILE } else { z0 };
    let f = src.flags;
    let z2: u16 = if f & TILESTATE_PROTECTIONZONE != 0 { z1 | TileZoneFlags::PROTECTION_ZONE } else { z1 };
    let z3: u16 = if f & TILESTATE_NOPVP != 0 { z2 | TileZoneFlags::NO_PVP_ZONE } else { z2 };
    let z4: u16 = if f & TILESTATE_NOLOGOUT != 0 { z3 | TileZoneFlags::NO_LOGOUT } else { z3 };
    let z5: u16 = if f & TILESTATE_PVPZONE != 0 { z4 | TileZoneFlags::PVP_ZONE } else { z4 };
    if f & TILESTATE_REFRESH != 0 { z5 | TileZoneFlags::REFRESH } else { z5 }
}

/// The map tile made from a tile read from a map.
pub open spec fn tile_from(src: OtmTileView, table: ItemTypeTableView) -> TileView {
    add_items_view(
        TileView { zone: zone_bits(src), house_id: src.house_id, ..empty_tile_view() },
        src.items,
        src.items.len(),
        table,
    )
}

/// Adding items one by one to a tile in stacking order keeps it in
/// stacking order.
pub proof fn lemma_add_items_keeps_order(t: TileView, items: Seq<OtmItemView>, n: nat, table: ItemTypeTableView)
    requires
        bottom_sorted(t.items, table),
    ensures
        bottom_sorted(add_items_view(t, items, n, table).items, table),
    decreases n,
{
    if n > 0 && n <= items.len() {
        lemma_add_items_keeps_order(t, items, (n - 1) as nat, table);
        lemma_add_item_keeps_order(add_items_view(t, items, (n - 1) as nat, table), item_from(items[n - 1]), table);
    }
}

/// The items of every imported tile are in stacking order.
pub proof fn lemma_imported_tile_in_order(src: OtmTileView, table: ItemTypeTableView)
    ensures
        bottom_sorted(tile_from(src, table).items, table),
{
    lemma_add_items_keeps_order(
        TileView { zone: zone_bits(src), house_id: src.house_id, ..empty_tile_view() },
        src.items,
        src.items.len(),
        table,
    );
}

/// Adds an item to a tile: a ground item becomes the ground, an
/// always-on-bottom item goes in front of the first item it stops at, any
/// other item (or one of an unknown type) goes on top.
fn add_item(tile: &mut Tile, src: &OtmItem, table: &ItemTypeTable)
    ensures
        final(tile)@ == add_item_view(old(tile)@, item_from(src.view_item()), table@),
        bottom_sorted(old(tile)@.items, table@) ==> bottom_sorted(final(tile)@.items, table@),
{
    proof {
        if bottom_sorted(tile@.items, table@) {
            lemma_add_item_keeps_order(tile@, item_from(src.view_item()), table@);
        }
    }
    let item = to_item(src, table);
    let typ = match table.get_opt(item.type_id) {
        None => {
            tile.push_item(item);
            return;
        },
        Some(t) => t,
    };
    if typ.group == ItemGroup::Ground {
        tile.ground = Some(item);
        return;
    }
    if typ.always_on_bottom {
        let n = tile.item_count();
        let mut i: usize = 0;
        while i < n
            invariant_except_break
                first_stop(tile@.items, typ@, table@, 0) == first_stop(tile@.items, typ@, table@, i as int),
            invariant
                i <= n,
                n == tile@.items.len(),
                table@.lookup(item.type_id) == Some(typ@),
            ensures
                first_stop(tile@.items, typ@, table@, 0) == i,
            decreases n - i,
        {
            let existing = tile.item_at(i);
            let stop = match table.get_opt(existing.type_id) {
                None => true,
                Some(et) => !et.always_on_bottom || typ.always_on_top_order < et.always_on_top_order,
            };
            if stop {
                break;
            }
            i += 1;
        }
        tile.insert_item(i, item);
    } else {
        tile.push_item(item);
    }
}

pub fn otm_tile_to_tile(src: &OtmTile, table: &ItemTypeTable) -> (tile: Tile)
    ensures
        tile@ == tile_from(src@, table@),
{
    let mut tile = Tile::default();
    tile.house_id = src.house_id;
    if src.house_id != 0 {
        tile.zone.insert(TileZoneFlags::HOUSE_TILE);
    }
    let f = src.flags;
    if f & TILESTATE_PROTECTIONZONE != 0 {
        tile.zone.insert(TileZoneFlags::PROTECTION_ZONE);
    }
    if f & TILESTATE_NOPVP != 0 {
        tile.zone.insert(TileZoneFlags::NO_PVP_ZONE);
    }
    if f & TILESTATE_NOLOGOUT != 0 {
        tile.zone.insert(TileZoneFlags::NO_LOGOUT);
    }
    if f & TILESTATE_PVPZONE != 0 {
        tile.zone.insert(TileZoneFlags::PVP_ZONE);
    }
    if f & TILESTATE_REFRESH != 0 {
        tile.zone.insert(TileZoneFlags::REFRESH);
    }
    let ghost start = tile@;
    let ghost items = src@.items;
    proof {
        lemma_view_items(src.items@, src.items@.len());
    }
    let mut i: usize = 0;
    while i < src.items.len()
        invariant
            i <= src.items@.len(),
            items == src@.items,
            items.len() == src.items@.len(),
            forall|k: int| 0 <= k < src.items@.len() ==> #[trigger] items[k] == src.items@[k].view_item(),
            tile@ == add_items_view(start, items, i as nat, table@),
        decreases src.items@.len() - i,
    {
        add_item(&mut tile, &src.items[i], table);
        i += 1;
    }
    tile
}

/// The map after the first `n` tiles are placed, in order (a later tile at
/// the same position replaces an earlier one).
pub open spec fn place_tiles(m: Map<Position, TileView>, tiles: Seq<OtmTileView>, n: nat, table: ItemTypeTableView) -> Map<
    Position,
    TileView,
>
    decreases n,
{
    if n == 0 || n > tiles.len() {
        m
    } else {
        place_tiles(m, tiles, (n - 1) as nat, table).insert(tile_position(tiles[n - 1]), tile_from(tiles[n - 1], table))
    }
}

/// Importing places each read tile at its position, a later tile at the
/// same position replacing an earlier one, and leaves every other position
/// empty.
pub proof fn lemma_import_places_tiles(tiles: Seq<OtmTileView>, n: nat, table: ItemTypeTableView)
    requires
        n <= tiles.len(),
    ensures
        forall|i: int|
            0 <= i < n && (forall|j: int| i < j < n ==> tile_position(#[trigger] tiles[j]) != tile_position(tiles[i]))
                ==> place_tiles(SpatialMap::new_tiles(), tiles, n, table)[tile_position(#[trigger] tiles[i])]
                == tile_from(tiles[i], table),
        forall|p: Position|
            (forall|i: int| 0 <= i < n ==> tile_position(#[trigger] tiles[i]) != p) ==> #[trigger] place_tiles(
                SpatialMap::new_tiles(),
                tiles,
                n,
                table,
            )[p] == empty_tile_view(),
    decreases n,
{
    if n > 0 {
        lemma_import_places_tiles(tiles, (n - 1) as nat, table);
        let last = tiles[n - 1];
        assert forall|i: int|
            0 <= i < n && (forall|j: int| i < j < n ==> tile_position(#[trigger] tiles[j]) != tile_position(tiles[i]))
                implies place_tiles(SpatialMap::new_tiles(), tiles, n, table)[tile_position(#[trigger] tiles[i])]
                == tile_from(tiles[i], table) by {
            if i < n - 1 {
                assert(tile_position(tiles[n - 1]) != tile_position(tiles[i]));
            }
        }
        assert forall|p: Position|
            (forall|i: int| 0 <= i < n ==> tile_position(#[trigger] tiles[i]) != p) implies #[trigger] place_tiles(
                SpatialMap::new_tiles(),
                tiles,
                n,
                table,
            )[p] == empty_tile_view() by {
            assert(tile_position(tiles[n - 1]) != p);
        }
    }
}

/// Turns a read map into an editor document named after the map's
/// description (or "map.otbm" when it has none), and gives the bounding box
/// of its tiles.
pub fn import_otbm(doc: &OtbmDocument, table: &ItemTypeTable) -> (r: (MapDocument, Bounds))
    ensures
        r.0.wf(),
        r.0.map.tiles() == place_tiles(SpatialMap::new_tiles(), doc@.tiles, doc@.tiles.len(), table@),
        r.1 == bounds_of(doc@.tiles, doc@.tiles.len()),
        r.0.name@ == (if doc@.description.len() == 0 { "map.otbm"@ } else { doc@.description }),
        r.0.history.undo_cmds().len() == 0,
        r.0.history.redo_cmds().len() == 0,
        !r.0.dirty,
{
    let mut map = SpatialMap::new();
    let mut bounds = Bounds { min_x: 0, min_y: 0, max_x: 0, max_y: 0, min_z: 0, max_z: 0 };
    let ghost tiles = doc@.tiles;
    let mut i: usize = 0;
    while i < doc.tiles.len()
        invariant
            i <= doc.tiles@.len(),
            tiles == doc@.tiles,
            tiles.len() == doc.tiles@.len(),
            forall|k: int| 0 <= k < doc.tiles@.len() ==> #[trigger] tiles[k] == doc.tiles@[k]@,
            map.wf(),
            map.tiles() == place_tiles(SpatialMap::new_tiles(), tiles, i as nat, table@),
            bounds == bounds_of(tiles, i as nat),
        decreases doc.tiles@.len() - i,
    {
        let t = &doc.tiles[i];
        let pos = Position { x: t.x, y: t.y, z: t.z };
        if i == 0 {
            bounds = Bounds { min_x: pos.x, min_y: pos.y, max_x: pos.x, max_y: pos.y, min_z: pos.z, max_z: pos.z };
        } else {
            bounds.expand(pos);
        }
        *map.get_tile_mut(pos) = otm_tile_to_tile(t, table);
        i += 1;
    }
    let name: &str = if doc.description.as_str().unicode_len() == 0 {
        "map.otbm"
    } else {
        doc.description.as_str()
    };
    let mut document = MapDocument::new(name);
    document.map = map;
    (document, bounds)
}

} // verus!
