//! Reader of the `.otbm` map format: the node tree of `binary` turned into a
//! document of tiles, items, towns and waypoints.
//!
//! Nothing here decides which item is ground: that depends on the item
//! table and is left to the import into the map model. What the reader
//! could not make sense of is reported as warnings, each one once.

use vstd::prelude::*;
use vstd::slice::slice_subrange;
use std::collections::HashSet;
use crate::binary::{
    CursorView, NODE_START, NodeView, TreeNode, build_tree, lemma_view_nodes_len, spec_build_tree,
    view_nodes, BinaryCursor,
};

verus! {

broadcast use vstd::std_specs::hash::group_hash_axioms;

pub const OTBM_ROOTV1: u8 = 1;
pub const OTBM_MAP_DATA: u8 = 2;
pub const OTBM_ITEM_DEF: u8 = 3;
pub const OTBM_TILE_AREA: u8 = 4;
pub const OTBM_TILE: u8 = 5;
pub const OTBM_ITEM: u8 = 6;
pub const OTBM_SPAWNS: u8 = 9;
pub const OTBM_TOWNS: u8 = 12;
pub const OTBM_TOWN: u8 = 13;
pub const OTBM_HOUSETILE: u8 = 14;
pub const OTBM_WAYPOINTS: u8 = 15;
pub const OTBM_WAYPOINT: u8 = 16;
pub const OTBM_TILE_ZONE: u8 = 19;

pub const OTBM_ATTR_DESCRIPTION: u8 = 1;
pub const OTBM_ATTR_EXT_FILE: u8 = 2;
pub const OTBM_ATTR_TILE_FLAGS: u8 = 3;
pub const OTBM_ATTR_ACTION_ID: u8 = 4;
pub const OTBM_ATTR_UNIQUE_ID: u8 = 5;
pub const OTBM_ATTR_TEXT: u8 = 6;
pub const OTBM_ATTR_DESC: u8 = 7;
pub const OTBM_ATTR_TELE_DEST: u8 = 8;
pub const OTBM_ATTR_ITEM: u8 = 9;
pub const OTBM_ATTR_DEPOT_ID: u8 = 10;
pub const OTBM_ATTR_EXT_SPAWN_MONSTER_FILE: u8 = 11;
pub const OTBM_ATTR_RUNE_CHARGES: u8 = 12;
pub const OTBM_ATTR_EXT_HOUSE_FILE: u8 = 13;
pub const OTBM_ATTR_HOUSEDOORID: u8 = 14;
pub const OTBM_ATTR_COUNT: u8 = 15;
pub const OTBM_ATTR_CHARGES: u8 = 22;
pub const OTBM_ATTR_EXT_SPAWN_NPC_FILE: u8 = 23;
pub const OTBM_ATTR_EXT_ZONE_FILE: u8 = 24;
pub const OTBM_ATTR_ATTRIBUTE_MAP: u8 = 128;

/// Map versions: the `u32` that opens the root's payload.
pub const MAP_OTBM_1: u32 = 0;
pub const MAP_OTBM_2: u32 = 1;
pub const MAP_OTBM_3: u32 = 2;
pub const MAP_OTBM_4: u32 = 3;
pub const MAP_OTBM_5: u32 = 4;
pub const MAP_OTBM_6: u32 = 5;
pub const MAP_OTBM_LAST_VERSION: u32 = MAP_OTBM_6;

/// Tile state bits stored under `OTBM_ATTR_TILE_FLAGS`.
pub const TILESTATE_PROTECTIONZONE: u32 = 0x0001;
pub const TILESTATE_NOPVP: u32 = 0x0004;
pub const TILESTATE_NOLOGOUT: u32 = 0x0008;
pub const TILESTATE_PVPZONE: u32 = 0x0010;
pub const TILESTATE_REFRESH: u32 = 0x0020;

/// Value types of an item's attribute map.
pub const ATTR_TYPE_STRING: u8 = 1;
pub const ATTR_TYPE_INTEGER: u8 = 2;
pub const ATTR_TYPE_FLOAT: u8 = 3;
pub const ATTR_TYPE_BOOLEAN: u8 = 4;
pub const ATTR_TYPE_DOUBLE: u8 = 5;

// ---------------------------------------------------------------------------
// The document
// ---------------------------------------------------------------------------

#[derive(Debug, Clone, Copy, PartialEq, Eq, Structural, Hash, Default)]
pub struct OtmPos {
    pub x: u16,
    pub y: u16,
    pub z: u8,
}

/// A value of an item's attribute map, as stored: floats are kept as their
/// bits.
#[derive(Debug, Clone)]
pub enum AttrValue {
    Str(String),
    Int(u32),
    Float(u32),
    Double(u64),
    Bool(bool),
}

pub enum AttrValueView {
    Str(Seq<char>),
    Int(u32),
    Float(u32),
    Double(u64),
    Bool(bool),
}

impl View for AttrValue {
    type V = AttrValueView;

    open spec fn view(&self) -> AttrValueView {
        match self {
            AttrValue::Str(s) => AttrValueView::Str(s@),
            AttrValue::Int(v) => AttrValueView::Int(*v),
            AttrValue::Float(v) => AttrValueView::Float(*v),
            AttrValue::Double(v) => AttrValueView::Double(*v),
            AttrValue::Bool(v) => AttrValueView::Bool(*v),
        }
    }
}

#[derive(Debug, Default)]
pub struct OtmItem {
    pub id: u16,
    /// Stack count, fluid, splash or charges: each `COUNT`, `CHARGES` or
    /// `RUNE_CHARGES` read overwrites it.
    pub subtype: u16,
    pub action_id: u16,
    pub unique_id: u16,
    pub text: Option<String>,
    pub desc: Option<String>,
    pub tele_dest: Option<OtmPos>,
    pub depot_id: u16,
    pub door_id: u8,
    pub container: Vec<OtmItem>,
    pub attribute_map: Vec<(String, AttrValue)>,
}

pub struct OtmItemView {
    pub id: u16,
    pub subtype: u16,
    pub action_id: u16,
    pub unique_id: u16,
    pub text: Option<Seq<char>>,
    pub desc: Option<Seq<char>>,
    pub tele_dest: Option<OtmPos>,
    pub depot_id: u16,
    pub door_id: u8,
    pub container: Seq<OtmItemView>,
    pub attribute_map: Seq<(Seq<char>, AttrValueView)>,
}

pub open spec fn opt_str(o: Option<String>) -> Option<Seq<char>> {
    match o {
        Some(s) => Some(s@),
        None => None,
    }
}

pub open spec fn view_attr(p: (String, AttrValue)) -> (Seq<char>, AttrValueView) {
    (p.0@, p.1@)
}

/// The views of the first `n` items of `s`.
pub open spec fn view_items(s: Seq<OtmItem>, n: nat) -> Seq<OtmItemView>
    decreases s, n,
{
    if n == 0 || n > s.len() {
        Seq::empty()
    } else {
        view_items(s, (n - 1) as nat).push(s[n - 1].view_item())
    }
}

impl OtmItem {
    pub open spec fn view_item(self) -> OtmItemView
        decreases self, 0nat,
    {
        OtmItemView {
            id: self.id,
            subtype: self.subtype,
            action_id: self.action_id,
            unique_id: self.unique_id,
            text: opt_str(self.text),
            desc: opt_str(self.desc),
            tele_dest: self.tele_dest,
            depot_id: self.depot_id,
            door_id: self.door_id,
            container: view_items(self.container@, self.container@.len()),
            attribute_map: self.attribute_map@.map_values(|p: (String, AttrValue)| view_attr(p)),
        }
    }

    /// An item with the given id and nothing else set.
    pub fn new(id: u16) -> (item: OtmItem)
        ensures
            item.view_item() == new_item(id),
    {
        let item = OtmItem {
            id,
            subtype: 0,
            action_id: 0,
            unique_id: 0,
            text: None,
            desc: None,
            tele_dest: None,
            depot_id: 0,
            door_id: 0,
            container: Vec::new(),
            attribute_map: Vec::new(),
        };
        proof {
            lemma_view_items(item.container@, 0);
        }
        assert(item.view_item().attribute_map =~= Seq::empty());
        assert(item.view_item().container =~= Seq::empty());
        item
    }
}

/// An item with id `id` and nothing else set.
pub open spec fn new_item(id: u16) -> OtmItemView {
    OtmItemView {
        id,
        subtype: 0,
        action_id: 0,
        unique_id: 0,
        text: None,
        desc: None,
        tele_dest: None,
        depot_id: 0,
        door_id: 0,
        container: Seq::empty(),
        attribute_map: Seq::empty(),
    }
}

pub proof fn lemma_view_items(s: Seq<OtmItem>, n: nat)
    requires
        n <= s.len(),
    ensures
        view_items(s, n).len() == n,
        forall|i: int| 0 <= i < n ==> #[trigger] view_items(s, n)[i] == s[i].view_item(),
    decreases n,
{
    if n > 0 {
        lemma_view_items(s, (n - 1) as nat);
    }
}

proof fn lemma_view_items_push(s: Seq<OtmItem>, c: OtmItem)
    ensures
        view_items(s.push(c), s.len() + 1) == view_items(s, s.len()).push(c.view_item()),
{
    lemma_view_items(s, s.len());
    lemma_view_items(s.push(c), s.len() + 1);
    assert(view_items(s.push(c), s.len() + 1) =~= view_items(s, s.len()).push(c.view_item()));
}

#[derive(Debug, Default)]
pub struct OtmTile {
    pub x: u16,
    pub y: u16,
    pub z: u8,
    pub house_id: u32,
    pub flags: u32,
    pub items: Vec<OtmItem>,
}

pub struct OtmTileView {
    pub x: u16,
    pub y: u16,
    pub z: u8,
    pub house_id: u32,
    pub flags: u32,
    pub items: Seq<OtmItemView>,
}

impl View for OtmTile {
    type V = OtmTileView;

    open spec fn view(&self) -> OtmTileView {
        OtmTileView {
            x: self.x,
            y: self.y,
            z: self.z,
            house_id: self.house_id,
            flags: self.flags,
            items: view_items(self.items@, self.items@.len()),
        }
    }
}

#[derive(Debug)]
pub struct OtmTown {
    pub id: u32,
    pub name: String,
    pub temple: OtmPos,
}

pub struct OtmTownView {
    pub id: u32,
    pub name: Seq<char>,
    pub temple: OtmPos,
}

impl View for OtmTown {
    type V = OtmTownView;

    open spec fn view(&self) -> OtmTownView {
        OtmTownView { id: self.id, name: self.name@, temple: self.temple }
    }
}

#[derive(Debug)]
pub struct OtmWaypoint {
    pub name: String,
    pub pos: OtmPos,
}

pub struct OtmWaypointView {
    pub name: Seq<char>,
    pub pos: OtmPos,
}

impl View for OtmWaypoint {
    type V = OtmWaypointView;

    open spec fn view(&self) -> OtmWaypointView {
        OtmWaypointView { name: self.name@, pos: self.pos }
    }
}

/// What a map file holds: its header, its tiles in file order, its towns
/// and waypoints, and the warnings of the read.
#[derive(Debug, Default)]
pub struct OtbmDocument {
    pub version: u32,
    pub width: u16,
    pub height: u16,
    pub description: String,
    pub spawn_monster_file: Option<String>,
    pub house_file: Option<String>,
    pub zone_file: Option<String>,
    pub spawn_npc_file: Option<String>,
    pub tiles: Vec<OtmTile>,
    pub towns: Vec<OtmTown>,
    pub waypoints: Vec<OtmWaypoint>,
    pub warnings: Vec<OtbmWarning>,
}

pub struct DocView {
    pub version: u32,
    pub width: u16,
    pub height: u16,
    pub description: Seq<char>,
    pub spawn_monster_file: Option<Seq<char>>,
    pub house_file: Option<Seq<char>>,
    pub zone_file: Option<Seq<char>>,
    pub spawn_npc_file: Option<Seq<char>>,
    pub tiles: Seq<OtmTileView>,
    pub towns: Seq<OtmTownView>,
    pub waypoints: Seq<OtmWaypointView>,
    pub warnings: Seq<OtbmWarning>,
}

impl View for OtbmDocument {
    type V = DocView;

    open spec fn view(&self) -> DocView {
        DocView {
            version: self.version,
            width: self.width,
            height: self.height,
            description: self.description@,
            spawn_monster_file: opt_str(self.spawn_monster_file),
            house_file: opt_str(self.house_file),
            zone_file: opt_str(self.zone_file),
            spawn_npc_file: opt_str(self.spawn_npc_file),
            tiles: self.tiles@.map_values(|t: OtmTile| t@),
            towns: self.towns@.map_values(|t: OtmTown| t@),
            waypoints: self.waypoints@.map_values(|w: OtmWaypoint| w@),
            warnings: self.warnings@,
        }
    }
}

/// Why a file is not read at all.
#[derive(Debug)]
pub enum OtbmError {
    /// Shorter than the five header bytes.
    TooSmall,
    /// Neither `OTBM` nor four zero bytes.
    BadMagic,
    /// The fifth byte does not start the root node.
    BadRootNode,
    /// The root has no map data node.
    MissingMapData,
    /// The root's header ends early (what was being read).
    Truncated(&'static str),
    /// The map version is newer than the last one known.
    UnsupportedVersion(u32),
}

/// What was read that the reader could not use; each kind of problem, with
/// its data, is reported once.
#[derive(Debug, Clone, Copy, PartialEq, Eq, Structural)]
pub enum OtbmWarning {
    /// A child of the root that is not map data (its type).
    UnknownRootNode(u8),
    /// A child of the root without a type byte.
    UntypedRootNode,
    /// The map description could not be read.
    BadMapDescription,
    /// An unknown attribute in the map data header.
    UnknownHeaderAttr(u8),
    /// A child of the map data without a type byte.
    UntypedMapChild,
    /// Global item definitions, which are not read.
    ItemDefIgnored,
    /// Embedded spawns, which are not read.
    SpawnsIgnored,
    /// A child of the map data of an unknown type.
    UnknownMapNode(u8),
    /// A tile area without its base coordinate.
    AreaWithoutBase,
    /// A child of a tile area without a type byte.
    UntypedAreaChild,
    /// A child of a tile area that is no tile (its type).
    UnknownTileNode(u8),
    /// A tile without its offset in the area.
    TileWithoutPosition,
    /// A house tile whose house id is 0.
    InvalidHouseId(OtmPos),
    /// A house tile without its house id.
    HouseTileWithoutHouse(OtmPos),
    /// A second tile at a position already read (the second is dropped).
    DuplicateTile(OtmPos),
    /// Tile flags that could not be read.
    BadTileFlags(OtmPos),
    /// An item stored in a tile's payload without its id.
    LegacyItemWithoutId,
    /// An unknown tile attribute.
    UnknownTileAttr(u8, OtmPos),
    /// A child of a tile without a type byte.
    UntypedTileChild,
    /// A child of a tile of an unknown type.
    UnknownTileChild(u8, OtmPos),
    /// A zone list without its count.
    BadZoneCount,
    /// A zone id that could not be read.
    BadZoneId,
    /// An item node without its id.
    ItemWithoutId,
    /// An item attribute that is unknown or could not be read (item id,
    /// attribute); the item's remaining attributes are dropped.
    UnknownItemAttr(u16, u8),
    /// A child of an item that is not an item (the item's id).
    NonItemChild(u16),
    /// An attribute map value of an unknown type.
    UnknownAttrValueType(u8),
    /// A child of the town list that is not a town.
    BadTownNode,
    /// A town without its id or name.
    IncompleteTown,
    /// A second town with an id already read (the second is dropped).
    DuplicateTown(u32),
    /// A town whose temple position could not be read.
    BadTemple(u32),
    /// A child of the waypoint list that is not a waypoint.
    BadWaypointNode,
    /// A waypoint without its name or position.
    IncompleteWaypoint,
}

/// `ws` with `w` added at the end, unless it is already there.
pub open spec fn warn(ws: Seq<OtbmWarning>, w: OtbmWarning) -> Seq<OtbmWarning> {
    if ws.contains(w) {
        ws
    } else {
        ws.push(w)
    }
}

/// The state of a load: the map version and the warnings so far.
pub struct OtbmLoad {
    pub version: u32,
    pub warnings: Vec<OtbmWarning>,
}

impl OtbmLoad {
    /// Records a warning, unless the same one was recorded before.
    pub fn warn(&mut self, w: OtbmWarning)
        ensures
            final(self).version == old(self).version,
            final(self).warnings@ == warn(old(self).warnings@, w),
            old(self).warnings@.no_duplicates() ==> final(self).warnings@.no_duplicates(),
    {
        let mut i: usize = 0;
        while i < self.warnings.len()
            invariant
                i <= self.warnings@.len(),
                forall|k: int| 0 <= k < i ==> self.warnings@[k] != w,
            decreases self.warnings@.len() - i,
        {
            if self.warnings[i] == w {
                assert(self.warnings@.contains(w));
                return;
            }
            i += 1;
        }
        assert(!self.warnings@.contains(w));
        let ghost before = self.warnings@;
        self.warnings.push(w);
        assert(before.no_duplicates() ==> self.warnings@.no_duplicates()) by {
            if before.no_duplicates() {
                assert forall|a: int, b: int|
                    0 <= a < self.warnings@.len() && 0 <= b < self.warnings@.len() && a != b implies
                    self.warnings@[a] != self.warnings@[b] by {
                    if a == before.len() as int {
                        assert(before[b] == self.warnings@[b]);
                    } else if b == before.len() as int {
                        assert(before[a] == self.warnings@[a]);
                    }
                }
            }
        }
    }
}

// ---------------------------------------------------------------------------
// Cursor progress
// ---------------------------------------------------------------------------

/// A cursor over `bytes` placed after the node's type byte (or at the end
/// when there is none).
pub open spec fn after_type(bytes: Seq<u8>) -> CursorView {
    CursorView { bytes, pos: 0 }.take(1).1
}

pub proof fn lemma_take(c: CursorView, n: int)
    requires
        c.wf(),
        0 <= n,
    ensures
        c.take(n).1.wf(),
        c.take(n).1.bytes == c.bytes,
        c.pos <= c.take(n).1.pos,
{
}

/// Every read leaves a well-formed cursor over the same bytes, no earlier
/// than where it started; a read that succeeds moves past at least one byte.
pub proof fn lemma_reads(c: CursorView)
    requires
        c.wf(),
    ensures
        c.read_u8().1.wf() && c.read_u8().1.bytes == c.bytes && c.pos <= c.read_u8().1.pos,
        c.read_u8().0 is Some ==> c.read_u8().1.pos == c.pos + 1,
        c.read_u16().1.wf() && c.read_u16().1.bytes == c.bytes && c.pos <= c.read_u16().1.pos,
        c.read_u32().1.wf() && c.read_u32().1.bytes == c.bytes && c.pos <= c.read_u32().1.pos,
        c.read_u64().1.wf() && c.read_u64().1.bytes == c.bytes && c.pos <= c.read_u64().1.pos,
        c.read_string().1.wf() && c.read_string().1.bytes == c.bytes && c.pos <= c.read_string().1.pos,
        c.read_long_string().1.wf() && c.read_long_string().1.bytes == c.bytes && c.pos
            <= c.read_long_string().1.pos,
{
    let c1 = c.read_u16().1;
    if c.read_u16().0 is Some {
        lemma_take(c1, c.read_u16().0->0 as int);
    }
    let c2 = c.read_u32().1;
    if c.read_u32().0 is Some {
        lemma_take(c2, c.read_u32().0->0 as int);
    }
}

// ---------------------------------------------------------------------------
// Items
// ---------------------------------------------------------------------------

/// A value of the attribute map of type `t`, read at `c`; `None` when the
/// value could not be read or the type is unknown.
pub open spec fn attr_value(t: u8, c: CursorView) -> (Option<AttrValueView>, CursorView) {
    if t == ATTR_TYPE_STRING {
        let (v, c1) = c.read_long_string();
        (match v {
            Some(s) => Some(AttrValueView::Str(s)),
            None => None,
        }, c1)
    } else if t == ATTR_TYPE_INTEGER {
        let (v, c1) = c.read_u32();
        (match v {
            Some(x) => Some(AttrValueView::Int(x)),
            None => None,
        }, c1)
    } else if t == ATTR_TYPE_FLOAT {
        let (v, c1) = c.read_u32();
        (match v {
            Some(x) => Some(AttrValueView::Float(x)),
            None => None,
        }, c1)
    } else if t == ATTR_TYPE_DOUBLE {
        let (v, c1) = c.read_u64();
        (match v {
            Some(x) => Some(AttrValueView::Double(x)),
            None => None,
        }, c1)
    } else if t == ATTR_TYPE_BOOLEAN {
        let (v, c1) = c.read_u8();
        (match v {
            Some(x) => Some(AttrValueView::Bool(x != 0)),
            None => None,
        }, c1)
    } else {
        (None, c)
    }
}

pub open spec fn known_value_type(t: u8) -> bool {
    1 <= t <= 5
}

/// The last `k` entries of an attribute map: a key, a value type and a
/// value each. Gives whether all were read, the cursor after them, the item
/// with the entries read appended, and the warnings.
pub open spec fn attr_entries(c: CursorView, item: OtmItemView, ws: Seq<OtbmWarning>, k: nat) -> (
    bool,
    CursorView,
    OtmItemView,
    Seq<OtbmWarning>,
)
    decreases k,
{
    if k == 0 {
        (true, c, item, ws)
    } else {
        let (key, c1) = c.read_string();
        let (t, c2) = c1.read_u8();
        if key is None {
            (false, c1, item, ws)
        } else if t is None {
            (false, c2, item, ws)
        } else if !known_value_type(t->0) {
            (false, c2, item, warn(ws, OtbmWarning::UnknownAttrValueType(t->0)))
        } else {
            let (v, c3) = attr_value(t->0, c2);
            match v {
                None => (false, c3, item, ws),
                Some(v) => attr_entries(
                    c3,
                    OtmItemView { attribute_map: item.attribute_map.push((key->0, v)), ..item },
                    ws,
                    (k - 1) as nat,
                ),
            }
        }
    }
}

/// An attribute map: a `u16` count, then the entries.
pub open spec fn attr_map(c: CursorView, item: OtmItemView, ws: Seq<OtbmWarning>) -> (
    bool,
    CursorView,
    OtmItemView,
    Seq<OtbmWarning>,
) {
    let (n, c1) = c.read_u16();
    match n {
        None => (false, c1, item, ws),
        Some(n) => attr_entries(c1, item, ws, n as nat),
    }
}

/// One item attribute `attr`, whose value starts at `c`. Gives whether it
/// is known and was read whole, the cursor after it, the item and the
/// warnings.
pub open spec fn item_attr(attr: u8, c: CursorView, item: OtmItemView, ws: Seq<OtbmWarning>) -> (
    bool,
    CursorView,
    OtmItemView,
    Seq<OtbmWarning>,
) {
    if attr == OTBM_ATTR_COUNT || attr == OTBM_ATTR_RUNE_CHARGES {
        let (v, c1) = c.read_u8();
        match v {
            Some(v) => (true, c1, OtmItemView { subtype: v as u16, ..item }, ws),
            None => (false, c1, item, ws),
        }
    } else if attr == OTBM_ATTR_CHARGES {
        let (v, c1) = c.read_u16();
        match v {
            Some(v) => (true, c1, OtmItemView { subtype: v, ..item }, ws),
            None => (false, c1, item, ws),
        }
    } else if attr == OTBM_ATTR_ACTION_ID {
        let (v, c1) = c.read_u16();
        match v {
            Some(v) => (true, c1, OtmItemView { action_id: v, ..item }, ws),
            None => (false, c1, item, ws),
        }
    } else if attr == OTBM_ATTR_UNIQUE_ID {
        let (v, c1) = c.read_u16();
        match v {
            Some(v) => (true, c1, OtmItemView { unique_id: v, ..item }, ws),
            None => (false, c1, item, ws),
        }
    } else if attr == OTBM_ATTR_TEXT {
        let (v, c1) = c.read_string();
        match v {
            Some(v) => (true, c1, OtmItemView { text: Some(v), ..item }, ws),
            None => (false, c1, item, ws),
        }
    } else if attr == OTBM_ATTR_DESC {
        let (v, c1) = c.read_string();
        match v {
            Some(v) => (true, c1, OtmItemView { desc: Some(v), ..item }, ws),
            None => (false, c1, item, ws),
        }
    } else if attr == OTBM_ATTR_DEPOT_ID {
        let (v, c1) = c.read_u16();
        match v {
            Some(v) => (true, c1, OtmItemView { depot_id: v, ..item }, ws),
            None => (false, c1, item, ws),
        }
    } else if attr == OTBM_ATTR_HOUSEDOORID {
        let (v, c1) = c.read_u8();
        match v {
            Some(v) => (true, c1, OtmItemView { door_id: v, ..item }, ws),
            None => (false, c1, item, ws),
        }
    } else if attr == OTBM_ATTR_TELE_DEST {
        let (x, c1) = c.read_u16();
        let (y, c2) = c1.read_u16();
        let (z, c3) = c2.read_u8();
        if x is Some && y is Some && z is Some {
            (true, c3, OtmItemView { tele_dest: Some(OtmPos { x: x->0, y: y->0, z: z->0 }), ..item }, ws)
        } else {
            (false, c3, item, ws)
        }
    } else if attr == OTBM_ATTR_ATTRIBUTE_MAP {
        attr_map(c, item, ws)
    } else {
        (false, c, item, ws)
    }
}

fn read_attr_value(t: u8, c: &mut BinaryCursor) -> (v: Option<AttrValue>)
    requires
        old(c).wf(),
    ensures
        final(c).wf(),
        final(c)@ == attr_value(t, old(c)@).1,
        match v {
            Some(v) => attr_value(t, old(c)@).0 == Some(v@),
            None => attr_value(t, old(c)@).0 is None,
        },
{
    if t == ATTR_TYPE_STRING {
        match c.read_long_string() {
            Some(s) => Some(AttrValue::Str(s)),
            None => None,
        }
    } else if t == ATTR_TYPE_INTEGER {
        match c.read_u32() {
            Some(x) => Some(AttrValue::Int(x)),
            None => None,
        }
    } else if t == ATTR_TYPE_FLOAT {
        match c.read_u32() {
            Some(x) => Some(AttrValue::Float(x)),
            None => None,
        }
    } else if t == ATTR_TYPE_DOUBLE {
        match c.read_u64() {
            Some(x) => Some(AttrValue::Double(x)),
            None => None,
        }
    } else if t == ATTR_TYPE_BOOLEAN {
        match c.read_u8() {
            Some(x) => Some(AttrValue::Bool(x != 0)),
            None => None,
        }
    } else {
        None
    }
}

fn read_attr_map(c: &mut BinaryCursor, item: &mut OtmItem, load: &mut OtbmLoad) -> (ok: bool)
    requires
        old(load).warnings@.no_duplicates(),
        old(c).wf(),
    ensures
        final(load).warnings@.no_duplicates(),
        final(c).wf(),
        final(load).version == old(load).version,
        (ok, final(c)@, final(item).view_item(), final(load).warnings@) == attr_map(
            old(c)@,
            old(item).view_item(),
            old(load).warnings@,
        ),
{
    let n = match c.read_u16() {
        Some(n) => n,
        None => return false,
    };
    let ghost c0 = c@;
    let ghost item0 = item.view_item();
    let ghost ws0 = load.warnings@;
    let mut i: u16 = 0;
    while i < n
        invariant
            i <= n,
            c.wf(),
            load.version == old(load).version,
            load.warnings@.no_duplicates(),
            attr_map(old(c)@, old(item).view_item(), old(load).warnings@) == attr_entries(
                c0,
                item0,
                ws0,
                n as nat,
            ),
            attr_entries(c@, item.view_item(), load.warnings@, (n - i) as nat) == attr_entries(
                c0,
                item0,
                ws0,
                n as nat,
            ),
        decreases n - i,
    {
        let ghost before = item.view_item();
        let key = match c.read_string() {
            Some(k) => k,
            None => return false,
        };
        let t = match c.read_u8() {
            Some(t) => t,
            None => return false,
        };
        if !(1 <= t && t <= 5) {
            load.warn(OtbmWarning::UnknownAttrValueType(t));
            return false;
        }
        let value = match read_attr_value(t, c) {
            Some(v) => v,
            None => return false,
        };
        let ghost entry = (key@, value@);
        let ghost old_map = item.attribute_map@;
        item.attribute_map.push((key, value));
        assert(item.view_item().attribute_map =~= before.attribute_map.push(entry));
        i += 1;
    }
    true
}

/// Reads one item attribute `attr`; `false` when it is unknown or could not
/// be read whole, which ends the reading of the item's attributes.
fn read_item_attr(attr: u8, c: &mut BinaryCursor, item: &mut OtmItem, load: &mut OtbmLoad) -> (ok: bool)
    requires
        old(load).warnings@.no_duplicates(),
        old(c).wf(),
    ensures
        final(load).warnings@.no_duplicates(),
        final(c).wf(),
        final(load).version == old(load).version,
        (ok, final(c)@, final(item).view_item(), final(load).warnings@) == item_attr(
            attr,
            old(c)@,
            old(item).view_item(),
            old(load).warnings@,
        ),
{
    if attr == OTBM_ATTR_COUNT || attr == OTBM_ATTR_RUNE_CHARGES {
        match c.read_u8() {
            Some(v) => {
                item.subtype = v as u16;
                true
            },
            None => false,
        }
    } else if attr == OTBM_ATTR_CHARGES {
        match c.read_u16() {
            Some(v) => {
                item.subtype = v;
                true
            },
            None => false,
        }
    } else if attr == OTBM_ATTR_ACTION_ID {
        match c.read_u16() {
            Some(v) => {
                item.action_id = v;
                true
            },
            None => false,
        }
    } else if attr == OTBM_ATTR_UNIQUE_ID {
        match c.read_u16() {
            Some(v) => {
                item.unique_id = v;
                true
            },
            None => false,
        }
    } else if attr == OTBM_ATTR_TEXT {
        match c.read_string() {
            Some(v) => {
                item.text = Some(v);
                true
            },
            None => false,
        }
    } else if attr == OTBM_ATTR_DESC {
        match c.read_string() {
            Some(v) => {
                item.desc = Some(v);
                true
            },
            None => false,
        }
    } else if attr == OTBM_ATTR_DEPOT_ID {
        match c.read_u16() {
            Some(v) => {
                item.depot_id = v;
                true
            },
            None => false,
        }
    } else if attr == OTBM_ATTR_HOUSEDOORID {
        match c.read_u8() {
            Some(v) => {
                item.door_id = v;
                true
            },
            None => false,
        }
    } else if attr == OTBM_ATTR_TELE_DEST {
        let x = c.read_u16();
        let y = c.read_u16();
        let z = c.read_u8();
        match (x, y, z) {
            (Some(x), Some(y), Some(z)) => {
                item.tele_dest = Some(OtmPos { x, y, z });
                true
            },
            _ => false,
        }
    } else if attr == OTBM_ATTR_ATTRIBUTE_MAP {
        read_attr_map(c, item, load)
    } else {
        false
    }
}

pub proof fn lemma_attr_entries(c: CursorView, item: OtmItemView, ws: Seq<OtbmWarning>, k: nat)
    requires
        c.wf(),
    ensures
        attr_entries(c, item, ws, k).1.wf(),
        attr_entries(c, item, ws, k).1.bytes == c.bytes,
        c.pos <= attr_entries(c, item, ws, k).1.pos,
        attr_entries(c, item, ws, k).2.id == item.id,
    decreases k,
{
    if k > 0 {
        lemma_reads(c);
        let c1 = c.read_string().1;
        lemma_reads(c1);
        let c2 = c1.read_u8().1;
        lemma_reads(c2);
        let (key, _) = c.read_string();
        let (t, _) = c1.read_u8();
        if key is Some && t is Some && known_value_type(t->0) {
            let (v, c3) = attr_value(t->0, c2);
            if v is Some {
                lemma_attr_entries(
                    c3,
                    OtmItemView { attribute_map: item.attribute_map.push((key->0, v->0)), ..item },
                    ws,
                    (k - 1) as nat,
                );
            }
        }
    }
}

pub proof fn lemma_item_attr(attr: u8, c: CursorView, item: OtmItemView, ws: Seq<OtbmWarning>)
    requires
        c.wf(),
    ensures
        item_attr(attr, c, item, ws).1.wf(),
        item_attr(attr, c, item, ws).1.bytes == c.bytes,
        c.pos <= item_attr(attr, c, item, ws).1.pos,
        item_attr(attr, c, item, ws).2.id == item.id,
{
    lemma_reads(c);
    lemma_reads(c.read_u16().1);
    lemma_reads(c.read_u16().1.read_u16().1);
    if attr == OTBM_ATTR_ATTRIBUTE_MAP {
        if c.read_u16().0 is Some {
            lemma_attr_entries(c.read_u16().1, item, ws, c.read_u16().0->0 as nat);
        }
    }
}

/// An action id attribute (type byte 4) whose two value bytes are there is
/// read whole: the item's action id becomes their little-endian value, and
/// its unique id and every other field stay as they were. A unique id
/// attribute (type byte 5) sets the unique id in the same way and leaves
/// the action id alone. Either way the cursor moves past the two bytes and
/// nothing is reported.
pub proof fn lemma_action_and_unique_id(c: CursorView, item: OtmItemView, ws: Seq<OtbmWarning>)
    requires
        c.wf(),
        c.pos + 2 <= c.bytes.len(),
    ensures
        OTBM_ATTR_ACTION_ID == 4,
        OTBM_ATTR_UNIQUE_ID == 5,
        ({
            let (ok, c1, it, ws1) = item_attr(4, c, item, ws);
            &&& ok
            &&& c1 == (CursorView { bytes: c.bytes, pos: c.pos + 2 })
            &&& ws1 == ws
            &&& it.action_id == c.bytes[c.pos] + 256 * c.bytes[c.pos + 1]
            &&& it.unique_id == item.unique_id
            &&& it == (OtmItemView { action_id: it.action_id, ..item })
        }),
        ({
            let (ok, c1, it, ws1) = item_attr(5, c, item, ws);
            &&& ok
            &&& c1 == (CursorView { bytes: c.bytes, pos: c.pos + 2 })
            &&& ws1 == ws
            &&& it.unique_id == c.bytes[c.pos] + 256 * c.bytes[c.pos + 1]
            &&& it.action_id == item.action_id
            &&& it == (OtmItemView { unique_id: it.unique_id, ..item })
        }),
{
    let v = c.bytes[c.pos] + 256 * c.bytes[c.pos + 1];
    assert(0 <= v < 65536);
}

/// The other attributes of a fixed size, read whole, each set one field
/// and leave the rest: count (15) and rune charges (12), one byte, set the
/// subtype; charges (22), two bytes, set the subtype; depot id (10), two
/// bytes, sets the depot id; house door id (14), one byte, sets the door
/// id; a teleport destination (8), two bytes of x, two of y and one of z,
/// sets the destination.
pub proof fn lemma_fixed_size_attrs(c: CursorView, item: OtmItemView, ws: Seq<OtbmWarning>)
    requires
        c.wf(),
    ensures
        OTBM_ATTR_COUNT == 15 && OTBM_ATTR_RUNE_CHARGES == 12 && OTBM_ATTR_CHARGES == 22,
        OTBM_ATTR_DEPOT_ID == 10 && OTBM_ATTR_HOUSEDOORID == 14 && OTBM_ATTR_TELE_DEST == 8,
        c.pos + 1 <= c.bytes.len() ==> item_attr(15, c, item, ws) == (
            true,
            CursorView { bytes: c.bytes, pos: c.pos + 1 },
            OtmItemView { subtype: c.bytes[c.pos] as u16, ..item },
            ws,
        ),
        c.pos + 1 <= c.bytes.len() ==> item_attr(12, c, item, ws) == item_attr(15, c, item, ws),
        c.pos + 1 <= c.bytes.len() ==> item_attr(14, c, item, ws) == (
            true,
            CursorView { bytes: c.bytes, pos: c.pos + 1 },
            OtmItemView { door_id: c.bytes[c.pos], ..item },
            ws,
        ),
        c.pos + 2 <= c.bytes.len() ==> ({
            let (ok, c1, it, ws1) = item_attr(22, c, item, ws);
            &&& ok && ws1 == ws && c1 == (CursorView { bytes: c.bytes, pos: c.pos + 2 })
            &&& it.subtype == c.bytes[c.pos] + 256 * c.bytes[c.pos + 1]
            &&& it == (OtmItemView { subtype: it.subtype, ..item })
        }),
        c.pos + 2 <= c.bytes.len() ==> ({
            let (ok, c1, it, ws1) = item_attr(10, c, item, ws);
            &&& ok && ws1 == ws && c1 == (CursorView { bytes: c.bytes, pos: c.pos + 2 })
            &&& it.depot_id == c.bytes[c.pos] + 256 * c.bytes[c.pos + 1]
            &&& it == (OtmItemView { depot_id: it.depot_id, ..item })
        }),
        c.pos + 5 <= c.bytes.len() ==> ({
            let (ok, c1, it, ws1) = item_attr(8, c, item, ws);
            &&& ok && ws1 == ws && c1 == (CursorView { bytes: c.bytes, pos: c.pos + 5 })
            &&& it.tele_dest is Some
            &&& it.tele_dest->0.x == c.bytes[c.pos] + 256 * c.bytes[c.pos + 1]
            &&& it.tele_dest->0.y == c.bytes[c.pos + 2] + 256 * c.bytes[c.pos + 3]
            &&& it.tele_dest->0.z == c.bytes[c.pos + 4]
            &&& it == (OtmItemView { tele_dest: it.tele_dest, ..item })
        }),
{
    if c.pos + 2 <= c.bytes.len() {
        let v = c.bytes[c.pos] + 256 * c.bytes[c.pos + 1];
        assert(0 <= v < 65536);
    }
    if c.pos + 5 <= c.bytes.len() {
        let y = c.bytes[c.pos + 2] + 256 * c.bytes[c.pos + 3];
        assert(0 <= y < 65536);
    }
}

/// The attributes of an item, read until the payload ends or one is unknown
/// or cut short (which is reported, and ends the attributes).
pub open spec fn item_attrs(c: CursorView, item: OtmItemView, ws: Seq<OtbmWarning>) -> (
    OtmItemView,
    Seq<OtbmWarning>,
)
    decreases c.bytes.len() - c.pos,
{
    if !c.wf() {
        (item, ws)
    } else {
        let (a, c1) = c.read_u8();
        match a {
            None => (item, ws),
            Some(attr) => {
                let (ok, c2, item2, ws2) = item_attr(attr, c1, item, ws);
                if ok {
                    proof {
                        lemma_reads(c);
                        lemma_item_attr(attr, c1, item, ws);
                    }
                    item_attrs(c2, item2, ws2)
                } else {
                    (item2, warn(ws2, OtbmWarning::UnknownItemAttr(item.id, attr)))
                }
            },
        }
    }
}

/// The type byte of a node, if it has one.
pub open spec fn node_type_of(n: NodeView) -> Option<u8> {
    if n.data.len() > 0 {
        Some(n.data[0])
    } else {
        None
    }
}

/// The ids whose subtype follows the id in an item's node: only in maps
/// of the first version, and only those that `test` marks.
pub open spec fn embedded_fn(version: u32, test: spec_fn(u16) -> bool) -> spec_fn(u16) -> bool {
    |id: u16| version == MAP_OTBM_1 && test(id)
}

/// The item an item node holds, with the warnings after reading it: its id
/// (an item without one is the empty item), the embedded subtype where
/// there is one, its attributes, and its children as its contents.
pub open spec fn item_of(node: NodeView, ws: Seq<OtbmWarning>, version: u32, emb: spec_fn(u16) -> bool) -> (
    OtmItemView,
    Seq<OtbmWarning>,
)
    decreases node, node.children.len() + 1,
{
    let (id, c1) = after_type(node.data).read_u16();
    match id {
        None => (new_item(0), warn(ws, OtbmWarning::ItemWithoutId)),
        Some(id) => {
            let (item1, c2) = if emb(id) {
                let (v, cc) = c1.read_u8();
                (
                    OtmItemView {
                        subtype: match v {
                            Some(b) => b as u16,
                            None => 0,
                        },
                        ..new_item(id)
                    },
                    cc,
                )
            } else {
                (new_item(id), c1)
            };
            let (item2, ws2) = item_attrs(c2, item1, ws);
            item_children(node, node.children.len(), item2, ws2, version, emb)
        },
    }
}

/// The first `n` children of an item node: item nodes become its contents,
/// other nodes are reported.
pub open spec fn item_children(
    node: NodeView,
    n: nat,
    item: OtmItemView,
    ws: Seq<OtbmWarning>,
    version: u32,
    emb: spec_fn(u16) -> bool,
) -> (OtmItemView, Seq<OtbmWarning>)
    decreases node, n,
{
    if n == 0 || n > node.children.len() {
        (item, ws)
    } else {
        let (it, w) = item_children(node, (n - 1) as nat, item, ws, version, emb);
        let child = node.children[n - 1];
        if node_type_of(child) == Some(OTBM_ITEM) {
            let (ci, w2) = item_of(child, w, version, emb);
            (OtmItemView { container: it.container.push(ci), ..it }, w2)
        } else {
            (it, warn(w, OtbmWarning::NonItemChild(item.id)))
        }
    }
}

/// A test on item ids that can be called on every id and never gives two
/// answers for one.
pub open spec fn decides<F: Fn(u16) -> bool>(f: F) -> bool {
    &&& forall|id: u16| call_requires(f, (id,))
    &&& forall|id: u16| !(#[trigger] call_ensures(f, (id,), true) && call_ensures(f, (id,), false))
}

/// The ids for which the test answers `true`.
pub open spec fn says_embedded<F: Fn(u16) -> bool>(f: F) -> spec_fn(u16) -> bool {
    |id: u16| call_ensures(f, (id,), true)
}

fn is_embedded<F: Fn(u16) -> bool>(version: u32, emb: &F, id: u16) -> (b: bool)
    requires
        decides(*emb),
    ensures
        b == embedded_fn(version, says_embedded(*emb))(id),
{
    if version == MAP_OTBM_1 {
        let r = emb(id);
        r
    } else {
        false
    }
}

fn read_item<F: Fn(u16) -> bool>(node: &TreeNode, load: &mut OtbmLoad, emb: &F) -> (item: OtmItem)
    requires
        old(load).warnings@.no_duplicates(),
        decides(*emb),
    ensures
        final(load).warnings@.no_duplicates(),
        final(load).version == old(load).version,
        (item.view_item(), final(load).warnings@) == item_of(
            node.view_node(),
            old(load).warnings@,
            old(load).version,
            embedded_fn(old(load).version, says_embedded(*emb)),
        ),
    decreases node,
{
    let ghost nv = node.view_node();
    let ghost emb_s = embedded_fn(load.version, says_embedded(*emb));
    let mut c = node.read();
    c.skip(1);
    let id = match c.read_u16() {
        Some(id) => id,
        None => {
            load.warn(OtbmWarning::ItemWithoutId);
            return OtmItem::new(0);
        },
    };
    let mut item = OtmItem::new(id);
    if is_embedded(load.version, emb, id) {
        item.subtype = match c.read_u8() {
            Some(b) => b as u16,
            None => 0,
        };
    }
    let ghost c_start = c@;
    let ghost item_start = item.view_item();
    let ghost ws_start = load.warnings@;
    loop
        invariant_except_break
            item_attrs(c@, item.view_item(), load.warnings@) == item_attrs(c_start, item_start, ws_start),
        invariant
            c.wf(),
            c_start.wf(),
            c@.bytes == c_start.bytes,
            load.version == old(load).version,
            load.warnings@.no_duplicates(),
            item.id == id,
        ensures
            (item.view_item(), load.warnings@) == item_attrs(c_start, item_start, ws_start),
        decreases c@.bytes.len() - c@.pos,
    {
        let ghost c_before = c@;
        let ghost item_before = item.view_item();
        let ghost ws_before = load.warnings@;
        match c.read_u8() {
            None => {
                break;
            },
            Some(attr) => {
                let ghost c_attr = c@;
                proof {
                    lemma_reads(c_before);
                    lemma_item_attr(attr, c_attr, item_before, ws_before);
                }
                if !read_item_attr(attr, &mut c, &mut item, load) {
                    load.warn(OtbmWarning::UnknownItemAttr(id, attr));
                    break;
                }
            },
        }
    }
    let ghost item2 = item.view_item();
    let ghost ws2 = load.warnings@;
    proof {
        lemma_view_nodes_len(node.children@, node.children@.len());
    }
    let mut i: usize = 0;
    while i < node.children.len()
        invariant
            i <= node.children@.len(),
            nv == node.view_node(),
            nv.children.len() == node.children@.len(),
            forall|k: int| 0 <= k < node.children@.len() ==> #[trigger] nv.children[k] == node.children@[k].view_node(),
            decides(*emb),
            emb_s == embedded_fn(old(load).version, says_embedded(*emb)),
            load.version == old(load).version,
            load.warnings@.no_duplicates(),
            item.id == id,
            item2.id == id,
            (item.view_item(), load.warnings@) == item_children(nv, i as nat, item2, ws2, old(load).version, emb_s),
        decreases node.children@.len() - i,
    {
        let child = &node.children[i];
        if child.node_type() == Some(OTBM_ITEM) {
            let ci = read_item(child, load, emb);
            let ghost before = item.container@;
            item.container.push(ci);
            proof {
                lemma_view_items_push(before, ci);
            }
        } else {
            load.warn(OtbmWarning::NonItemChild(id));
        }
        i += 1;
    }
    item
}

/// The zone ids of a tile: `k` more `u16`s, of which a missing one is
/// reported.
pub open spec fn zone_ids(c: CursorView, k: nat, ws: Seq<OtbmWarning>) -> Seq<OtbmWarning>
    decreases k,
{
    if k == 0 {
        ws
    } else {
        let (v, c1) = c.read_u16();
        match v {
            None => warn(ws, OtbmWarning::BadZoneId),
            Some(_) => zone_ids(c1, (k - 1) as nat, ws),
        }
    }
}

/// A tile's zone node is read for its warnings only: a count (read from the
/// start of the payload), then as many zone ids.
pub open spec fn tile_zone(node: NodeView, ws: Seq<OtbmWarning>) -> Seq<OtbmWarning> {
    let (n, c1) = CursorView { bytes: node.data, pos: 0 }.read_u16();
    match n {
        None => warn(ws, OtbmWarning::BadZoneCount),
        Some(n) => zone_ids(c1, n as nat, ws),
    }
}

fn read_tile_zone(node: &TreeNode, load: &mut OtbmLoad, tile: &mut OtmTile)
    requires
        old(load).warnings@.no_duplicates(),
    ensures
        final(load).warnings@.no_duplicates(),
        final(load).version == old(load).version,
        final(load).warnings@ == tile_zone(node.view_node(), old(load).warnings@),
        *final(tile) == *old(tile),
{
    let mut c = node.read();
    let count = match c.read_u16() {
        Some(n) => n,
        None => {
            load.warn(OtbmWarning::BadZoneCount);
            return;
        },
    };
    let ghost c0 = c@;
    let mut i: u16 = 0;
    while i < count
        invariant
            i <= count,
            c.wf(),
            load.version == old(load).version,
            load.warnings@.no_duplicates(),
            tile_zone(node.view_node(), old(load).warnings@) == zone_ids(c0, count as nat, old(load).warnings@),
            zone_ids(c@, (count - i) as nat, load.warnings@) == zone_ids(c0, count as nat, old(load).warnings@),
        decreases count - i,
    {
        if c.read_u16().is_none() {
            load.warn(OtbmWarning::BadZoneId);
            return;
        }
        i += 1;
    }
}

// ---------------------------------------------------------------------------
// Tiles
// ---------------------------------------------------------------------------

/// The key under which a position is remembered: x, y and z as the digits
/// of one number (every position has its own key).
pub open spec fn pos_key(p: OtmPos) -> u64 {
    (p.x as int + 0x1_0000 * (p.y as int) + 0x1_0000_0000 * (p.z as int)) as u64
}

/// What the reading of a map data node carries along: the document, the
/// warnings, and the keys of the tile positions already read.
pub struct MapState {
    pub doc: DocView,
    pub ws: Seq<OtbmWarning>,
    pub seen: Set<u64>,
}

/// A new tile at `pos` of house `house`, without flags or items.
pub open spec fn empty_tile(pos: OtmPos, house: u32) -> OtmTileView {
    OtmTileView { x: pos.x, y: pos.y, z: pos.z, house_id: house, flags: 0, items: Seq::empty() }
}

/// The attributes in a tile's payload: flags (reported when cut short),
/// items stored inline (an inline item without its id is reported and ends
/// the attributes), and unknown ones, which are reported.
pub open spec fn tile_attrs(
    c: CursorView,
    tile: OtmTileView,
    ws: Seq<OtbmWarning>,
    pos: OtmPos,
    version: u32,
    emb: spec_fn(u16) -> bool,
) -> (OtmTileView, Seq<OtbmWarning>)
    decreases c.bytes.len() - c.pos,
{
    if !c.wf() {
        (tile, ws)
    } else {
        let (a, c1) = c.read_u8();
        proof {
            lemma_reads(c);
            lemma_reads(c1);
        }
        match a {
            None => (tile, ws),
            Some(attr) => if attr == OTBM_ATTR_TILE_FLAGS {
                let (f, c2) = c1.read_u32();
                match f {
                    Some(f) => tile_attrs(c2, OtmTileView { flags: f, ..tile }, ws, pos, version, emb),
                    None => tile_attrs(c2, tile, warn(ws, OtbmWarning::BadTileFlags(pos)), pos, version, emb),
                }
            } else if attr == OTBM_ATTR_ITEM {
                let (id, c2) = c1.read_u16();
                match id {
                    None => (tile, warn(ws, OtbmWarning::LegacyItemWithoutId)),
                    Some(id) => {
                        proof {
                            lemma_reads(c2);
                        }
                        let (v, c3) = c2.read_u8();
                        if emb(id) {
                            let item = OtmItemView {
                                subtype: match v {
                                    Some(b) => b as u16,
                                    None => 0,
                                },
                                ..new_item(id)
                            };
                            tile_attrs(c3, OtmTileView { items: tile.items.push(item), ..tile }, ws, pos, version, emb)
                        } else {
                            tile_attrs(c2, OtmTileView { items: tile.items.push(new_item(id)), ..tile }, ws, pos, version, emb)
                        }
                    },
                }
            } else {
                tile_attrs(c1, tile, warn(ws, OtbmWarning::UnknownTileAttr(attr, pos)), pos, version, emb)
            },
        }
    }
}

/// The first `n` children of a tile node: items are added to the tile,
/// zone lists are read for their warnings, anything else is reported.
pub open spec fn tile_children(
    node: NodeView,
    n: nat,
    tile: OtmTileView,
    ws: Seq<OtbmWarning>,
    pos: OtmPos,
    version: u32,
    emb: spec_fn(u16) -> bool,
) -> (OtmTileView, Seq<OtbmWarning>)
    decreases n,
{
    if n == 0 || n > node.children.len() {
        (tile, ws)
    } else {
        let (t, w) = tile_children(node, (n - 1) as nat, tile, ws, pos, version, emb);
        let child = node.children[n - 1];
        match node_type_of(child) {
            None => (t, warn(w, OtbmWarning::UntypedTileChild)),
            Some(ct) => if ct == OTBM_ITEM {
                let (item, w2) = item_of(child, w, version, emb);
                (OtmTileView { items: t.items.push(item), ..t }, w2)
            } else if ct == OTBM_TILE_ZONE {
                (t, tile_zone(child, w))
            } else {
                (t, warn(w, OtbmWarning::UnknownTileChild(ct, pos)))
            },
        }
    }
}

/// A tile at `pos` whose attributes start at `c`: dropped (and reported)
/// when a tile was read at its position before, else read and added.
pub open spec fn place_tile(
    child: NodeView,
    st: MapState,
    pos: OtmPos,
    house: u32,
    c: CursorView,
    version: u32,
    emb: spec_fn(u16) -> bool,
) -> MapState {
    if st.seen.contains(pos_key(pos)) {
        MapState { ws: warn(st.ws, OtbmWarning::DuplicateTile(pos)), ..st }
    } else {
        let (t1, ws1) = tile_attrs(c, empty_tile(pos, house), st.ws, pos, version, emb);
        let (t2, ws2) = tile_children(child, child.children.len(), t1, ws1, pos, version, emb);
        MapState {
            doc: DocView { tiles: st.doc.tiles.push(t2), ..st.doc },
            ws: ws2,
            seen: st.seen.insert(pos_key(pos)),
        }
    }
}

/// The position of a tile: the area's base plus the tile's offset (x and y
/// wrap around at 65536).
pub open spec fn tile_pos(bx: u16, by: u16, bz: u8, xo: u8, yo: u8) -> OtmPos {
    OtmPos { x: ((bx + xo) % 0x1_0000) as u16, y: ((by + yo) % 0x1_0000) as u16, z: bz }
}

/// One child of a tile area whose base is `(bx, by, bz)`.
pub open spec fn area_child(
    child: NodeView,
    st: MapState,
    bx: u16,
    by: u16,
    bz: u8,
    version: u32,
    emb: spec_fn(u16) -> bool,
) -> MapState {
    match node_type_of(child) {
        None => MapState { ws: warn(st.ws, OtbmWarning::UntypedAreaChild), ..st },
        Some(t) => if t != OTBM_TILE && t != OTBM_HOUSETILE {
            MapState { ws: warn(st.ws, OtbmWarning::UnknownTileNode(t)), ..st }
        } else {
            let (xo, c1) = after_type(child.data).read_u8();
            let (yo, c2) = c1.read_u8();
            if xo is None || yo is None {
                MapState { ws: warn(st.ws, OtbmWarning::TileWithoutPosition), ..st }
            } else {
                let pos = tile_pos(bx, by, bz, xo->0, yo->0);
                if t == OTBM_HOUSETILE {
                    let (h, c3) = c2.read_u32();
                    match h {
                        None => MapState { ws: warn(st.ws, OtbmWarning::HouseTileWithoutHouse(pos)), ..st },
                        Some(h) => if h == 0 {
                            place_tile(
                                child,
                                MapState { ws: warn(st.ws, OtbmWarning::InvalidHouseId(pos)), ..st },
                                pos,
                                0,
                                c3,
                                version,
                                emb,
                            )
                        } else {
                            place_tile(child, st, pos, h, c3, version, emb)
                        },
                    }
                } else {
                    place_tile(child, st, pos, 0, c2, version, emb)
                }
            }
        },
    }
}

/// The first `n` children of a tile area.
pub open spec fn area_children(
    node: NodeView,
    n: nat,
    st: MapState,
    bx: u16,
    by: u16,
    bz: u8,
    version: u32,
    emb: spec_fn(u16) -> bool,
) -> MapState
    decreases n,
{
    if n == 0 || n > node.children.len() {
        st
    } else {
        area_child(
            node.children[n - 1],
            area_children(node, (n - 1) as nat, st, bx, by, bz, version, emb),
            bx,
            by,
            bz,
            version,
            emb,
        )
    }
}

/// A tile area: its base coordinate (an area without one is reported and
/// skipped), then its tiles.
pub open spec fn tile_area(node: NodeView, st: MapState, version: u32, emb: spec_fn(u16) -> bool) -> MapState {
    let (bx, c1) = after_type(node.data).read_u16();
    let (by, c2) = c1.read_u16();
    let (bz, c3) = c2.read_u8();
    if bx is None || by is None || bz is None {
        MapState { ws: warn(st.ws, OtbmWarning::AreaWithoutBase), ..st }
    } else {
        area_children(node, node.children.len(), st, bx->0, by->0, bz->0, version, emb)
    }
}

// ---------------------------------------------------------------------------
// Towns and waypoints
// ---------------------------------------------------------------------------

/// The first `n` children of a town list, with the ids of the towns read
/// so far.
pub open spec fn town_children(node: NodeView, n: nat, doc: DocView, ws: Seq<OtbmWarning>, seen: Set<u32>) -> (
    DocView,
    Seq<OtbmWarning>,
    Set<u32>,
)
    decreases n,
{
    if n == 0 || n > node.children.len() {
        (doc, ws, seen)
    } else {
        let (d, w, sn) = town_children(node, (n - 1) as nat, doc, ws, seen);
        let child = node.children[n - 1];
        if node_type_of(child) != Some(OTBM_TOWN) {
            (d, warn(w, OtbmWarning::BadTownNode), sn)
        } else {
            let (id, c1) = after_type(child.data).read_u32();
            let (name, c2) = c1.read_string();
            if id is None || name is None {
                (d, warn(w, OtbmWarning::IncompleteTown), sn)
            } else if sn.contains(id->0) {
                (d, warn(w, OtbmWarning::DuplicateTown(id->0)), sn)
            } else {
                let (x, c3) = c2.read_u16();
                let (y, c4) = c3.read_u16();
                let (z, c5) = c4.read_u8();
                if x is None || y is None || z is None {
                    (d, warn(w, OtbmWarning::BadTemple(id->0)), sn.insert(id->0))
                } else {
                    let town = OtmTownView {
                        id: id->0,
                        name: name->0,
                        temple: OtmPos { x: x->0, y: y->0, z: z->0 },
                    };
                    (DocView { towns: d.towns.push(town), ..d }, w, sn.insert(id->0))
                }
            }
        }
    }
}

/// The first `n` children of a waypoint list.
pub open spec fn waypoint_children(node: NodeView, n: nat, doc: DocView, ws: Seq<OtbmWarning>) -> (
    DocView,
    Seq<OtbmWarning>,
)
    decreases n,
{
    if n == 0 || n > node.children.len() {
        (doc, ws)
    } else {
        let (d, w) = waypoint_children(node, (n - 1) as nat, doc, ws);
        let child = node.children[n - 1];
        if node_type_of(child) != Some(OTBM_WAYPOINT) {
            (d, warn(w, OtbmWarning::BadWaypointNode))
        } else {
            let (name, c1) = after_type(child.data).read_string();
            let (x, c2) = c1.read_u16();
            let (y, c3) = c2.read_u16();
            let (z, c4) = c3.read_u8();
            if name is None || x is None || y is None || z is None {
                (d, warn(w, OtbmWarning::IncompleteWaypoint))
            } else {
                let wp = OtmWaypointView { name: name->0, pos: OtmPos { x: x->0, y: y->0, z: z->0 } };
                (DocView { waypoints: d.waypoints.push(wp), ..d }, w)
            }
        }
    }
}

// ---------------------------------------------------------------------------
// Map data and root
// ---------------------------------------------------------------------------

/// The attributes of the map data node: the description (reported when it
/// cannot be read), the names of the external files, and unknown ones,
/// which are reported.
pub open spec fn map_header(c: CursorView, doc: DocView, ws: Seq<OtbmWarning>) -> (DocView, Seq<OtbmWarning>)
    decreases c.bytes.len() - c.pos,
{
    if !c.wf() {
        (doc, ws)
    } else {
        let (a, c1) = c.read_u8();
        proof {
            lemma_reads(c);
            lemma_reads(c1);
        }
        match a {
            None => (doc, ws),
            Some(attr) => {
                let (s, c2) = c1.read_string();
                if attr == OTBM_ATTR_DESCRIPTION {
                    match s {
                        Some(d) => map_header(c2, DocView { description: d, ..doc }, ws),
                        None => map_header(c2, doc, warn(ws, OtbmWarning::BadMapDescription)),
                    }
                } else if attr == OTBM_ATTR_EXT_SPAWN_MONSTER_FILE {
                    map_header(c2, DocView { spawn_monster_file: s, ..doc }, ws)
                } else if attr == OTBM_ATTR_EXT_HOUSE_FILE {
                    map_header(c2, DocView { house_file: s, ..doc }, ws)
                } else if attr == OTBM_ATTR_EXT_ZONE_FILE {
                    map_header(c2, DocView { zone_file: s, ..doc }, ws)
                } else if attr == OTBM_ATTR_EXT_SPAWN_NPC_FILE {
                    map_header(c2, DocView { spawn_npc_file: s, ..doc }, ws)
                } else {
                    map_header(c1, doc, warn(ws, OtbmWarning::UnknownHeaderAttr(attr)))
                }
            },
        }
    }
}

/// One child of the map data node.
pub open spec fn map_child(child: NodeView, st: MapState, version: u32, emb: spec_fn(u16) -> bool) -> MapState {
    match node_type_of(child) {
        None => MapState { ws: warn(st.ws, OtbmWarning::UntypedMapChild), ..st },
        Some(t) => if t == OTBM_TILE_AREA {
            tile_area(child, st, version, emb)
        } else if t == OTBM_TOWNS {
            let (d, w, _) = town_children(child, child.children.len(), st.doc, st.ws, Set::empty());
            MapState { doc: d, ws: w, seen: st.seen }
        } else if t == OTBM_WAYPOINTS {
            let (d, w) = waypoint_children(child, child.children.len(), st.doc, st.ws);
            MapState { doc: d, ws: w, seen: st.seen }
        } else if t == OTBM_ITEM_DEF {
            MapState { ws: warn(st.ws, OtbmWarning::ItemDefIgnored), ..st }
        } else if t == OTBM_SPAWNS {
            MapState { ws: warn(st.ws, OtbmWarning::SpawnsIgnored), ..st }
        } else {
            MapState { ws: warn(st.ws, OtbmWarning::UnknownMapNode(t)), ..st }
        },
    }
}

/// The first `n` children of the map data node.
pub open spec fn map_children(node: NodeView, n: nat, st: MapState, version: u32, emb: spec_fn(u16) -> bool) -> MapState
    decreases n,
{
    if n == 0 || n > node.children.len() {
        st
    } else {
        map_child(node.children[n - 1], map_children(node, (n - 1) as nat, st, version, emb), version, emb)
    }
}

/// A map data node: its header, then its children; each map data node
/// keeps its own record of the tile positions read.
pub open spec fn map_data(node: NodeView, doc: DocView, ws: Seq<OtbmWarning>, version: u32, emb: spec_fn(u16) -> bool) -> (
    DocView,
    Seq<OtbmWarning>,
) {
    let (d1, w1) = map_header(after_type(node.data), doc, ws);
    let st = map_children(node, node.children.len(), MapState { doc: d1, ws: w1, seen: Set::empty() }, version, emb);
    (st.doc, st.ws)
}

/// The first `n` children of the root: map data nodes are read, others
/// reported. The flag says whether a map data node was seen.
pub open spec fn root_children(
    root: NodeView,
    n: nat,
    doc: DocView,
    ws: Seq<OtbmWarning>,
    version: u32,
    emb: spec_fn(u16) -> bool,
) -> (DocView, Seq<OtbmWarning>, bool)
    decreases n,
{
    if n == 0 || n > root.children.len() {
        (doc, ws, false)
    } else {
        let (d, w, seen) = root_children(root, (n - 1) as nat, doc, ws, version, emb);
        let child = root.children[n - 1];
        match node_type_of(child) {
            Some(t) => if t == OTBM_MAP_DATA {
                let (d2, w2) = map_data(child, d, w, version, emb);
                (d2, w2, true)
            } else {
                (d, warn(w, OtbmWarning::UnknownRootNode(t)), seen)
            },
            None => (d, warn(w, OtbmWarning::UntypedRootNode), seen),
        }
    }
}

/// The document before any node is read: the header values and nothing else.
pub open spec fn header_doc(version: u32, width: u16, height: u16) -> DocView {
    DocView {
        version,
        width,
        height,
        description: Seq::empty(),
        spawn_monster_file: None,
        house_file: None,
        zone_file: None,
        spawn_npc_file: None,
        tiles: Seq::empty(),
        towns: Seq::empty(),
        waypoints: Seq::empty(),
        warnings: Seq::empty(),
    }
}

/// The bytes `OTBM`.
pub open spec fn otbm_magic() -> Seq<u8> {
    seq![0x4Fu8, 0x54u8, 0x42u8, 0x4Du8]
}

/// What a map file reads as: the header checks, then the root's version
/// (one newer than the last known is refused), width and height, then its
/// children; a file without map data is refused. `emb` says for which ids a first-version map stores the
/// subtype right after the id.
pub open spec fn spec_parse(data: Seq<u8>, emb: spec_fn(u16) -> bool) -> Result<DocView, OtbmError> {
    if data.len() < 5 {
        Err(OtbmError::TooSmall)
    } else if !(data.take(4) == seq![0u8, 0u8, 0u8, 0u8] || data.take(4) == otbm_magic()) {
        Err(OtbmError::BadMagic)
    } else if data[4] != NODE_START {
        Err(OtbmError::BadRootNode)
    } else {
        let root = spec_build_tree(data.skip(5));
        let (v, c1) = after_type(root.data).read_u32();
        let (w, c2) = c1.read_u16();
        let (h, c3) = c2.read_u16();
        match v {
            None => Err(OtbmError::Truncated("versão da raiz")),
            Some(version) => if version > MAP_OTBM_LAST_VERSION {
                Err(OtbmError::UnsupportedVersion(version))
            } else {
                match w {
                    None => Err(OtbmError::Truncated("largura do mapa")),
                    Some(width) => match h {
                        None => Err(OtbmError::Truncated("altura do mapa")),
                        Some(height) => {
                            let (d, ws, seen) = root_children(
                                root,
                                root.children.len(),
                                header_doc(version, width, height),
                                Seq::empty(),
                                version,
                                embedded_fn(version, emb),
                            );
                            if !seen {
                                Err(OtbmError::MissingMapData)
                            } else {
                                Ok(DocView { warnings: ws, ..d })
                            }
                        },
                    },
                }
            },
        }
    }
}

/// The map version that a file's root states, if it has one.
pub open spec fn file_version(data: Seq<u8>) -> Option<u32> {
    after_type(spec_build_tree(data.skip(5)).data).read_u32().0
}

/// For a file whose root states a later version than the first, the
/// caller's test on item ids is never consulted: the file reads the same
/// under any two tests.
pub proof fn lemma_later_versions_ignore_test(data: Seq<u8>, t1: spec_fn(u16) -> bool, t2: spec_fn(u16) -> bool)
    requires
        file_version(data) matches Some(v) && v != MAP_OTBM_1,
    ensures
        spec_parse(data, t2) == spec_parse(data, t1),
{
    let version = file_version(data)->0;
    assert(embedded_fn(version, t1) =~= embedded_fn(version, t2));
}

// ---------------------------------------------------------------------------
// Reading
// ---------------------------------------------------------------------------

/// The state of a map data read, as the spec functions see it.
pub open spec fn map_state(doc: OtbmDocument, load: OtbmLoad, seen: HashSet<u64>) -> MapState {
    MapState { doc: doc@, ws: load.warnings@, seen: seen@ }
}

fn position_key(pos: OtmPos) -> (k: u64)
    ensures
        k == pos_key(pos),
{
    pos.x as u64 + (pos.y as u64) * 0x1_0000 + (pos.z as u64) * 0x1_0000_0000
}

/// Reads the attributes and children of a tile at `pos` whose attributes
/// start at `tc`, and adds it to the document, unless a tile at `pos` was
/// read before.
fn load_tile<F: Fn(u16) -> bool>(
    child: &TreeNode,
    tc: &mut BinaryCursor,
    pos: OtmPos,
    house_id: u32,
    seen: &mut HashSet<u64>,
    load: &mut OtbmLoad,
    doc: &mut OtbmDocument,
    emb: &F,
)
    requires
        old(load).warnings@.no_duplicates(),
        old(tc).wf(),
        decides(*emb),
    ensures
        final(load).warnings@.no_duplicates(),
        final(load).version == old(load).version,
        map_state(*final(doc), *final(load), *final(seen)) == place_tile(
            child.view_node(),
            map_state(*old(doc), *old(load), *old(seen)),
            pos,
            house_id,
            old(tc)@,
            old(load).version,
            embedded_fn(old(load).version, says_embedded(*emb)),
        ),
{
    let ghost emb_s = embedded_fn(load.version, says_embedded(*emb));
    let ghost nv = child.view_node();
    let key = position_key(pos);
    if !seen.insert(key) {
        assert(seen@ =~= old(seen)@);
        load.warn(OtbmWarning::DuplicateTile(pos));
        return;
    }
    let mut tile = OtmTile { x: pos.x, y: pos.y, z: pos.z, house_id, flags: 0, items: Vec::new() };
    proof {
        lemma_view_items(tile.items@, 0);
    }
    assert(tile@ == empty_tile(pos, house_id));
    let ghost c_start = tc@;
    let ghost ws_start = load.warnings@;
    loop
        invariant_except_break
            tile_attrs(tc@, tile@, load.warnings@, pos, old(load).version, emb_s) == tile_attrs(
                c_start,
                empty_tile(pos, house_id),
                ws_start,
                pos,
                old(load).version,
                emb_s,
            ),
        invariant
            tc.wf(),
            decides(*emb),
            emb_s == embedded_fn(old(load).version, says_embedded(*emb)),
            load.version == old(load).version,
            load.warnings@.no_duplicates(),
        ensures
            (tile@, load.warnings@) == tile_attrs(c_start, empty_tile(pos, house_id), ws_start, pos, old(load).version, emb_s),
        decreases tc@.bytes.len() - tc@.pos,
    {
        let ghost c0 = tc@;
        proof {
            lemma_reads(c0);
        }
        match tc.read_u8() {
            None => {
                break;
            },
            Some(attr) => {
                let ghost c1 = tc@;
                proof {
                    lemma_reads(c1);
                }
                if attr == OTBM_ATTR_TILE_FLAGS {
                    match tc.read_u32() {
                        Some(f) => {
                            tile.flags = f;
                        },
                        None => {
                            load.warn(OtbmWarning::BadTileFlags(pos));
                        },
                    }
                } else if attr == OTBM_ATTR_ITEM {
                    match tc.read_u16() {
                        None => {
                            load.warn(OtbmWarning::LegacyItemWithoutId);
                            break;
                        },
                        Some(id) => {
                            proof {
                                lemma_reads(tc@);
                            }
                            let mut item = OtmItem::new(id);
                            if is_embedded(load.version, emb, id) {
                                item.subtype = match tc.read_u8() {
                                    Some(b) => b as u16,
                                    None => 0,
                                };
                            }
                            let ghost before = tile.items@;
                            tile.items.push(item);
                            proof {
                                lemma_view_items_push(before, item);
                            }
                        },
                    }
                } else {
                    load.warn(OtbmWarning::UnknownTileAttr(attr, pos));
                }
            },
        }
    }
    let ghost t1 = tile@;
    let ghost ws1 = load.warnings@;
    proof {
        lemma_view_nodes_len(child.children@, child.children@.len());
    }
    let mut i: usize = 0;
    while i < child.children.len()
        invariant
            i <= child.children@.len(),
            nv == child.view_node(),
            nv.children.len() == child.children@.len(),
            forall|k: int| 0 <= k < child.children@.len() ==> #[trigger] nv.children[k] == child.children@[k].view_node(),
            decides(*emb),
            emb_s == embedded_fn(old(load).version, says_embedded(*emb)),
            load.version == old(load).version,
            load.warnings@.no_duplicates(),
            (tile@, load.warnings@) == tile_children(nv, i as nat, t1, ws1, pos, old(load).version, emb_s),
        decreases child.children@.len() - i,
    {
        let cc = &child.children[i];
        match cc.node_type() {
            None => {
                load.warn(OtbmWarning::UntypedTileChild);
            },
            Some(ct) => {
                if ct == OTBM_ITEM {
                    let item = read_item(cc, load, emb);
                    let ghost before = tile.items@;
                    tile.items.push(item);
                    proof {
                        lemma_view_items_push(before, item);
                    }
                } else if ct == OTBM_TILE_ZONE {
                    read_tile_zone(cc, load, &mut tile);
                } else {
                    load.warn(OtbmWarning::UnknownTileChild(ct, pos));
                }
            },
        }
        i += 1;
    }
    let ghost tiles_before = doc.tiles@;
    let ghost tv = tile@;
    doc.tiles.push(tile);
    assert(doc@.tiles =~= old(doc)@.tiles.push(tv));
}

fn load_area_child<F: Fn(u16) -> bool>(
    child: &TreeNode,
    bx: u16,
    by: u16,
    bz: u8,
    seen: &mut HashSet<u64>,
    load: &mut OtbmLoad,
    doc: &mut OtbmDocument,
    emb: &F,
)
    requires
        old(load).warnings@.no_duplicates(),
        decides(*emb),
    ensures
        final(load).warnings@.no_duplicates(),
        final(load).version == old(load).version,
        map_state(*final(doc), *final(load), *final(seen)) == area_child(
            child.view_node(),
            map_state(*old(doc), *old(load), *old(seen)),
            bx,
            by,
            bz,
            old(load).version,
            embedded_fn(old(load).version, says_embedded(*emb)),
        ),
{
    let t = match child.node_type() {
        None => {
            load.warn(OtbmWarning::UntypedAreaChild);
            return;
        },
        Some(t) => t,
    };
    if t != OTBM_TILE && t != OTBM_HOUSETILE {
        load.warn(OtbmWarning::UnknownTileNode(t));
        return;
    }
    let mut tc = child.read();
    tc.skip(1);
    let xo = tc.read_u8();
    let yo = tc.read_u8();
    let (xo, yo) = match (xo, yo) {
        (Some(xo), Some(yo)) => (xo, yo),
        _ => {
            load.warn(OtbmWarning::TileWithoutPosition);
            return;
        },
    };
    let pos = OtmPos {
        x: ((bx as u32 + xo as u32) % 0x1_0000) as u16,
        y: ((by as u32 + yo as u32) % 0x1_0000) as u16,
        z: bz,
    };
    let mut house_id: u32 = 0;
    if t == OTBM_HOUSETILE {
        match tc.read_u32() {
            Some(id) => {
                if id == 0 {
                    load.warn(OtbmWarning::InvalidHouseId(pos));
                } else {
                    house_id = id;
                }
            },
            None => {
                load.warn(OtbmWarning::HouseTileWithoutHouse(pos));
                return;
            },
        }
    }
    load_tile(child, &mut tc, pos, house_id, seen, load, doc, emb);
}

fn load_tile_area<F: Fn(u16) -> bool>(
    node: &TreeNode,
    seen: &mut HashSet<u64>,
    load: &mut OtbmLoad,
    doc: &mut OtbmDocument,
    emb: &F,
)
    requires
        old(load).warnings@.no_duplicates(),
        decides(*emb),
    ensures
        final(load).warnings@.no_duplicates(),
        final(load).version == old(load).version,
        map_state(*final(doc), *final(load), *final(seen)) == tile_area(
            node.view_node(),
            map_state(*old(doc), *old(load), *old(seen)),
            old(load).version,
            embedded_fn(old(load).version, says_embedded(*emb)),
        ),
{
    let ghost nv = node.view_node();
    let ghost emb_s = embedded_fn(load.version, says_embedded(*emb));
    let mut c = node.read();
    c.skip(1);
    let bx = c.read_u16();
    let by = c.read_u16();
    let bz = c.read_u8();
    let (bx, by, bz) = match (bx, by, bz) {
        (Some(x), Some(y), Some(z)) => (x, y, z),
        _ => {
            load.warn(OtbmWarning::AreaWithoutBase);
            return;
        },
    };
    let ghost st0 = map_state(*doc, *load, *seen);
    proof {
        lemma_view_nodes_len(node.children@, node.children@.len());
    }
    let mut i: usize = 0;
    while i < node.children.len()
        invariant
            i <= node.children@.len(),
            nv == node.view_node(),
            nv.children.len() == node.children@.len(),
            forall|k: int| 0 <= k < node.children@.len() ==> #[trigger] nv.children[k] == node.children@[k].view_node(),
            decides(*emb),
            emb_s == embedded_fn(old(load).version, says_embedded(*emb)),
            load.version == old(load).version,
            load.warnings@.no_duplicates(),
            map_state(*doc, *load, *seen) == area_children(nv, i as nat, st0, bx, by, bz, old(load).version, emb_s),
        decreases node.children@.len() - i,
    {
        load_area_child(&node.children[i], bx, by, bz, seen, load, doc, emb);
        i += 1;
    }
}

fn load_towns(node: &TreeNode, load: &mut OtbmLoad, doc: &mut OtbmDocument)
    requires
        old(load).warnings@.no_duplicates(),
    ensures
        final(load).warnings@.no_duplicates(),
        final(load).version == old(load).version,
        (final(doc)@, final(load).warnings@) == ({
            let (d, w, _) = town_children(
                node.view_node(),
                node.view_node().children.len(),
                old(doc)@,
                old(load).warnings@,
                Set::empty(),
            );
            (d, w)
        }),
{
    let ghost nv = node.view_node();
    let mut seen: HashSet<u32> = HashSet::new();
    proof {
        lemma_view_nodes_len(node.children@, node.children@.len());
    }
    let mut i: usize = 0;
    while i < node.children.len()
        invariant
            i <= node.children@.len(),
            nv == node.view_node(),
            nv.children.len() == node.children@.len(),
            forall|k: int| 0 <= k < node.children@.len() ==> #[trigger] nv.children[k] == node.children@[k].view_node(),
            load.version == old(load).version,
            load.warnings@.no_duplicates(),
            (doc@, load.warnings@, seen@) == town_children(nv, i as nat, old(doc)@, old(load).warnings@, Set::empty()),
        decreases node.children@.len() - i,
    {
        let child = &node.children[i];
        if child.node_type() != Some(OTBM_TOWN) {
            load.warn(OtbmWarning::BadTownNode);
        } else {
            let mut c = child.read();
            c.skip(1);
            let id = c.read_u32();
            let name = c.read_string();
            match (id, name) {
                (Some(id), Some(name)) => {
                    if !seen.insert(id) {
                        assert(seen@ =~= town_children(nv, i as nat, old(doc)@, old(load).warnings@, Set::empty()).2);
                        load.warn(OtbmWarning::DuplicateTown(id));
                    } else {
                        let x = c.read_u16();
                        let y = c.read_u16();
                        let z = c.read_u8();
                        match (x, y, z) {
                            (Some(x), Some(y), Some(z)) => {
                                let town = OtmTown { id, name, temple: OtmPos { x, y, z } };
                                let ghost tv = town@;
                                let ghost before = doc@;
                                doc.towns.push(town);
                                assert(doc@.towns =~= before.towns.push(tv));
                            },
                            _ => {
                                load.warn(OtbmWarning::BadTemple(id));
                            },
                        }
                    }
                },
                _ => {
                    load.warn(OtbmWarning::IncompleteTown);
                },
            }
        }
        i += 1;
    }
}

fn load_waypoints(node: &TreeNode, load: &mut OtbmLoad, doc: &mut OtbmDocument)
    requires
        old(load).warnings@.no_duplicates(),
    ensures
        final(load).warnings@.no_duplicates(),
        final(load).version == old(load).version,
        (final(doc)@, final(load).warnings@) == waypoint_children(
            node.view_node(),
            node.view_node().children.len(),
            old(doc)@,
            old(load).warnings@,
        ),
{
    let ghost nv = node.view_node();
    proof {
        lemma_view_nodes_len(node.children@, node.children@.len());
    }
    let mut i: usize = 0;
    while i < node.children.len()
        invariant
            i <= node.children@.len(),
            nv == node.view_node(),
            nv.children.len() == node.children@.len(),
            forall|k: int| 0 <= k < node.children@.len() ==> #[trigger] nv.children[k] == node.children@[k].view_node(),
            load.version == old(load).version,
            load.warnings@.no_duplicates(),
            (doc@, load.warnings@) == waypoint_children(nv, i as nat, old(doc)@, old(load).warnings@),
        decreases node.children@.len() - i,
    {
        let child = &node.children[i];
        if child.node_type() != Some(OTBM_WAYPOINT) {
            load.warn(OtbmWarning::BadWaypointNode);
        } else {
            let mut c = child.read();
            c.skip(1);
            let name = c.read_string();
            let x = c.read_u16();
            let y = c.read_u16();
            let z = c.read_u8();
            match (name, x, y, z) {
                (Some(name), Some(x), Some(y), Some(z)) => {
                    let wp = OtmWaypoint { name, pos: OtmPos { x, y, z } };
                    let ghost wv = wp@;
                    let ghost before = doc@;
                    doc.waypoints.push(wp);
                    assert(doc@.waypoints =~= before.waypoints.push(wv));
                },
                _ => {
                    load.warn(OtbmWarning::IncompleteWaypoint);
                },
            }
        }
        i += 1;
    }
}

fn load_map_data<F: Fn(u16) -> bool>(node: &TreeNode, load: &mut OtbmLoad, doc: &mut OtbmDocument, emb: &F)
    requires
        old(load).warnings@.no_duplicates(),
        decides(*emb),
    ensures
        final(load).warnings@.no_duplicates(),
        final(load).version == old(load).version,
        (final(doc)@, final(load).warnings@) == map_data(
            node.view_node(),
            old(doc)@,
            old(load).warnings@,
            old(load).version,
            embedded_fn(old(load).version, says_embedded(*emb)),
        ),
{
    let ghost nv = node.view_node();
    let ghost emb_s = embedded_fn(load.version, says_embedded(*emb));
    let mut c = node.read();
    c.skip(1);
    let ghost c_start = c@;
    loop
        invariant_except_break
            map_header(c@, doc@, load.warnings@) == map_header(c_start, old(doc)@, old(load).warnings@),
        invariant
            c.wf(),
            load.version == old(load).version,
            load.warnings@.no_duplicates(),
        ensures
            (doc@, load.warnings@) == map_header(c_start, old(doc)@, old(load).warnings@),
        decreases c@.bytes.len() - c@.pos,
    {
        let ghost c0 = c@;
        proof {
            lemma_reads(c0);
        }
        let attr = match c.read_u8() {
            None => {
                break;
            },
            Some(a) => a,
        };
        proof {
            lemma_reads(c@);
        }
        if attr == OTBM_ATTR_DESCRIPTION {
            match c.read_string() {
                Some(d) => {
                    doc.description = d;
                },
                None => {
                    load.warn(OtbmWarning::BadMapDescription);
                },
            }
        } else if attr == OTBM_ATTR_EXT_SPAWN_MONSTER_FILE {
            doc.spawn_monster_file = c.read_string();
        } else if attr == OTBM_ATTR_EXT_HOUSE_FILE {
            doc.house_file = c.read_string();
        } else if attr == OTBM_ATTR_EXT_ZONE_FILE {
            doc.zone_file = c.read_string();
        } else if attr == OTBM_ATTR_EXT_SPAWN_NPC_FILE {
            doc.spawn_npc_file = c.read_string();
        } else {
            load.warn(OtbmWarning::UnknownHeaderAttr(attr));
        }
    }
    let mut seen: HashSet<u64> = HashSet::new();
    let ghost st0 = map_state(*doc, *load, seen);
    proof {
        lemma_view_nodes_len(node.children@, node.children@.len());
    }
    let mut i: usize = 0;
    while i < node.children.len()
        invariant
            i <= node.children@.len(),
            nv == node.view_node(),
            nv.children.len() == node.children@.len(),
            forall|k: int| 0 <= k < node.children@.len() ==> #[trigger] nv.children[k] == node.children@[k].view_node(),
            decides(*emb),
            emb_s == embedded_fn(old(load).version, says_embedded(*emb)),
            load.version == old(load).version,
            load.warnings@.no_duplicates(),
            st0.seen == Set::<u64>::empty(),
            map_header(c_start, old(doc)@, old(load).warnings@) == (st0.doc, st0.ws),
            map_state(*doc, *load, seen) == map_children(nv, i as nat, st0, old(load).version, emb_s),
        decreases node.children@.len() - i,
    {
        let child = &node.children[i];
        match child.node_type() {
            None => {
                load.warn(OtbmWarning::UntypedMapChild);
            },
            Some(t) => {
                if t == OTBM_TILE_AREA {
                    load_tile_area(child, &mut seen, load, doc, emb);
                } else if t == OTBM_TOWNS {
                    load_towns(child, load, doc);
                } else if t == OTBM_WAYPOINTS {
                    load_waypoints(child, load, doc);
                } else if t == OTBM_ITEM_DEF {
                    load.warn(OtbmWarning::ItemDefIgnored);
                } else if t == OTBM_SPAWNS {
                    load.warn(OtbmWarning::SpawnsIgnored);
                } else {
                    load.warn(OtbmWarning::UnknownMapNode(t));
                }
            },
        }
        i += 1;
    }
}

fn empty_document(version: u32, width: u16, height: u16) -> (doc: OtbmDocument)
    ensures
        doc@ == header_doc(version, width, height),
{
    let doc = OtbmDocument {
        version,
        width,
        height,
        description: String::new(),
        spawn_monster_file: None,
        house_file: None,
        zone_file: None,
        spawn_npc_file: None,
        tiles: Vec::new(),
        towns: Vec::new(),
        waypoints: Vec::new(),
        warnings: Vec::new(),
    };
    assert(doc@.tiles =~= Seq::empty());
    assert(doc@.towns =~= Seq::empty());
    assert(doc@.waypoints =~= Seq::empty());
    doc
}

/// Reads a whole `.otbm` file. `is_subtype_embedded` says, for maps of the
/// first version only, which item ids carry their count right after the id
/// (stackables, splashes, fluids): that depends on the item table, so the
/// caller decides; for later versions it is not called.
pub fn parse<F: Fn(u16) -> bool>(data: &[u8], is_subtype_embedded: F) -> (r: Result<OtbmDocument, OtbmError>)
    requires
        decides(is_subtype_embedded),
    ensures
        match r {
            Ok(d) => spec_parse(data@, says_embedded(is_subtype_embedded)) == Ok::<DocView, OtbmError>(d@)
                && d.warnings@.no_duplicates(),
            Err(e) => spec_parse(data@, says_embedded(is_subtype_embedded)) == Err::<DocView, OtbmError>(e),
        },
{
    let emb = &is_subtype_embedded;
    let ghost emb_s = says_embedded(is_subtype_embedded);
    if data.len() < 5 {
        return Err(OtbmError::TooSmall);
    }
    let wildcard = data[0] == 0 && data[1] == 0 && data[2] == 0 && data[3] == 0;
    let magic = data[0] == 0x4F && data[1] == 0x54 && data[2] == 0x42 && data[3] == 0x4D;
    assert(wildcard == (data@.take(4) == seq![0u8, 0u8, 0u8, 0u8])) by {
        if wildcard {
            assert(data@.take(4) =~= seq![0u8, 0u8, 0u8, 0u8]);
        }
    }
    assert(magic == (data@.take(4) == otbm_magic())) by {
        if magic {
            assert(data@.take(4) =~= otbm_magic());
        }
    }
    if !(wildcard || magic) {
        return Err(OtbmError::BadMagic);
    }
    if data[4] != NODE_START {
        return Err(OtbmError::BadRootNode);
    }
    let rest = slice_subrange(data, 5, data.len());
    assert(rest@ =~= data@.skip(5));
    let root = build_tree(rest);
    let ghost rv = root.view_node();
    let mut rc = root.read();
    rc.skip(1);
    let version = match rc.read_u32() {
        Some(v) => v,
        None => {
            return Err(OtbmError::Truncated("versão da raiz"));
        },
    };
    if version > MAP_OTBM_LAST_VERSION {
        return Err(OtbmError::UnsupportedVersion(version));
    }
    let mut load = OtbmLoad { version, warnings: Vec::new() };
    assert(load.warnings@ =~= Seq::<OtbmWarning>::empty());
    let width = match rc.read_u16() {
        Some(w) => w,
        None => {
            return Err(OtbmError::Truncated("largura do mapa"));
        },
    };
    let height = match rc.read_u16() {
        Some(h) => h,
        None => {
            return Err(OtbmError::Truncated("altura do mapa"));
        },
    };
    let mut doc = empty_document(version, width, height);
    let ghost doc0 = doc@;
    let ghost ws0 = load.warnings@;
    let mut seen_map_data = false;
    proof {
        lemma_view_nodes_len(root.children@, root.children@.len());
    }
    let mut i: usize = 0;
    while i < root.children.len()
        invariant
            i <= root.children@.len(),
            rv == root.view_node(),
            rv.children.len() == root.children@.len(),
            forall|k: int| 0 <= k < root.children@.len() ==> #[trigger] rv.children[k] == root.children@[k].view_node(),
            decides(*emb),
            emb == &is_subtype_embedded,
            emb_s == says_embedded(is_subtype_embedded),
            load.version == version,
            load.warnings@.no_duplicates(),
            (doc@, load.warnings@, seen_map_data) == root_children(rv, i as nat, doc0, ws0, version, embedded_fn(version, emb_s)),
        decreases root.children@.len() - i,
    {
        let child = &root.children[i];
        match child.node_type() {
            Some(t) => {
                if t == OTBM_MAP_DATA {
                    seen_map_data = true;
                    load_map_data(child, &mut load, &mut doc, emb);
                } else {
                    load.warn(OtbmWarning::UnknownRootNode(t));
                }
            },
            None => {
                load.warn(OtbmWarning::UntypedRootNode);
            },
        }
        i += 1;
    }
    if !seen_map_data {
        return Err(OtbmError::MissingMapData);
    }
    doc.warnings = load.warnings;
    Ok(doc)
}

} // verus!
