//! The editor's tabs and tool settings, and the rules of the map view that
//! do not depend on the interface toolkit.

use vstd::prelude::*;
use crate::document::MapDocument;
use crate::position::{CHUNK_SIZE, ChunkCoord, GROUND_FLOOR, MAP_MAX_Z, Position, chunk_in_range, chunk_of,
    chunk_position, lemma_chunk_index_identifies, lemma_chunk_position, local_index_of};
use crate::spatial_map::SpatialMap;

verus! {

pub enum EditorTab {
    Viewport { doc_index: usize },
    Objects,
    Towns,
    Houses,
    Zones,
    Project,
    World,
    Inspector,
    Minimap,
    Console,
}

/// The title of a tab: a viewport shows the name of its document, or
/// "Viewport" when there is no such document; the others their own name.
pub open spec fn spec_tab_title(tab: EditorTab, names: Seq<Seq<char>>) -> Seq<char> {
    match tab {
        EditorTab::Viewport { doc_index } => if doc_index < names.len() {
            names[doc_index as int]
        } else {
            "Viewport"@
        },
        EditorTab::Objects => "Objects"@,
        EditorTab::Towns => "Towns"@,
        EditorTab::Houses => "Houses"@,
        EditorTab::Zones => "Zones"@,
        EditorTab::Project => "Project"@,
        EditorTab::World => "World"@,
        EditorTab::Inspector => "Inspector"@,
        EditorTab::Minimap => "Minimap"@,
        EditorTab::Console => "Console"@,
    }
}

/// The names of the open documents, in order.
pub open spec fn document_names(documents: Seq<MapDocument>) -> Seq<Seq<char>> {
    documents.map_values(|d: MapDocument| d.name@)
}

impl EditorTab {
    pub fn title(&self, documents: &Vec<MapDocument>) -> (s: String)
        ensures
            s@ == spec_tab_title(*self, document_names(documents@)),
    {
        match self {
            EditorTab::Viewport { doc_index } => {
                if *doc_index < documents.len() {
                    documents[*doc_index].name.clone()
                } else {
                    "Viewport".to_owned()
                }
            },
            EditorTab::Objects => "Objects".to_owned(),
            EditorTab::Towns => "Towns".to_owned(),
            EditorTab::Houses => "Houses".to_owned(),
            EditorTab::Zones => "Zones".to_owned(),
            EditorTab::Project => "Project".to_owned(),
            EditorTab::World => "World".to_owned(),
            EditorTab::Inspector => "Inspector".to_owned(),
            EditorTab::Minimap => "Minimap".to_owned(),
            EditorTab::Console => "Console".to_owned(),
        }
    }
}

#[derive(Clone, Copy, PartialEq, Eq, Structural)]
pub enum SelectionBrush {
    SingleSelect,
    Eraser,
    Border,
}

#[derive(Clone, Copy, PartialEq, Eq, Structural)]
pub enum ZoneBrush {
    ProtectionZone,
    NoPvp,
    Pvp,
    NoLogout,
}

#[derive(Clone, Copy, PartialEq, Eq, Structural)]
pub enum DoorBrush {
    Normal,
    Quest,
    Locked,
    Magic,
}

#[derive(Clone, Copy, PartialEq, Eq, Structural)]
pub enum WindowBrush {
    Normal,
    Hatched,
}

#[derive(Clone, Copy, PartialEq, Eq, Structural)]
pub enum BrushShape {
    Circle,
    Square,
}

#[derive(Clone, Copy, PartialEq, Eq, Structural)]
pub enum AntiAliasing {
    Off,
    Retro,
    Blurry,
    RoundedEdges,
}

impl AntiAliasing {
    /// The name shown for the mode.
    pub fn label(self) -> (s: &'static str)
        ensures
            s@ == (match self {
                AntiAliasing::Off => "Off"@,
                AntiAliasing::Retro => "Retro (Sharp Bilinear)"@,
                AntiAliasing::Blurry => "Blurry (Super 2xSaI)"@,
                AntiAliasing::RoundedEdges => "Rounded Edges (4xBRZ)"@,
            }),
    {
        match self {
            AntiAliasing::Off => "Off",
            AntiAliasing::Retro => "Retro (Sharp Bilinear)",
            AntiAliasing::Blurry => "Blurry (Super 2xSaI)",
            AntiAliasing::RoundedEdges => "Rounded Edges (4xBRZ)",
        }
    }

    /// The number that the sprite shader reads for the mode.
    pub fn shader_mode(self) -> (m: u32)
        ensures
            m == (match self {
                AntiAliasing::Off => 0u32,
                AntiAliasing::Retro => 1u32,
                AntiAliasing::Blurry => 2u32,
                AntiAliasing::RoundedEdges => 3u32,
            }),
    {
        match self {
            AntiAliasing::Off => 0,
            AntiAliasing::Retro => 1,
            AntiAliasing::Blurry => 2,
            AntiAliasing::RoundedEdges => 3,
        }
    }
}

/// The shader switches of the World tab; all on by default.
#[derive(Clone, Copy)]
pub struct ShaderOptions {
    pub checkerboard_dither: bool,
    pub crt_bloom: bool,
    pub crt_color: bool,
}

impl Default for ShaderOptions {
    fn default() -> (o: Self)
        ensures
            o.checkerboard_dither && o.crt_bloom && o.crt_color,
    {
        ShaderOptions { checkerboard_dither: true, crt_bloom: true, crt_color: true }
    }
}

/// What the pointer is over.
#[derive(Default, Clone)]
pub struct HoverInfo {
    pub x: i32,
    pub y: i32,
    pub z: i32,
    pub item_id: u32,
    pub item_name: String,
}

/// The floors drawn for the current floor: from the ground floor up to the
/// top on the ground floor or above; below ground, from two floors below the
/// current one (at most the deepest). Gives the first floor, the current
/// floor, and the floor where drawing ends.
pub open spec fn spec_floor_stack(current_floor: u8) -> (u8, u8, u8) {
    let start_z = if current_floor < 8 {
        GROUND_FLOOR
    } else if current_floor + 2 > MAP_MAX_Z {
        MAP_MAX_Z
    } else {
        (current_floor + 2) as u8
    };
    let superend_z: u8 = if current_floor > GROUND_FLOOR {
        8
    } else {
        0
    };
    (start_z, current_floor, superend_z)
}

pub fn compute_floor_stack(current_floor: u8) -> (r: (u8, u8, u8))
    requires
        current_floor <= 253,
    ensures
        r == spec_floor_stack(current_floor),
{
    let ground = GROUND_FLOOR;
    let max_z = MAP_MAX_Z;
    let start_z = if current_floor < 8 {
        ground
    } else if current_floor + 2 > max_z {
        max_z
    } else {
        current_floor + 2
    };
    let superend_z = if current_floor > ground {
        8
    } else {
        0
    };
    (start_z, current_floor, superend_z)
}

/// The floors brought up to date before drawing `floor`: from the first
/// floor of its stack down to the floor where drawing ends.
pub open spec fn spec_floors_to_sync(floor: u8) -> Seq<u8> {
    let (start, _, end) = spec_floor_stack(floor);
    Seq::new((start - end + 1) as nat, |i: int| (start - i) as u8)
}

pub fn floors_to_sync(floor: u8) -> (v: Vec<u8>)
    requires
        floor <= MAP_MAX_Z,
    ensures
        v@ == spec_floors_to_sync(floor),
{
    let (start_z, _, superend_z) = compute_floor_stack(floor);
    let mut v: Vec<u8> = Vec::new();
    let mut z = start_z;
    while z >= superend_z
        invariant
            superend_z <= start_z <= MAP_MAX_Z,
            z <= start_z,
            (start_z, floor, superend_z) == spec_floor_stack(floor),
            z + 1 >= superend_z,
            v@ == Seq::new((start_z - z) as nat, |i: int| (start_z - i) as u8),
        decreases z + 1,
    {
        v.push(z);
        assert(v@ =~= Seq::new((start_z - z + 1) as nat, |i: int| (start_z - i) as u8));
        if z == 0 {
            return v;
        }
        z -= 1;
    }
    v
}

/// The floors composed into the picture of `floor`, in drawing order (from
/// the first floor of its stack down to `floor`), each with its diagonal
/// shift in pixels: 32 per floor above the reference floor, which is the
/// ground floor for floors at or above it, else `floor` itself.
pub open spec fn spec_floor_layers(floor: u8) -> Seq<(u8, i32)> {
    let start = spec_floor_stack(floor).0;
    Seq::new(
        (start - floor + 1) as nat,
        |i: int| {
            let z = start - i;
            let reference = if z <= GROUND_FLOOR { GROUND_FLOOR as int } else { floor as int };
            (z as u8, ((reference - z) * 32) as i32)
        },
    )
}

pub fn floor_layers(floor: u8) -> (v: Vec<(u8, i32)>)
    requires
        floor <= MAP_MAX_Z,
    ensures
        v@ == spec_floor_layers(floor),
{
    let (start_z, end_z, _) = compute_floor_stack(floor);
    let mut v: Vec<(u8, i32)> = Vec::new();
    let mut z = start_z as i32;
    while z >= end_z as i32
        invariant
            end_z == floor,
            start_z == spec_floor_stack(floor).0,
            end_z <= start_z <= MAP_MAX_Z,
            end_z - 1 <= z <= start_z,
            v@ == Seq::new(
                (start_z - z) as nat,
                |i: int| {
                    let zz = start_z - i;
                    let reference = if zz <= GROUND_FLOOR { GROUND_FLOOR as int } else { floor as int };
                    (zz as u8, ((reference - zz) * 32) as i32)
                },
            ),
        decreases z + 1,
    {
        let ground_z = GROUND_FLOOR as i32;
        let reference_z = if z <= ground_z {
            ground_z
        } else {
            end_z as i32
        };
        let shift = (reference_z - z) * 32;
        v.push((z as u8, shift));
        assert(v@ =~= Seq::new(
            (start_z - z + 1) as nat,
            |i: int| {
                let zz = start_z - i;
                let reference = if zz <= GROUND_FLOOR { GROUND_FLOOR as int } else { floor as int };
                (zz as u8, ((reference - zz) * 32) as i32)
            },
        ));
        z -= 1;
    }
    v
}

/// A tile of floor `floor` that has ground.
pub open spec fn grounded(map: &SpatialMap, floor: u8, p: Position) -> bool {
    p.z == floor && map.tile_at(p).ground is Some
}

/// `(min_x, min_y, max_x, max_y)` bound every grounded tile of `floor`, and
/// each is reached by one.
pub open spec fn is_ground_bounds(map: &SpatialMap, floor: u8, b: (u16, u16, u16, u16)) -> bool {
    &&& forall|p: Position| #[trigger] grounded(map, floor, p) ==> b.0 <= p.x <= b.2 && b.1 <= p.y <= b.3
    &&& exists|p: Position| #[trigger] grounded(map, floor, p) && p.x == b.0
    &&& exists|p: Position| #[trigger] grounded(map, floor, p) && p.y == b.1
    &&& exists|p: Position| #[trigger] grounded(map, floor, p) && p.x == b.2
    &&& exists|p: Position| #[trigger] grounded(map, floor, p) && p.y == b.3
}

/// The bounding box of the tiles of `floor` that have ground, to frame the
/// camera; `None` when there is none.
pub fn compute_map_bounds(map: &SpatialMap, floor: u8) -> (r: Option<(u16, u16, u16, u16)>)
    requires
        map.wf(),
    ensures
        r is None <==> !exists|p: Position| #[trigger] grounded(map, floor, p),
        r matches Some(b) ==> is_ground_bounds(map, floor, b),
{
    let mut min_x = u16::MAX;
    let mut min_y = u16::MAX;
    let mut max_x = u16::MIN;
    let mut max_y = u16::MIN;
    let mut found = false;
    let ghost mut w0 = Position { x: 0, y: 0, z: 0 };
    let ghost mut w1 = w0;
    let ghost mut w2 = w0;
    let ghost mut w3 = w0;
    let coords = map.chunk_coords();
    let mut ci: usize = 0;
    while ci < coords.len()
        invariant
            map.wf(),
            ci <= coords@.len(),
            forall|c: ChunkCoord| #[trigger] coords@.contains(c) <==> map.chunk_map().contains_key(c.key()),
            forall|i: int| 0 <= i < coords@.len() ==> chunk_in_range(#[trigger] coords@[i]),
            forall|p: Position| #[trigger] grounded(map, floor, p) && coords@.take(ci as int).contains(chunk_of(p))
                ==> found && min_x <= p.x <= max_x && min_y <= p.y <= max_y,
            !found ==> min_x == u16::MAX && min_y == u16::MAX && max_x == 0 && max_y == 0,
            found ==> grounded(map, floor, w0) && w0.x == min_x && grounded(map, floor, w1) && w1.y == min_y
                && grounded(map, floor, w2) && w2.x == max_x && grounded(map, floor, w3) && w3.y == max_y,
        decreases coords@.len() - ci,
    {
        let coord = coords[ci];
        let ghost prefix = coords@.take(ci as int);
        assert(coords@.take(ci + 1) =~= prefix.push(coord));
        if coord.z == floor {
            let mut local_idx: usize = 0;
            while local_idx < 1024
                invariant
                    map.wf(),
                    local_idx <= 1024,
                    chunk_in_range(coord),
                    coord.z == floor,
                    forall|p: Position| #[trigger] grounded(map, floor, p) && prefix.contains(chunk_of(p))
                        ==> found && min_x <= p.x <= max_x && min_y <= p.y <= max_y,
                    forall|p: Position| #[trigger] grounded(map, floor, p) && chunk_of(p) == coord
                        && local_index_of(p) < local_idx ==> found && min_x <= p.x <= max_x && min_y <= p.y
                        <= max_y,
                    !found ==> min_x == u16::MAX && min_y == u16::MAX && max_x == 0 && max_y == 0,
            found ==> grounded(map, floor, w0) && w0.x == min_x && grounded(map, floor, w1) && w1.y
                        == min_y && grounded(map, floor, w2) && w2.x == max_x && grounded(map, floor, w3) && w3.y
                        == max_y,
                decreases 1024 - local_idx,
            {
                let lx = (local_idx % CHUNK_SIZE as usize) as u16;
                let ly = (local_idx / CHUNK_SIZE as usize) as u16;
                proof {
                    lemma_chunk_position(coord, local_idx as int);
                }
                let pos = Position { x: coord.cx as u16 * CHUNK_SIZE + lx, y: coord.cy as u16 * CHUNK_SIZE + ly, z: coord.z };
                assert(pos == chunk_position(coord, local_idx as int));
                if let Some(tile) = map.get_tile(pos) {
                    if tile.ground.is_some() {
                        found = true;
                        if pos.x <= min_x {
                            min_x = pos.x;
                            proof { w0 = pos; }
                        }
                        if pos.y <= min_y {
                            min_y = pos.y;
                            proof { w1 = pos; }
                        }
                        if pos.x >= max_x {
                            max_x = pos.x;
                            proof { w2 = pos; }
                        }
                        if pos.y >= max_y {
                            max_y = pos.y;
                            proof { w3 = pos; }
                        }
                    }
                }
                proof {
                    assert forall|p: Position| #[trigger] grounded(map, floor, p) && chunk_of(p) == coord
                        && local_index_of(p) < local_idx + 1 implies found && min_x <= p.x <= max_x && min_y
                        <= p.y <= max_y by {
                        if local_index_of(p) == local_idx {
                            lemma_chunk_index_identifies(p, pos);
                        }
                    }
                }
                local_idx += 1;
            }
            proof {
                assert forall|p: Position| #[trigger] grounded(map, floor, p) && prefix.push(coord).contains(
                    chunk_of(p),
                ) implies found && min_x <= p.x <= max_x && min_y <= p.y <= max_y by {
                    if !prefix.contains(chunk_of(p)) {
                        let j = choose|j: int| 0 <= j < prefix.len() + 1 && prefix.push(coord)[j] == chunk_of(p);
                        if j < prefix.len() {
                            assert(prefix[j] == chunk_of(p));
                        }
                        assert(chunk_of(p) == coord);
                        assert(0 <= local_index_of(p) < 1024);
                    }
                }
            }
        } else {
            proof {
                assert forall|p: Position| #[trigger] grounded(map, floor, p) && prefix.push(coord).contains(
                    chunk_of(p),
                ) implies found && min_x <= p.x <= max_x && min_y <= p.y <= max_y by {
                    if !prefix.contains(chunk_of(p)) {
                        let j = choose|j: int| 0 <= j < prefix.len() + 1 && prefix.push(coord)[j] == chunk_of(p);
                        if j < prefix.len() {
                            assert(prefix[j] == chunk_of(p));
                        }
                    }
                }
            }
        }
        ci += 1;
    }
    proof {
        assert(coords@.take(coords@.len() as int) =~= coords@);
        assert forall|p: Position| #[trigger] grounded(map, floor, p) implies coords@.contains(chunk_of(p)) by {
            if !map.chunk_map().contains_key(chunk_of(p).key()) {
                assert(map.tile_at(p).ground is None);
            }
        }
    }
    if found {
        Some((min_x, min_y, max_x, max_y))
    } else {
        None
    }
}

} // verus!
