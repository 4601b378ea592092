//! What the renderer draws of a chunk, and in which order: every ground of
//! the chunk first, then the stacks one level at a time (every first item,
//! then every second item, ...), so that no ground is drawn over an item
//! of a neighbouring tile. Each list follows the chunk's tiles row by row;
//! a stack keeps its order from the bottom up.

use vstd::prelude::*;
use crate::item::TileView;
use crate::position::{ChunkCoord, Position, chunk_in_range, chunk_position, lemma_chunk_position};
use crate::spatial_map::{ChunkKey, SpatialMap};

verus! {

/// The tiles of a chunk.
pub const CHUNK_TILE_COUNT: usize = 1024;

/// An item to draw: where, and of which type.
pub type DrawItem = (Position, u16);

/// The draw lists of one chunk.
pub struct ChunkDrawLists {
    pub grounds: Vec<DrawItem>,
    /// The items at each height of the stacks.
    pub item_layers: Vec<Vec<DrawItem>>,
}

/// The tile at index `i` of chunk `c`.
pub open spec fn tile_of(tiles: Map<Position, TileView>, c: ChunkCoord, i: int) -> TileView {
    tiles[chunk_position(c, i)]
}

/// The grounds of the first `n` tiles of chunk `c`.
pub open spec fn grounds_upto(tiles: Map<Position, TileView>, c: ChunkCoord, n: int) -> Seq<DrawItem>
    decreases n,
{
    if n <= 0 {
        Seq::empty()
    } else {
        let rest = grounds_upto(tiles, c, n - 1);
        match tile_of(tiles, c, n - 1).ground {
            Some(g) => rest.push((chunk_position(c, n - 1), g.type_id)),
            None => rest,
        }
    }
}

/// The items at height `k` of the stacks of the first `n` tiles of chunk
/// `c`.
pub open spec fn layer_upto(tiles: Map<Position, TileView>, c: ChunkCoord, k: int, n: int) -> Seq<DrawItem>
    decreases n,
{
    if n <= 0 {
        Seq::empty()
    } else {
        let rest = layer_upto(tiles, c, k, n - 1);
        let t = tile_of(tiles, c, n - 1);
        if k < t.items.len() {
            rest.push((chunk_position(c, n - 1), t.items[k].type_id))
        } else {
            rest
        }
    }
}

/// The highest stack among the first `n` tiles of chunk `c`.
pub open spec fn height_upto(tiles: Map<Position, TileView>, c: ChunkCoord, n: int) -> nat
    decreases n,
{
    if n <= 0 {
        0
    } else {
        let rest = height_upto(tiles, c, n - 1);
        let h = tile_of(tiles, c, n - 1).items.len();
        if h > rest {
            h
        } else {
            rest
        }
    }
}

/// The draw lists of chunk `c` are those of its tiles.
pub open spec fn draw_lists_of(tiles: Map<Position, TileView>, c: ChunkCoord, d: &ChunkDrawLists) -> bool {
    &&& d.grounds@ == grounds_upto(tiles, c, 1024)
    &&& d.item_layers@.len() == height_upto(tiles, c, 1024)
    &&& forall|k: int| 0 <= k < d.item_layers@.len() ==> #[trigger] d.item_layers@[k]@ == layer_upto(tiles, c, k, 1024)
}

/// The items at height `k` of the stacks of chunk `coord`.
fn layer_of(map: &SpatialMap, coord: ChunkCoord, k: usize) -> (v: Vec<DrawItem>)
    requires
        map.wf(),
        chunk_in_range(coord),
    ensures
        v@ == layer_upto(map.tiles(), coord, k as int, 1024),
{
    let mut v: Vec<DrawItem> = Vec::new();
    let mut i: usize = 0;
    while i < CHUNK_TILE_COUNT
        invariant
            map.wf(),
            chunk_in_range(coord),
            i <= 1024,
            v@ == layer_upto(map.tiles(), coord, k as int, i as int),
        decreases 1024 - i,
    {
        proof {
            lemma_chunk_position(coord, i as int);
        }
        let pos = Position {
            x: coord.cx as u16 * 32 + (i % 32) as u16,
            y: coord.cy as u16 * 32 + (i / 32) as u16,
            z: coord.z,
        };
        assert(pos == chunk_position(coord, i as int));
        if let Some(tile) = map.get_tile(pos) {
            if k < tile.item_count() {
                v.push((pos, tile.item_at(k).type_id));
            }
        }
        i += 1;
    }
    v
}

/// The draw lists of chunk `coord`, from its tiles in `map`.
pub fn chunk_draw_lists(map: &SpatialMap, coord: ChunkCoord) -> (d: ChunkDrawLists)
    requires
        map.wf(),
        chunk_in_range(coord),
    ensures
        draw_lists_of(map.tiles(), coord, &d),
{
    let mut grounds: Vec<DrawItem> = Vec::new();
    let mut height: usize = 0;
    let mut i: usize = 0;
    while i < CHUNK_TILE_COUNT
        invariant
            map.wf(),
            chunk_in_range(coord),
            i <= 1024,
            grounds@ == grounds_upto(map.tiles(), coord, i as int),
            height == height_upto(map.tiles(), coord, i as int),
        decreases 1024 - i,
    {
        proof {
            lemma_chunk_position(coord, i as int);
        }
        let pos = Position {
            x: coord.cx as u16 * 32 + (i % 32) as u16,
            y: coord.cy as u16 * 32 + (i / 32) as u16,
            z: coord.z,
        };
        assert(pos == chunk_position(coord, i as int));
        if let Some(tile) = map.get_tile(pos) {
            if let Some(g) = &tile.ground {
                grounds.push((pos, g.type_id));
            }
            let h = tile.item_count();
            if h > height {
                height = h;
            }
        }
        i += 1;
    }
    let mut item_layers: Vec<Vec<DrawItem>> = Vec::new();
    let mut k: usize = 0;
    while k < height
        invariant
            map.wf(),
            chunk_in_range(coord),
            k <= height,
            height == height_upto(map.tiles(), coord, 1024),
            item_layers@.len() == k,
            forall|j: int| 0 <= j < k ==> #[trigger] item_layers@[j]@ == layer_upto(map.tiles(), coord, j, 1024),
        decreases height - k,
    {
        let layer = layer_of(map, coord, k);
        item_layers.push(layer);
        k += 1;
    }
    ChunkDrawLists { grounds, item_layers }
}

/// The chunks of a sync's result, in order.
pub open spec fn drawn_coords(r: Seq<(ChunkCoord, ChunkDrawLists)>) -> Seq<ChunkCoord> {
    r.map_values(|e: (ChunkCoord, ChunkDrawLists)| e.0)
}

proof fn lemma_push_contains<A>(s: Seq<A>, x: A)
    ensures
        forall|c: A| #[trigger] s.push(x).contains(c) <==> (s.contains(c) || c == x),
        s.no_duplicates() && !s.contains(x) ==> s.push(x).no_duplicates(),
{
    assert forall|c: A| #[trigger] s.push(x).contains(c) <==> (s.contains(c) || c == x) by {
        if s.push(x).contains(c) {
            let j = choose|j: int| 0 <= j < s.len() + 1 && s.push(x)[j] == c;
            if j < s.len() {
                assert(s[j] == c);
            }
        }
        if s.contains(c) {
            let j = choose|j: int| 0 <= j < s.len() && s[j] == c;
            assert(s.push(x)[j] == c);
        }
        if c == x {
            assert(s.push(x)[s.len() as int] == c);
        }
    }
    if s.no_duplicates() && !s.contains(x) {
        assert forall|a: int, b: int| 0 <= a < s.push(x).len() && 0 <= b < s.push(x).len() && a != b implies s.push(x)[a]
            != s.push(x)[b] by {
            if a == s.len() as int {
                assert(s.contains(s.push(x)[b]));
            } else if b == s.len() as int {
                assert(s.contains(s.push(x)[a]));
            }
        }
    }
}

/// Takes the chunks of floor `floor` that changed since they were last
/// drawn: gives each once with its draw lists, and marks it drawn. No tile
/// changes, and no other chunk.
pub fn sync_for_floor(map: &mut SpatialMap, floor: u8) -> (r: Vec<(ChunkCoord, ChunkDrawLists)>)
    requires
        old(map).wf(),
    ensures
        final(map).wf(),
        final(map).tiles() == old(map).tiles(),
        final(map).chunk_map().dom() == old(map).chunk_map().dom(),
        drawn_coords(r@).no_duplicates(),
        forall|c: ChunkCoord| #[trigger]
            drawn_coords(r@).contains(c) <==> (c.z == floor && old(map).chunk_map().contains_key(c.key())
                && old(map).chunk_map()[c.key()].dirty),
        forall|i: int| 0 <= i < r@.len() ==> draw_lists_of(old(map).tiles(), (#[trigger] r@[i]).0, &r@[i].1),
        forall|k: ChunkKey| #[trigger]
            final(map).chunk_map().contains_key(k) ==> final(map).chunk_map()[k].dirty == (old(map).chunk_map()[k].dirty
                && k.2 != floor),
{
    let dirty = map.dirty_chunks();
    let mut out: Vec<(ChunkCoord, ChunkDrawLists)> = Vec::new();
    let mut i: usize = 0;
    while i < dirty.len()
        invariant
            map.wf(),
            i <= dirty@.len(),
            dirty@.no_duplicates(),
            forall|c: ChunkCoord| #[trigger] dirty@.contains(c) <==> (old(map).chunk_map().contains_key(c.key())
                && old(map).chunk_map()[c.key()].dirty),
            map.tiles() == old(map).tiles(),
            map.chunk_map().dom() == old(map).chunk_map().dom(),
            drawn_coords(out@).no_duplicates(),
            forall|c: ChunkCoord| #[trigger]
                drawn_coords(out@).contains(c) <==> (c.z == floor && dirty@.take(i as int).contains(c)),
            forall|j: int| 0 <= j < out@.len() ==> draw_lists_of(old(map).tiles(), (#[trigger] out@[j]).0, &out@[j].1),
            forall|k: ChunkKey| #[trigger]
                map.chunk_map().contains_key(k) ==> map.chunk_map()[k].dirty == (old(map).chunk_map()[k].dirty
                    && !(k.2 == floor && dirty@.take(i as int).contains(ChunkCoord { cx: k.0, cy: k.1, z: k.2 }))),
        decreases dirty@.len() - i,
    {
        let coord = dirty[i];
        let ghost prefix = dirty@.take(i as int);
        assert(dirty@.take(i + 1) =~= prefix.push(coord));
        assert(!prefix.contains(coord)) by {
            if prefix.contains(coord) {
                let j = choose|j: int| 0 <= j < prefix.len() && prefix[j] == coord;
                assert(dirty@[j] == dirty@[i as int]);
            }
        }
        proof {
            lemma_push_contains(prefix, coord);
        }
        if coord.z == floor {
            assert(dirty@.contains(coord)) by {
                assert(dirty@[i as int] == coord);
            }
            proof {
                map.lemma_chunk_in_range(coord);
            }
            let lists = chunk_draw_lists(map, coord);
            let ghost before = map.chunk_map();
            map.clear_dirty(&coord);
            let ghost out_before = out@;
            out.push((coord, lists));
            proof {
                assert(drawn_coords(out@) =~= drawn_coords(out_before).push(coord));
                lemma_push_contains(drawn_coords(out_before), coord);
                assert forall|k: ChunkKey| #[trigger] map.chunk_map().contains_key(k) implies map.chunk_map()[k].dirty
                    == (old(map).chunk_map()[k].dirty && !(k.2 == floor && prefix.push(coord).contains(
                    ChunkCoord { cx: k.0, cy: k.1, z: k.2 }))) by {
                    let c = ChunkCoord { cx: k.0, cy: k.1, z: k.2 };
                    assert(c.key() == k);
                    if k != coord.key() {
                        assert(before.contains_key(k));
                        assert(c != coord);
                    }
                }
            }
        } else {
            proof {
                assert forall|k: ChunkKey| #[trigger] map.chunk_map().contains_key(k) implies map.chunk_map()[k].dirty
                    == (old(map).chunk_map()[k].dirty && !(k.2 == floor && prefix.push(coord).contains(
                    ChunkCoord { cx: k.0, cy: k.1, z: k.2 }))) by {
                    let c = ChunkCoord { cx: k.0, cy: k.1, z: k.2 };
                    if prefix.push(coord).contains(c) && !prefix.contains(c) {
                        assert(c == coord);
                    }
                }
            }
        }
        i += 1;
    }
    proof {
        assert(dirty@.take(dirty@.len() as int) =~= dirty@);
        assert forall|k: ChunkKey| #[trigger] map.chunk_map().contains_key(k) implies map.chunk_map()[k].dirty
            == (old(map).chunk_map()[k].dirty && k.2 != floor) by {
            let c = ChunkCoord { cx: k.0, cy: k.1, z: k.2 };
            assert(c.key() == k);
        }
    }
    out
}

} // verus!
