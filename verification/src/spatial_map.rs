//! The whole map: chunks by coordinate, created on first edit. A position
//! whose chunk does not exist holds the empty tile.

use vstd::prelude::*;
use ahash::AHashMap;
use crate::chunk::{CHUNK_TILES, Chunk};
use crate::item::{Tile, TileView, empty_tile_view};
use crate::position::{ChunkCoord, Position, chunk_in_range, chunk_of, lemma_chunk_index_identifies, local_index_of};

verus! {

#[verifier::external_type_specification]
#[verifier::external_body]
#[verifier::reject_recursive_types(K)]
#[verifier::reject_recursive_types(V)]
#[verifier::reject_recursive_types(S)]
pub struct ExAHashMap<K, V, S>(AHashMap<K, V, S>);

#[verifier::external_type_specification]
#[verifier::external_body]
pub struct ExAHashRandomState(ahash::RandomState);

/// A chunk coordinate as a tuple: `(cx, cy, z)`.
pub type ChunkKey = (i32, i32, u8);

/// The chunks, by coordinate.
pub type ChunkTable = AHashMap<ChunkKey, Chunk>;

/// The chunks a table holds, by chunk coordinate.
pub uninterp spec fn chunk_table(m: ChunkTable) -> Map<ChunkKey, Chunk>;

/// No chunk at all.
pub open spec fn no_chunks() -> Map<ChunkKey, Chunk> {
    Map::empty()
}

/// `AHashMap::new`: an empty table.
#[verifier::external_body]
fn table_new() -> (table: ChunkTable)
    ensures
        chunk_table(table) == no_chunks(),
{
    AHashMap::new()
}

/// `AHashMap::get`: the chunk under `k`, if there is one.
#[verifier::external_body]
fn table_get(m: &ChunkTable, k: ChunkKey) -> (r: Option<&Chunk>)
    ensures
        match r {
            Some(c) => chunk_table(*m).contains_key(k) && *c == chunk_table(*m)[k],
            None => !chunk_table(*m).contains_key(k),
        },
{
    m.get(&k)
}

/// `HashMap::entry(k).or_insert_with(Chunk::new_empty)` (through the
/// table's `DerefMut`): the chunk under `k`, created by `Chunk::new_empty`
/// when there is none; what it becomes is stored under `k`.
#[verifier::external_body]
fn table_entry(m: &mut ChunkTable, k: ChunkKey) -> (r: &mut Chunk)
    ensures
        chunk_table(*old(m)).contains_key(k) ==> *r == chunk_table(*old(m))[k],
        !chunk_table(*old(m)).contains_key(k) ==> r.is_fresh(),
        chunk_table(*final(m)) == chunk_table(*old(m)).insert(k, *final(r)),
{
    m.entry(k).or_insert_with(Chunk::new_empty)
}

/// `AHashMap::remove`: the table without `k`.
#[verifier::external_body]
fn table_remove(m: &mut ChunkTable, k: ChunkKey)
    ensures
        chunk_table(*final(m)) == chunk_table(*old(m)).remove(k),
{
    m.remove(&k);
}

/// `HashMap::keys` (through `Deref`), collected: every key once, in the
/// table's own order.
#[verifier::external_body]
fn table_keys(m: &ChunkTable) -> (v: Vec<ChunkKey>)
    ensures
        v@.to_set() == chunk_table(*m).dom(),
        v@.no_duplicates(),
{
    m.keys().copied().collect()
}

/// The tile at `p` in a map of chunks: the chunk's tile when its chunk
/// exists, else the empty tile.
pub open spec fn tile_in(m: Map<ChunkKey, Chunk>, p: Position) -> TileView {
    let k = chunk_of(p).key();
    if m.contains_key(k) {
        m[k].tile_views()[local_index_of(p)]
    } else {
        empty_tile_view()
    }
}

/// The tile at every position of a map of chunks.
pub open spec fn tiles_of(m: Map<ChunkKey, Chunk>) -> Map<Position, TileView> {
    Map::new(|p: Position| true, |p: Position| tile_in(m, p))
}

/// Replacing the chunk of `pos` by one that differs from it (or, when there
/// was none, from a fresh chunk) only in the tile at `pos` changes the map
/// at `pos` only.
proof fn lemma_replace_tile(m: Map<ChunkKey, Chunk>, pos: Position, oc: Chunk)
    requires
        oc.wf(),
        m.contains_key(chunk_of(pos).key()) ==> oc == m[chunk_of(pos).key()],
        !m.contains_key(chunk_of(pos).key()) ==> oc.is_fresh(),
    ensures
        forall|c2: Chunk, tv: TileView|
            #![trigger tiles_of(m.insert(chunk_of(pos).key(), c2)), oc.tile_views().update(local_index_of(pos), tv)]
            c2.wf() && c2.tile_views() == oc.tile_views().update(local_index_of(pos), tv) ==> tiles_of(
                m.insert(chunk_of(pos).key(), c2),
            ) == tiles_of(m).insert(pos, tv),
{
    let k = chunk_of(pos).key();
    assert forall|c2: Chunk, tv: TileView|
        #![trigger tiles_of(m.insert(k, c2)), oc.tile_views().update(local_index_of(pos), tv)]
        c2.wf() && c2.tile_views() == oc.tile_views().update(local_index_of(pos), tv) implies tiles_of(
            m.insert(k, c2),
        ) == tiles_of(m).insert(pos, tv) by {
        let m2 = m.insert(k, c2);
        assert forall|q: Position| #[trigger] tile_in(m2, q) == (if q == pos { tv } else { tile_in(m, q) }) by {
            if chunk_of(q).key() == k {
                assert(0 <= local_index_of(q) < CHUNK_TILES);
                if local_index_of(q) == local_index_of(pos) {
                    lemma_chunk_index_identifies(q, pos);
                }
            }
        }
        assert(tiles_of(m2) =~= tiles_of(m).insert(pos, tv));
    }
}

/// The whole map. Empty chunks need not exist: a position outside every
/// chunk holds the empty tile.
pub struct SpatialMap {
    chunks: ChunkTable,
}

impl SpatialMap {
    /// Every chunk holds its tiles, and lies where positions fall.
    pub closed spec fn wf(&self) -> bool {
        forall|k: ChunkKey| #[trigger]
            chunk_table(self.chunks).contains_key(k) ==> chunk_table(self.chunks)[k].wf()
                && chunk_in_range(ChunkCoord { cx: k.0, cy: k.1, z: k.2 })
    }

    /// The chunks, by coordinate.
    pub closed spec fn chunk_map(&self) -> Map<ChunkKey, Chunk> {
        chunk_table(self.chunks)
    }

    /// The tile at `p`.
    pub open spec fn tile_at(&self, p: Position) -> TileView {
        tile_in(self.chunk_map(), p)
    }

    /// The map as a whole: the tile at every position.
    pub open spec fn tiles(&self) -> Map<Position, TileView> {
        tiles_of(self.chunk_map())
    }

    /// The map where every position holds the empty tile.
    pub open spec fn new_tiles() -> Map<Position, TileView> {
        Map::new(|p: Position| true, |p: Position| empty_tile_view())
    }

    /// The map holds a tile at every position.
    pub proof fn lemma_tiles_total(&self)
        ensures
            forall|q: Position| #[trigger] self.tiles().dom().contains(q),
    {
    }

    /// Every chunk that exists lies where positions fall.
    pub proof fn lemma_chunk_in_range(&self, c: ChunkCoord)
        requires
            self.wf(),
            self.chunk_map().contains_key(c.key()),
        ensures
            chunk_in_range(c),
    {
        assert(ChunkCoord { cx: c.key().0, cy: c.key().1, z: c.key().2 } == c);
    }

    pub fn new() -> (m: Self)
        ensures
            m.wf(),
            m.tiles() == Self::new_tiles(),
    {
        let m = SpatialMap { chunks: table_new() };
        assert(m.tiles() =~= Self::new_tiles());
        m
    }

    /// The tile at `pos`, if its chunk exists.
    pub fn get_tile(&self, pos: Position) -> (r: Option<&Tile>)
        requires
            self.wf(),
        ensures
            match r {
                Some(t) => t@ == self.tile_at(pos),
                None => self.tile_at(pos) == empty_tile_view(),
            },
    {
        let k = pos.chunk_coord().as_key();
        match table_get(&self.chunks, k) {
            Some(c) => Some(c.tile(pos.local_index())),
            None => None,
        }
    }

    /// The tile at `pos`, to be changed; its chunk is created when it does
    /// not exist yet. Whatever the tile becomes is what the map holds at
    /// `pos`, and nothing else changes.
    pub fn get_tile_mut(&mut self, pos: Position) -> (t: &mut Tile)
        requires
            old(self).wf(),
        ensures
            final(self).wf(),
            (*t)@ == old(self).tile_at(pos),
            final(self).tiles() == old(self).tiles().insert(pos, (*final(t))@),
    {
        let k = pos.chunk_coord().as_key();
        let idx = pos.local_index();
        let ghost old_map = self.chunk_map();
        let chunk = table_entry(&mut self.chunks, k);
        proof {
            lemma_replace_tile(old_map, pos, *chunk);
        }
        let t = chunk.tile_mut(idx);
        t
    }

    /// Frees the chunk at `coord` when all its tiles are empty; the map, as
    /// a whole, stays the same.
    pub fn compact_chunk_if_empty(&mut self, coord: ChunkCoord)
        requires
            old(self).wf(),
        ensures
            final(self).wf(),
            final(self).tiles() == old(self).tiles(),
            final(self).chunk_map() == (if old(self).chunk_map().contains_key(coord.key()) && (forall|i: int|
                0 <= i < CHUNK_TILES ==> #[trigger] old(self).chunk_map()[coord.key()].tile_views()[i]
                    == empty_tile_view()) {
                old(self).chunk_map().remove(coord.key())
            } else {
                old(self).chunk_map()
            }),
    {
        let k = coord.as_key();
        let empty = match table_get(&self.chunks, k) {
            Some(chunk) => chunk.all_empty(),
            None => false,
        };
        if empty {
            let ghost old_map = self.chunk_map();
            table_remove(&mut self.chunks, k);
            proof {
                assert forall|q: Position| #[trigger] self.tile_at(q) == old(self).tile_at(q) by {
                    if chunk_of(q).key() == k {
                        assert(0 <= local_index_of(q) < CHUNK_TILES);
                    }
                }
            }
            assert(self.tiles() =~= old(self).tiles());
        }
    }

    /// The coordinates of the chunks to be drawn anew, each once, in no
    /// particular order.
    pub fn dirty_chunks(&self) -> (v: Vec<ChunkCoord>)
        requires
            self.wf(),
        ensures
            v@.no_duplicates(),
            forall|c: ChunkCoord| #[trigger] v@.contains(c) <==> (self.chunk_map().contains_key(c.key())
                && self.chunk_map()[c.key()].dirty),
    {
        let keys = table_keys(&self.chunks);
        let mut out: Vec<ChunkCoord> = Vec::new();
        let mut i: usize = 0;
        while i < keys.len()
            invariant
                i <= keys@.len(),
                keys@.to_set() == self.chunk_map().dom(),
                keys@.no_duplicates(),
                out@.no_duplicates(),
                forall|c: ChunkCoord| #[trigger] out@.contains(c) <==> (keys@.take(i as int).contains(c.key())
                    && self.chunk_map().contains_key(c.key()) && self.chunk_map()[c.key()].dirty),
            decreases keys@.len() - i,
        {
            let k = keys[i];
            let ghost prefix = keys@.take(i as int);
            assert(keys@.take(i + 1) =~= prefix.push(k));
            assert(!prefix.contains(k)) by {
                if prefix.contains(k) {
                    let j = choose|j: int| 0 <= j < prefix.len() && prefix[j] == k;
                    assert(keys@[j] == keys@[i as int]);
                }
            }
            assert forall|y: ChunkKey| #[trigger] prefix.push(k).contains(y) <==> (prefix.contains(y) || y == k) by {
                if prefix.push(k).contains(y) {
                    let j = choose|j: int| 0 <= j < prefix.len() + 1 && prefix.push(k)[j] == y;
                    if j < prefix.len() {
                        assert(prefix[j] == y);
                    }
                }
                if prefix.contains(y) {
                    let j = choose|j: int| 0 <= j < prefix.len() && prefix[j] == y;
                    assert(prefix.push(k)[j] == y);
                }
                if y == k {
                    assert(prefix.push(k)[prefix.len() as int] == y);
                }
            }
            let ghost before = out@;
            match table_get(&self.chunks, k) {
                Some(chunk) => {
                    if chunk.dirty {
                        let c = ChunkCoord { cx: k.0, cy: k.1, z: k.2 };
                        assert(!before.contains(c));
                        out.push(c);
                        assert forall|c2: ChunkCoord| #[trigger] out@.contains(c2) <==> (before.contains(c2) || c2 == c) by {
                            if out@.contains(c2) {
                                let j = choose|j: int| 0 <= j < out@.len() && out@[j] == c2;
                                if j < before.len() {
                                    assert(before[j] == c2);
                                }
                            }
                            if before.contains(c2) {
                                let j = choose|j: int| 0 <= j < before.len() && before[j] == c2;
                                assert(out@[j] == c2);
                            }
                            if c2 == c {
                                assert(out@[before.len() as int] == c2);
                            }
                        }
                        assert(out@.no_duplicates()) by {
                            assert forall|a: int, b: int| 0 <= a < out@.len() && 0 <= b < out@.len() && a != b implies out@[a] != out@[b] by {
                                if a == before.len() as int {
                                    assert(before.contains(out@[b]));
                                } else if b == before.len() as int {
                                    assert(before.contains(out@[a]));
                                }
                            }
                        }
                    }
                },
                None => {},
            }
            i += 1;
        }
        assert(keys@.take(keys@.len() as int) =~= keys@);
        proof {
            assert forall|c: ChunkCoord| self.chunk_map().contains_key(c.key()) implies keys@.contains(c.key()) by {
                assert(keys@.to_set().contains(c.key()));
            }
        }
        out
    }

    /// The coordinates of the chunks that exist, each once, in no
    /// particular order.
    pub fn chunk_coords(&self) -> (v: Vec<ChunkCoord>)
        requires
            self.wf(),
        ensures
            v@.no_duplicates(),
            forall|c: ChunkCoord| #[trigger] v@.contains(c) <==> self.chunk_map().contains_key(c.key()),
            forall|i: int| 0 <= i < v@.len() ==> chunk_in_range(#[trigger] v@[i]),
    {
        let keys = table_keys(&self.chunks);
        let mut out: Vec<ChunkCoord> = Vec::new();
        let mut i: usize = 0;
        while i < keys.len()
            invariant
                i <= keys@.len(),
                keys@.to_set() == self.chunk_map().dom(),
                out@.len() == i,
                forall|j: int| 0 <= j < i ==> (#[trigger] out@[j]).key() == keys@[j],
            decreases keys@.len() - i,
        {
            let k = keys[i];
            out.push(ChunkCoord { cx: k.0, cy: k.1, z: k.2 });
            i += 1;
        }
        proof {
            assert forall|a: int, b: int| 0 <= a < out@.len() && 0 <= b < out@.len() && a != b implies out@[a]
                != out@[b] by {
                assert(out@[a].key() == keys@[a] && out@[b].key() == keys@[b]);
            }
            assert forall|c: ChunkCoord| #[trigger] out@.contains(c) <==> self.chunk_map().contains_key(c.key()) by {
                if out@.contains(c) {
                    let j = choose|j: int| 0 <= j < out@.len() && out@[j] == c;
                    assert(keys@[j] == c.key());
                    assert(keys@.to_set().contains(c.key()));
                }
                if self.chunk_map().contains_key(c.key()) {
                    assert(keys@.to_set().contains(c.key()));
                    let j = choose|j: int| 0 <= j < keys@.len() && keys@[j] == c.key();
                    assert(out@[j].key() == c.key());
                    assert(out@[j] == c);
                }
            }
            assert forall|j: int| 0 <= j < out@.len() implies chunk_in_range(#[trigger] out@[j]) by {
                let k = keys@[j];
                assert(keys@.to_set().contains(k));
                assert(out@[j] == ChunkCoord { cx: k.0, cy: k.1, z: k.2 });
            }
        }
        out
    }

    /// Marks the chunk at `coord`, if it exists, as drawn.
    pub fn clear_dirty(&mut self, coord: &ChunkCoord)
        requires
            old(self).wf(),
        ensures
            final(self).wf(),
            final(self).tiles() == old(self).tiles(),
            final(self).chunk_map().dom() == old(self).chunk_map().dom(),
            final(self).chunk_map().contains_key(coord.key()) ==> !final(self).chunk_map()[coord.key()].dirty,
            forall|k: ChunkKey| #[trigger]
                final(self).chunk_map().contains_key(k) && k != coord.key() ==> final(self).chunk_map()[k].dirty
                    == old(self).chunk_map()[k].dirty,
    {
        let k = coord.as_key();
        if table_get(&self.chunks, k).is_some() {
            let chunk = table_entry(&mut self.chunks, k);
            chunk.dirty = false;
            assert(self.chunk_map().dom() =~= old(self).chunk_map().dom());
            assert(self.tiles() =~= old(self).tiles());
        }
    }
}

impl Default for SpatialMap {
    fn default() -> (m: Self)
        ensures
            m.wf(),
            m.tiles() == Self::new_tiles(),
    {
        SpatialMap::new()
    }
}

} // verus!
