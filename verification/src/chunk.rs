//! One floor of a 32x32 chunk, allocated only once a tile in it is edited.

use vstd::prelude::*;
use crate::item::{Tile, TileView, empty_tile_view};

verus! {

/// The number of tiles in a chunk.
pub const CHUNK_TILES: usize = 1024;

pub struct Chunk {
    /// The tiles, row by row (`CHUNK_TILES` of them).
    pub tiles: Vec<Tile>,
    /// Set when a tile may have changed, so that the chunk is drawn anew.
    pub dirty: bool,
}

impl Chunk {
    /// A chunk holds exactly `CHUNK_TILES` tiles.
    pub open spec fn wf(&self) -> bool {
        self.tiles@.len() == CHUNK_TILES
    }

    /// The tiles of the chunk, row by row.
    pub open spec fn tile_views(&self) -> Seq<TileView> {
        self.tiles@.map_values(|t: Tile| t@)
    }

    /// A chunk as it is created: well formed, every tile empty, to be drawn.
    pub open spec fn is_fresh(&self) -> bool {
        &&& self.wf()
        &&& self.dirty
        &&& self.tile_views().len() == CHUNK_TILES
        &&& forall|i: int| 0 <= i < CHUNK_TILES ==> #[trigger] self.tile_views()[i] == empty_tile_view()
    }

    pub fn new_empty() -> (c: Self)
        ensures
            c.is_fresh(),
    {
        let mut tiles: Vec<Tile> = Vec::new();
        let mut i: usize = 0;
        while i < CHUNK_TILES
            invariant
                i <= CHUNK_TILES,
                tiles@.len() == i,
                forall|k: int| 0 <= k < i ==> #[trigger] tiles@[k]@ == empty_tile_view(),
            decreases CHUNK_TILES - i,
        {
            tiles.push(Tile::default());
            i += 1;
        }
        Chunk { tiles, dirty: true }
    }

    /// The tile at `local_index`.
    pub fn tile(&self, local_index: usize) -> (t: &Tile)
        requires
            self.wf(),
            local_index < CHUNK_TILES,
        ensures
            t@ == self.tile_views()[local_index as int],
    {
        &self.tiles[local_index]
    }

    /// The tile at `local_index`, to be changed; the chunk is marked dirty.
    pub fn tile_mut(&mut self, local_index: usize) -> (t: &mut Tile)
        requires
            old(self).wf(),
            local_index < CHUNK_TILES,
        ensures
            final(self).wf(),
            final(self).dirty,
            (*t)@ == old(self).tile_views()[local_index as int],
            final(self).tile_views() == old(self).tile_views().update(local_index as int, (*final(t))@),
    {
        self.dirty = true;
        &mut self.tiles[local_index]
    }

    /// Whether every tile of the chunk is empty.
    pub fn all_empty(&self) -> (b: bool)
        requires
            self.wf(),
        ensures
            b == (forall|i: int| 0 <= i < CHUNK_TILES ==> #[trigger] self.tile_views()[i] == empty_tile_view()),
    {
        let mut i: usize = 0;
        while i < CHUNK_TILES
            invariant
                i <= CHUNK_TILES,
                self.wf(),
                forall|k: int| 0 <= k < i ==> #[trigger] self.tile_views()[k] == empty_tile_view(),
            decreases CHUNK_TILES - i,
        {
            if !self.tiles[i].is_empty() {
                assert(self.tile_views()[i as int] != empty_tile_view());
                return false;
            }
            i += 1;
        }
        true
    }
}

} // verus!
