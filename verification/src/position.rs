//! World coordinates and the chunks they fall into.

use vstd::prelude::*;

verus! {

/// A world coordinate. Floor 7 is the ground floor (0..6 above it, 8..15
/// below).
#[derive(Copy, Clone, Debug, PartialEq, Eq, Structural, Hash, Default)]
pub struct Position {
    pub x: u16,
    pub y: u16,
    pub z: u8,
}

pub const MAP_MAX_Z: u8 = 15;

pub const GROUND_FLOOR: u8 = 7;

/// Tiles per side of a chunk, on each floor.
pub const CHUNK_SIZE: u16 = 32;

/// The coordinate of a chunk: a position divided by `CHUNK_SIZE`.
#[derive(Copy, Clone, Debug, PartialEq, Eq, Structural, Hash)]
pub struct ChunkCoord {
    pub cx: i32,
    pub cy: i32,
    pub z: u8,
}

impl ChunkCoord {
    /// The chunk coordinate as a tuple of integers.
    pub open spec fn key(self) -> (i32, i32, u8) {
        (self.cx, self.cy, self.z)
    }

    pub fn as_key(&self) -> (k: (i32, i32, u8))
        ensures
            k == self.key(),
    {
        (self.cx, self.cy, self.z)
    }
}

/// The chunk that holds `p`.
pub open spec fn chunk_of(p: Position) -> ChunkCoord {
    ChunkCoord { cx: (p.x / CHUNK_SIZE) as i32, cy: (p.y / CHUNK_SIZE) as i32, z: p.z }
}

/// The index of `p` inside its chunk, row by row.
pub open spec fn local_index_of(p: Position) -> int {
    (p.y % CHUNK_SIZE) * CHUNK_SIZE + (p.x % CHUNK_SIZE)
}

impl Position {
    pub fn chunk_coord(self) -> (c: ChunkCoord)
        ensures
            c == chunk_of(self),
    {
        ChunkCoord { cx: (self.x / CHUNK_SIZE) as i32, cy: (self.y / CHUNK_SIZE) as i32, z: self.z }
    }

    /// The index inside the chunk (below `CHUNK_SIZE * CHUNK_SIZE`).
    pub fn local_index(self) -> (i: usize)
        ensures
            i == local_index_of(self),
            i < CHUNK_SIZE * CHUNK_SIZE,
    {
        let lx = (self.x % CHUNK_SIZE) as usize;
        let ly = (self.y % CHUNK_SIZE) as usize;
        assert(lx < 32 && ly < 32);
        assert(ly * 32 + lx < 1024) by (nonlinear_arith)
            requires
                lx < 32,
                ly < 32,
        ;
        ly * CHUNK_SIZE as usize + lx
    }
}

/// Two positions with the same chunk and the same index inside it are the
/// same position.
pub proof fn lemma_chunk_index_identifies(p: Position, q: Position)
    requires
        chunk_of(p) == chunk_of(q),
        local_index_of(p) == local_index_of(q),
    ensures
        p == q,
{
    let (px, py, qx, qy) = (p.x as int, p.y as int, q.x as int, q.y as int);
    assert(px % 32 == qx % 32 && py % 32 == qy % 32) by (nonlinear_arith)
        requires
            (py % 32) * 32 + (px % 32) == (qy % 32) * 32 + (qx % 32),
            0 <= px, 0 <= py, 0 <= qx, 0 <= qy,
    ;
    assert(px == (px / 32) * 32 + px % 32);
    assert(qx == (qx / 32) * 32 + qx % 32);
    assert(py == (py / 32) * 32 + py % 32);
    assert(qy == (qy / 32) * 32 + qy % 32);
}

/// A chunk coordinate that some position falls into.
pub open spec fn chunk_in_range(c: ChunkCoord) -> bool {
    0 <= c.cx < 2048 && 0 <= c.cy < 2048
}

/// The position at index `i` of chunk `c`.
pub open spec fn chunk_position(c: ChunkCoord, i: int) -> Position {
    Position {
        x: (c.cx * 32 + i % 32) as u16,
        y: (c.cy * 32 + i / 32) as u16,
        z: c.z,
    }
}

pub proof fn lemma_chunk_position(c: ChunkCoord, i: int)
    requires
        chunk_in_range(c),
        0 <= i < 1024,
    ensures
        chunk_of(chunk_position(c, i)) == c,
        local_index_of(chunk_position(c, i)) == i,
        chunk_position(c, i).x == c.cx * 32 + i % 32,
        chunk_position(c, i).y == c.cy * 32 + i / 32,
{
    let p = chunk_position(c, i);
    assert(c.cx * 32 + i % 32 < 65536 && c.cy * 32 + i / 32 < 65536);
    assert((c.cx * 32 + i % 32) / 32 == c.cx && (c.cx * 32 + i % 32) % 32 == i % 32) by (nonlinear_arith)
        requires
            0 <= c.cx,
            0 <= i % 32 < 32,
    ;
    assert((c.cy * 32 + i / 32) / 32 == c.cy && (c.cy * 32 + i / 32) % 32 == i / 32) by (nonlinear_arith)
        requires
            0 <= c.cy,
            0 <= i / 32 < 32,
    ;
    assert(i == (i / 32) * 32 + i % 32);
}

} // verus!
