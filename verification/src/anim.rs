//! The animation table the sprite shader reads: one entry per item type
//! (never per instance) and one list of frame layers, both of a fixed
//! capacity allocated once. This is the bookkeeping of that table; the
//! caller copies what it decides into the two GPU buffers.

use vstd::prelude::*;
use crate::binary::le_u32;

verus! {

/// One entry per item type. `mode` 0 animates every instance in phase; 1
/// shifts the phase by the tile's position.
#[derive(Clone, Copy, Debug, PartialEq, Eq, Structural)]
pub struct AnimEntry {
    pub first_frame: u32,
    pub frame_count: u32,
    pub frame_duration_ms: u32,
    pub mode: u32,
}

/// Entries the table holds: every possible item type id.
pub const MAX_ANIM_ENTRIES: u32 = 65536;

/// Frame layers the table holds.
pub const MAX_ANIM_FRAMES: u32 = 262144;

/// What registering an animation did.
#[derive(Clone, Copy, Debug, PartialEq, Eq, Structural)]
pub enum AnimPush {
    /// Its frames do not fit: nothing was written. Its id is 0.
    FramesFull,
    /// Its frames were written from `first_frame` on, but no entry is left
    /// for it. Its id is 0.
    EntriesFull { first_frame: u32 },
    /// Its frames were written from `first_frame` on and `entry` is stored
    /// under `id`.
    Added { id: u32, first_frame: u32, entry: AnimEntry },
}

impl AnimPush {
    /// The id handed back to the caller: 0 when it failed.
    pub open spec fn spec_id(self) -> u32 {
        match self {
            AnimPush::Added { id, .. } => id,
            _ => 0,
        }
    }

    pub fn id(&self) -> (i: u32)
        ensures
            i == self.spec_id(),
    {
        match self {
            AnimPush::Added { id, .. } => *id,
            _ => 0,
        }
    }
}

/// How far the two buffers of the table are filled.
pub struct AnimTableState {
    entries_len: u32,
    frames_len: u32,
}

/// The entry of an animation of `frame_count` frames starting at
/// `first_frame`: at least one frame of at least one millisecond.
pub open spec fn spec_entry(first_frame: u32, frame_count: nat, frame_duration_ms: u32, async_mode: bool) -> AnimEntry {
    AnimEntry {
        first_frame,
        frame_count: if frame_count < 1 { 1 } else { frame_count as u32 },
        frame_duration_ms: if frame_duration_ms < 1 { 1 } else { frame_duration_ms },
        mode: if async_mode { 1 } else { 0 },
    }
}

impl AnimTableState {
    pub closed spec fn entries(&self) -> nat {
        self.entries_len as nat
    }

    pub closed spec fn frames(&self) -> nat {
        self.frames_len as nat
    }

    pub closed spec fn wf(&self) -> bool {
        &&& self.entries_len <= MAX_ANIM_ENTRIES
        &&& self.frames_len <= MAX_ANIM_FRAMES
    }

    /// What a readback of the table copies: every entry, and the frames
    /// up to `max_frames`.
    pub fn readback_sizes(&self, max_frames: u32) -> (r: (u32, u32))
        ensures
            r.0 == self.entries(),
            r.1 == (if self.frames() < max_frames { self.frames() } else { max_frames as nat }),
    {
        let frames = if self.frames_len < max_frames {
            self.frames_len
        } else {
            max_frames
        };
        (self.entries_len, frames)
    }

    /// A table with entry 0 taken by the placeholder: one frame on the
    /// atlas's transparent slot 0, for unknown or empty type ids.
    pub fn new() -> (r: (Self, AnimPush))
        ensures
            r.0.wf(),
            r.0.entries() == 1,
            r.0.frames() == 1,
            r.1 == (AnimPush::Added { id: 0, first_frame: 0, entry: spec_entry(0, 1, 1, false) }),
    {
        let mut table = AnimTableState { entries_len: 0, frames_len: 0 };
        let p = table.push_static();
        (table, p)
    }

    /// Registers a still item: one frame.
    pub fn push_static(&mut self) -> (p: AnimPush)
        requires
            old(self).wf(),
        ensures
            final(self).wf(),
            push_result(*old(self), *final(self), 1, 1, false, p),
    {
        self.push_animated(1, 1, false)
    }

    /// Registers an animation of `frame_count` frames of
    /// `frame_duration_ms` each: its frames take the next frame slots, its
    /// entry the next id.
    pub fn push_animated(&mut self, frame_count: usize, frame_duration_ms: u32, async_mode: bool) -> (p: AnimPush)
        requires
            old(self).wf(),
            frame_count <= u32::MAX - MAX_ANIM_FRAMES,
        ensures
            final(self).wf(),
            push_result(*old(self), *final(self), frame_count as nat, frame_duration_ms, async_mode, p),
    {
        let first_frame = self.frames_len;
        let needed_frames = first_frame + frame_count as u32;
        if needed_frames > MAX_ANIM_FRAMES {
            return AnimPush::FramesFull;
        }
        self.frames_len = needed_frames;
        let id = self.entries_len;
        if id >= MAX_ANIM_ENTRIES {
            return AnimPush::EntriesFull { first_frame };
        }
        let entry = AnimEntry {
            first_frame,
            frame_count: if frame_count < 1 {
                1
            } else {
                frame_count as u32
            },
            frame_duration_ms: if frame_duration_ms < 1 {
                1
            } else {
                frame_duration_ms
            },
            mode: if async_mode {
                1
            } else {
                0
            },
        };
        self.entries_len += 1;
        AnimPush::Added { id, first_frame, entry }
    }
}

/// What registering `frame_count` frames does to the table `before`.
pub open spec fn push_result(
    before: AnimTableState,
    after: AnimTableState,
    frame_count: nat,
    frame_duration_ms: u32,
    async_mode: bool,
    p: AnimPush,
) -> bool {
    if before.frames() + frame_count > MAX_ANIM_FRAMES {
        p == AnimPush::FramesFull && after == before
    } else if before.entries() >= MAX_ANIM_ENTRIES {
        &&& p == (AnimPush::EntriesFull { first_frame: before.frames() as u32 })
        &&& after.frames() == before.frames() + frame_count
        &&& after.entries() == before.entries()
    } else {
        &&& p == (AnimPush::Added {
            id: before.entries() as u32,
            first_frame: before.frames() as u32,
            entry: spec_entry(before.frames() as u32, frame_count, frame_duration_ms, async_mode),
        })
        &&& after.frames() == before.frames() + frame_count
        &&& after.entries() == before.entries() + 1
    }
}

/// The little-endian `u32` at `i`.
fn u32_at(bytes: &[u8], i: usize) -> (v: u32)
    requires
        i + 4 <= bytes@.len(),
    ensures
        v == le_u32(bytes@, i as int),
{
    bytes[i] as u32 + (bytes[i + 1] as u32) * 256 + (bytes[i + 2] as u32) * 65536 + (bytes[i + 3] as u32)
        * 16777216
}

/// The entry stored at index `i` of a buffer of entries: its four fields,
/// little-endian, one after the other.
pub open spec fn entry_at(bytes: Seq<u8>, i: int) -> AnimEntry {
    AnimEntry {
        first_frame: le_u32(bytes, 16 * i) as u32,
        frame_count: le_u32(bytes, 16 * i + 4) as u32,
        frame_duration_ms: le_u32(bytes, 16 * i + 8) as u32,
        mode: le_u32(bytes, 16 * i + 12) as u32,
    }
}

/// The first `count` entries of a buffer read back from the GPU.
pub fn entries_from_bytes(bytes: &[u8], count: usize) -> (v: Vec<AnimEntry>)
    requires
        16 * count <= bytes@.len(),
    ensures
        v@.len() == count,
        forall|i: int| 0 <= i < count ==> #[trigger] v@[i] == entry_at(bytes@, i),
{
    let mut v: Vec<AnimEntry> = Vec::new();
    let mut i: usize = 0;
    while i < count
        invariant
            16 * count <= bytes@.len(),
            i <= count,
            v@.len() == i,
            forall|j: int| 0 <= j < i ==> #[trigger] v@[j] == entry_at(bytes@, j),
        decreases count - i,
    {
        assert(bytes@.len() == bytes.len());
        assert(16 * i + 16 <= 16 * count) by (nonlinear_arith)
            requires
                i < count,
        ;
        let off = i * 16;
        v.push(AnimEntry {
            first_frame: u32_at(bytes, off),
            frame_count: u32_at(bytes, off + 4),
            frame_duration_ms: u32_at(bytes, off + 8),
            mode: u32_at(bytes, off + 12),
        });
        i += 1;
    }
    v
}

/// The first `count` frame layers of a buffer read back from the GPU.
pub fn frames_from_bytes(bytes: &[u8], count: usize) -> (v: Vec<u32>)
    requires
        4 * count <= bytes@.len(),
    ensures
        v@.len() == count,
        forall|i: int| 0 <= i < count ==> #[trigger] v@[i] == le_u32(bytes@, 4 * i),
{
    let mut v: Vec<u32> = Vec::new();
    let mut i: usize = 0;
    while i < count
        invariant
            4 * count <= bytes@.len(),
            i <= count,
            v@.len() == i,
            forall|j: int| 0 <= j < i ==> #[trigger] v@[j] == le_u32(bytes@, 4 * j),
        decreases count - i,
    {
        assert(bytes@.len() == bytes.len());
        assert(4 * i + 4 <= 4 * count) by (nonlinear_arith)
            requires
                i < count,
        ;
        v.push(u32_at(bytes, i * 4));
        i += 1;
    }
    v
}

} // verus!
