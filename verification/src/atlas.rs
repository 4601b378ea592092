//! The slot plan of the sprite atlas: one 2D texture of 32x32 cells,
//! `columns` cells wide (the largest power of two the GPU allows) and grown
//! in rows on demand, up to the GPU's limit. Slot 0 is the transparent
//! cell. This is the bookkeeping; the caller creates and fills textures as
//! it says.

use vstd::prelude::*;

verus! {

/// `p` is a power of two.
pub open spec fn is_power_of_two(p: int) -> bool
    decreases p,
{
    if p <= 0 {
        false
    } else if p == 1 {
        true
    } else {
        p % 2 == 0 && is_power_of_two(p / 2)
    }
}

/// `p` is the largest power of two not above `n`.
pub open spec fn is_floor_power_of_two(p: int, n: int) -> bool {
    is_power_of_two(p) && p <= n < 2 * p
}

/// The largest power of two not above `n`.
fn floor_power_of_two(n: u32) -> (p: u32)
    requires
        n >= 1,
    ensures
        is_floor_power_of_two(p as int, n as int),
{
    let mut p: u32 = 1;
    while p <= n / 2
        invariant
            1 <= p <= n,
            is_power_of_two(p as int),
        decreases n - p,
    {
        assert(is_power_of_two((2 * p) as int)) by {
            assert((2 * p) as int / 2 == p as int);
        }
        p = 2 * p;
    }
    p
}

/// The saturating product of two `u32`.
pub open spec fn sat_mul(a: u32, b: u32) -> u32 {
    if a * b > u32::MAX {
        u32::MAX
    } else {
        (a * b) as u32
    }
}

/// The rows reached from `rows` by doubling, capped at `max_rows`, until
/// there are `needed` of them or the cap is reached.
pub open spec fn doubled_rows(rows: u32, needed: u32, max_rows: u32) -> u32
    decreases max_rows - rows,
{
    if 1 <= rows && rows < needed && rows < max_rows {
        let d = sat_mul(rows, 2);
        doubled_rows(if d < max_rows { d } else { max_rows }, needed, max_rows)
    } else {
        rows
    }
}

proof fn lemma_doubled_rows(rows: u32, needed: u32, max_rows: u32)
    requires
        1 <= rows <= max_rows,
    ensures
        rows <= doubled_rows(rows, needed, max_rows) <= max_rows,
        doubled_rows(rows, needed, max_rows) >= needed || doubled_rows(rows, needed, max_rows) == max_rows,
    decreases max_rows - rows,
{
    if rows < needed && rows < max_rows {
        let d = sat_mul(rows, 2);
        lemma_doubled_rows(if d < max_rows { d } else { max_rows }, needed, max_rows);
    }
}

/// `a * b`, or `u32::MAX` when it does not fit.
fn saturating_mul(a: u32, b: u32) -> (r: u32)
    ensures
        r == sat_mul(a, b),
{
    match a.checked_mul(b) {
        Some(p) => p,
        None => u32::MAX,
    }
}

/// What appending one cell takes.
#[derive(Clone, Copy, Debug, PartialEq, Eq, Structural)]
pub enum AtlasAppend {
    /// Every slot is taken, or the texture cannot grow to the row of the
    /// next one: the cell is not stored (its slot reads as 0).
    Full,
    /// The cell goes to `slot`; when `grow_to` holds a number of rows, the
    /// texture is first made anew with that many rows and every stored
    /// cell copied into it.
    Place { slot: u32, grow_to: Option<u32> },
}

#[derive(Clone, Copy, Debug, PartialEq, Eq, Structural)]
pub struct AtlasLayout {
    columns: u32,
    rows: u32,
    max_rows: u32,
    /// The cells stored, the transparent one included.
    slots: u32,
}

impl AtlasLayout {
    pub closed spec fn columns_spec(&self) -> u32 {
        self.columns
    }

    pub closed spec fn rows_spec(&self) -> u32 {
        self.rows
    }

    pub closed spec fn max_rows_spec(&self) -> u32 {
        self.max_rows
    }

    /// The cells stored, the transparent one included.
    pub closed spec fn slots_spec(&self) -> u32 {
        self.slots
    }

    /// The slots the atlas can ever hold.
    pub open spec fn capacity(&self) -> u32 {
        sat_mul(self.columns_spec(), self.max_rows_spec())
    }

    /// Every stored cell lies in the texture, and no more cells than the
    /// atlas can hold are stored.
    pub closed spec fn wf(&self) -> bool {
        &&& is_power_of_two(self.columns as int)
        &&& self.columns <= self.max_rows
        &&& 1 <= self.rows <= self.max_rows <= u32::MAX / 32
        &&& 1 <= self.slots
        &&& self.slots <= self.columns * self.rows
        &&& self.slots <= sat_mul(self.columns, self.max_rows)
    }

    /// The plan of a fresh atlas for a GPU whose 2D textures reach
    /// `max_texture_dimension_2d` pixels: as many columns as a power of two
    /// allows, one row, the transparent cell stored.
    pub fn new(max_texture_dimension_2d: u32) -> (a: Self)
        ensures
            a.wf(),
            a.max_rows_spec() == (if max_texture_dimension_2d / 32 < 1 { 1 } else { max_texture_dimension_2d / 32 }),
            is_floor_power_of_two(a.columns_spec() as int, a.max_rows_spec() as int),
            a.rows_spec() == 1,
            a.slots_spec() == 1,
    {
        let d = max_texture_dimension_2d / 32;
        let max_dimension = if d < 1 {
            1
        } else {
            d
        };
        let columns = floor_power_of_two(max_dimension);
        assert(columns >= 1) by {
            assert(is_power_of_two(columns as int));
        }
        assert(columns * 1 <= sat_mul(columns, max_dimension)) by (nonlinear_arith)
            requires
                1 <= columns <= max_dimension,
        ;
        AtlasLayout { columns, rows: 1, max_rows: max_dimension, slots: 1 }
    }

    /// The cells stored.
    pub fn layer_count(&self) -> (n: u32)
        ensures
            n == self.slots_spec(),
    {
        self.slots
    }

    /// The slots the atlas can ever hold.
    pub fn max_layers(&self) -> (n: u32)
        ensures
            n == self.capacity(),
    {
        saturating_mul(self.columns, self.max_rows)
    }

    pub fn columns(&self) -> (n: u32)
        ensures
            n == self.columns_spec(),
    {
        self.columns
    }

    /// The rows the texture grows to so that it has `needed_rows`: doubled
    /// until it has them, never past the limit; `None` when it would not
    /// reach them or would not grow.
    pub open spec fn grown_rows_spec(&self, needed_rows: u32) -> Option<u32> {
        let n = doubled_rows(self.rows_spec(), needed_rows, self.max_rows_spec());
        if n < needed_rows || n == self.rows_spec() {
            None
        } else {
            Some(n)
        }
    }

    /// What appending a cell takes: the next slot, when the atlas holds it
    /// and the texture has, or can grow to, its row.
    pub open spec fn plan_append_spec(&self) -> AtlasAppend {
        let slot = self.slots_spec();
        if slot >= self.capacity() {
            AtlasAppend::Full
        } else {
            let row = slot / self.columns_spec();
            if row >= self.rows_spec() {
                match self.grown_rows_spec((row + 1) as u32) {
                    None => AtlasAppend::Full,
                    Some(n) => AtlasAppend::Place { slot, grow_to: Some(n) },
                }
            } else {
                AtlasAppend::Place { slot, grow_to: None }
            }
        }
    }

    pub fn grown_rows(&self, needed_rows: u32) -> (r: Option<u32>)
        requires
            self.wf(),
        ensures
            r == self.grown_rows_spec(needed_rows),
    {
        let mut new_rows = self.rows;
        while new_rows < needed_rows && new_rows < self.max_rows
            invariant
                self.wf(),
                1 <= self.rows <= new_rows <= self.max_rows,
                doubled_rows(new_rows, needed_rows, self.max_rows) == doubled_rows(self.rows, needed_rows, self.max_rows),
            decreases self.max_rows - new_rows,
        {
            let doubled = saturating_mul(new_rows, 2);
            new_rows = if doubled < self.max_rows {
                doubled
            } else {
                self.max_rows
            };
        }
        if new_rows < needed_rows || new_rows == self.rows {
            None
        } else {
            Some(new_rows)
        }
    }

    pub fn plan_append(&self) -> (r: AtlasAppend)
        requires
            self.wf(),
        ensures
            r == self.plan_append_spec(),
            r is Full <==> self.slots_spec() >= self.capacity(),
    {
        let slot = self.slots;
        if slot >= self.max_layers() {
            return AtlasAppend::Full;
        }
        assert(self.columns >= 1) by {
            assert(is_power_of_two(self.columns as int));
        }
        let needed_row = slot / self.columns;
        if needed_row >= self.rows {
            assert(needed_row + 1 <= self.max_rows) by (nonlinear_arith)
                requires
                    slot < sat_mul(self.columns, self.max_rows),
                    needed_row == slot / self.columns,
                    self.columns >= 1,
            ;
            proof {
                lemma_doubled_rows(self.rows, (needed_row + 1) as u32, self.max_rows);
            }
            match self.grown_rows(needed_row + 1) {
                None => AtlasAppend::Full,
                Some(n) => AtlasAppend::Place { slot, grow_to: Some(n) },
            }
        } else {
            AtlasAppend::Place { slot, grow_to: None }
        }
    }

    /// Records a cell placed as `plan_append` said.
    pub fn commit_append(&mut self, grow_to: Option<u32>)
        requires
            old(self).wf(),
            old(self).plan_append_spec() == (AtlasAppend::Place { slot: old(self).slots_spec(), grow_to }),
        ensures
            final(self).wf(),
            final(self).slots_spec() == old(self).slots_spec() + 1,
            final(self).columns_spec() == old(self).columns_spec(),
            final(self).max_rows_spec() == old(self).max_rows_spec(),
            final(self).rows_spec() == match grow_to {
                Some(n) => n,
                None => old(self).rows_spec(),
            },
    {
        assert(self.columns >= 1) by {
            assert(is_power_of_two(self.columns as int));
        }
        proof {
            lemma_doubled_rows(self.rows, (self.slots / self.columns + 1) as u32, self.max_rows);
        }
        if let Some(n) = grow_to {
            self.rows = n;
        }
        let slot = self.slots;
        assert(slot + 1 <= self.columns * self.rows) by (nonlinear_arith)
            requires
                slot / self.columns < self.rows,
                self.columns >= 1,
        ;
        self.slots = slot + 1;
    }

    /// The top-left pixel of `slot` in the texture: slots fill it row by row.
    pub fn cell_origin(&self, slot: u32) -> (r: (u32, u32))
        requires
            self.wf(),
            slot < self.columns_spec() * self.rows_spec(),
        ensures
            r == cell_origin_spec(self.columns_spec(), slot),
            r.0 + 32 <= self.columns_spec() * 32,
            r.1 + 32 <= self.rows_spec() * 32,
    {
        assert(self.columns >= 1) by {
            assert(is_power_of_two(self.columns as int));
        }
        assert((slot % self.columns) * 32 + 32 <= self.columns * 32 && (slot / self.columns) * 32 + 32
            <= self.rows * 32) by (nonlinear_arith)
            requires
                self.columns >= 1,
                slot < self.columns * self.rows,
        ;
        assert(self.columns * 32 <= u32::MAX && self.rows * 32 <= u32::MAX);
        ((slot % self.columns) * 32, (slot / self.columns) * 32)
    }
}

/// The top-left pixel of `slot` in a texture `columns` cells wide.
pub open spec fn cell_origin_spec(columns: u32, slot: u32) -> (u32, u32) {
    (((slot % columns) * 32) as u32, ((slot / columns) * 32) as u32)
}

/// Two slots never share a cell of the texture.
pub proof fn lemma_cell_origins_distinct(columns: u32, a: u32, b: u32)
    requires
        1 <= columns <= 0x800_0000,
        a != b,
        (a / columns) * 32 <= u32::MAX,
        (b / columns) * 32 <= u32::MAX,
    ensures
        cell_origin_spec(columns, a) != cell_origin_spec(columns, b),
{
    let (ai, bi, c) = (a as int, b as int, columns as int);
    assert(ai == (ai / c) * c + ai % c && bi == (bi / c) * c + bi % c) by (nonlinear_arith)
        requires
            c >= 1,
    ;
    assert(0 <= (ai % c) * 32 < c * 32 && 0 <= (bi % c) * 32 < c * 32) by (nonlinear_arith)
        requires
            c >= 1,
    ;
    if cell_origin_spec(columns, a) == cell_origin_spec(columns, b) {
        assert((ai % c) * 32 == (bi % c) * 32);
        assert((ai / c) * 32 == (bi / c) * 32);
        assert(ai == bi) by (nonlinear_arith)
            requires
                (ai % c) * 32 == (bi % c) * 32,
                (ai / c) * 32 == (bi / c) * 32,
                ai == (ai / c) * c + ai % c,
                bi == (bi / c) * c + bi % c,
        ;
    }
}

} // verus!
