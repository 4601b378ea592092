//! What the renderer derives from the item table and the sprite sheets:
//! where a sprite lies in its sheet and its 32x32 blocks, the RGBA form of
//! a decoded sheet, and the timing and layout numbers of animations.

use vstd::prelude::*;
use crate::catalog::{SpriteLayout, SpriteSheetInfo, sprite_dims};
use crate::item_types::{
    ItemType, ItemTypeTable, ItemTypeTableView, lemma_sprite_index_bounds, max1, sprite_index_space, spec_sprite_index,
};
use crate::position::Position;
use crate::sprite::SHEET_BYTES;

verus! {

pub open spec fn at_least_one(x: u32) -> int {
    if x < 1 {
        1
    } else {
        x as int
    }
}

/// Sprites per frame: the pattern sizes times the layers (each counted as
/// at least one), the distance between two phases of one pattern in the
/// sprite index.
pub open spec fn spec_pattern_stride(t: ItemType) -> int {
    at_least_one(t.pattern_depth) * at_least_one(t.pattern_height) * at_least_one(t.pattern_width)
        * at_least_one(t.layers)
}

pub fn pattern_stride(item_type: &ItemType) -> (s: u32)
    requires
        spec_pattern_stride(*item_type) <= u32::MAX,
    ensures
        s == spec_pattern_stride(*item_type),
{
    let fx = if item_type.pattern_width < 1 {
        1
    } else {
        item_type.pattern_width
    };
    let fy = if item_type.pattern_height < 1 {
        1
    } else {
        item_type.pattern_height
    };
    let fz = if item_type.pattern_depth < 1 {
        1
    } else {
        item_type.pattern_depth
    };
    let layers = if item_type.layers < 1 {
        1
    } else {
        item_type.layers
    };
    assert(fz * fy <= fz * fy * fx && fz * fy * fx <= fz * fy * fx * layers) by (nonlinear_arith)
        requires
            fx >= 1,
            fy >= 1,
            fz >= 1,
            layers >= 1,
    ;
    fz * fy * fx * layers
}

/// The length of a phase: the mean of its least and greatest duration, at
/// least 1.
pub open spec fn phase_ms(p: (u32, u32)) -> int {
    let m = (p.0 + p.1) / 2;
    if m < 1 {
        1
    } else {
        m
    }
}

/// The length given to phases without durations: that of the first phase
/// that has one, or 1.
pub open spec fn fallback_ms(phases: Seq<(u32, u32)>) -> int
    decreases phases.len(),
{
    if phases.len() == 0 {
        1
    } else if phases[0].0 > 0 || phases[0].1 > 0 {
        phase_ms(phases[0])
    } else {
        fallback_ms(phases.drop_first())
    }
}

/// The sum of the first `n` phase lengths (a phase without durations
/// counting as `fallback`).
pub open spec fn sum_ms(phases: Seq<(u32, u32)>, n: nat, fallback: int) -> int
    decreases n,
{
    if n == 0 || n > phases.len() {
        0
    } else {
        let p = phases[n - 1];
        sum_ms(phases, (n - 1) as nat, fallback) + if p.0 == 0 && p.1 == 0 {
            fallback
        } else {
            phase_ms(p)
        }
    }
}

/// The length of a frame of an animation with these phases, in
/// milliseconds: the mean phase length, at least 1 (0 without phases).
pub open spec fn spec_resolve_dur_ms(phases: Seq<(u32, u32)>) -> int {
    if phases.len() == 0 {
        0
    } else {
        let m = sum_ms(phases, phases.len(), fallback_ms(phases)) / (phases.len() as int);
        if m < 1 {
            1
        } else {
            m
        }
    }
}

proof fn lemma_phase_ms_bound(p: (u32, u32))
    ensures
        1 <= phase_ms(p) <= u32::MAX,
{
}

proof fn lemma_fallback_bound(phases: Seq<(u32, u32)>)
    ensures
        1 <= fallback_ms(phases) <= u32::MAX,
    decreases phases.len(),
{
    if phases.len() > 0 && !(phases[0].0 > 0 || phases[0].1 > 0) {
        lemma_fallback_bound(phases.drop_first());
    }
}

proof fn lemma_sum_bound(phases: Seq<(u32, u32)>, n: nat, fallback: int)
    requires
        1 <= fallback <= u32::MAX,
        n <= phases.len(),
    ensures
        n <= sum_ms(phases, n, fallback) <= n * (u32::MAX as int),
    decreases n,
{
    if n > 0 {
        lemma_sum_bound(phases, (n - 1) as nat, fallback);
        lemma_phase_ms_bound(phases[n - 1]);
    }
}

fn phase_ms_of(p: (u32, u32)) -> (m: u32)
    ensures
        m == phase_ms(p),
{
    let mid = ((p.0 as u64 + p.1 as u64) / 2) as u32;
    if mid < 1 {
        1
    } else {
        mid
    }
}

pub fn resolve_dur_ms(phases: &[(u32, u32)]) -> (d: u32)
    requires
        phases@.len() < 0x1_0000_0000,
    ensures
        d == spec_resolve_dur_ms(phases@),
{
    if phases.len() == 0 {
        return 0;
    }
    let mut fallback: u32 = 1;
    let mut j: usize = 0;
    assert(phases@.skip(0) =~= phases@);
    while j < phases.len()
        invariant_except_break
            fallback == 1,
        invariant
            j <= phases@.len(),
            fallback_ms(phases@) == fallback_ms(phases@.skip(j as int)),
        ensures
            fallback == fallback_ms(phases@),
        decreases phases@.len() - j,
    {
        assert(phases@.skip(j as int).drop_first() =~= phases@.skip(j + 1));
        let (mn, mx) = phases[j];
        if mn > 0 || mx > 0 {
            fallback = phase_ms_of((mn, mx));
            break;
        }
        j += 1;
    }
    proof {
        lemma_fallback_bound(phases@);
    }
    let mut sum: u64 = 0;
    let mut i: usize = 0;
    while i < phases.len()
        invariant
            i <= phases@.len(),
            phases@.len() < 0x1_0000_0000,
            fallback == fallback_ms(phases@),
            1 <= fallback,
            sum == sum_ms(phases@, i as nat, fallback as int),
            sum <= i * (u32::MAX as int),
        decreases phases@.len() - i,
    {
        let (mn, mx) = phases[i];
        let dur = if mn == 0 && mx == 0 {
            fallback
        } else {
            phase_ms_of((mn, mx))
        };
        assert(sum + dur <= (i + 1) * (u32::MAX as int)) by (nonlinear_arith)
            requires
                sum <= i * (u32::MAX as int),
                dur <= u32::MAX,
        ;
        assert((i + 1) * (u32::MAX as int) <= 0x1_0000_0000 * (u32::MAX as int)) by (nonlinear_arith)
            requires
                i < 0x1_0000_0000,
        ;
        sum = sum + dur as u64;
        i += 1;
    }
    let n = phases.len() as u64;
    let mean = sum / n;
    assert(mean <= u32::MAX) by (nonlinear_arith)
        requires
            sum <= n * (u32::MAX as int),
            n >= 1,
            mean == sum / n,
    ;
    if mean < 1 {
        1
    } else {
        mean as u32
    }
}

/// The byte at `i` of the RGBA form of BGRA pixels: red and blue trade
/// places in every whole pixel; bytes after the last whole pixel are zero.
pub open spec fn rgba_byte(bgra: Seq<u8>, i: int) -> u8 {
    if i < (bgra.len() / 4) * 4 {
        if i % 4 == 0 {
            bgra[i + 2]
        } else if i % 4 == 2 {
            bgra[i - 2]
        } else {
            bgra[i]
        }
    } else {
        0
    }
}

/// The RGBA form of BGRA pixels, as a decoded sheet is handed to the atlas.
pub fn bgra_to_rgba(bgra: &[u8]) -> (rgba: Vec<u8>)
    ensures
        rgba@.len() == bgra@.len(),
        forall|i: int| 0 <= i < bgra@.len() ==> #[trigger] rgba@[i] == rgba_byte(bgra@, i),
{
    let n = bgra.len();
    let whole = n / 4;
    let mut rgba: Vec<u8> = Vec::new();
    let mut k: usize = 0;
    while k < whole
        invariant
            n == bgra@.len(),
            whole == n / 4,
            k <= whole,
            rgba@.len() == 4 * k,
            forall|i: int| 0 <= i < rgba@.len() ==> #[trigger] rgba@[i] == rgba_byte(bgra@, i),
        decreases whole - k,
    {
        let o = 4 * k;
        rgba.push(bgra[o + 2]);
        rgba.push(bgra[o + 1]);
        rgba.push(bgra[o]);
        rgba.push(bgra[o + 3]);
        k += 1;
        proof {
            assert forall|i: int| 0 <= i < rgba@.len() implies #[trigger] rgba@[i] == rgba_byte(bgra@, i) by {
                if i >= o {
                    assert(i / 4 == k - 1 && i % 4 == i - o);
                }
            }
        }
    }
    while rgba.len() < n
        invariant
            n == bgra@.len(),
            4 * (n / 4) <= rgba@.len() <= n,
            forall|i: int| 0 <= i < rgba@.len() ==> #[trigger] rgba@[i] == rgba_byte(bgra@, i),
        decreases n - rgba@.len(),
    {
        rgba.push(0);
    }
    rgba
}

/// Where a sprite lies in its sheet: its top-left pixel, and its size in
/// blocks of 32x32 pixels.
#[derive(Clone, Copy, Debug, PartialEq, Eq, Structural)]
pub struct CellPlace {
    pub x0: u32,
    pub y0: u32,
    pub width: u8,
    pub height: u8,
}

/// How many sprites of this layout a sheet holds.
pub open spec fn sheet_capacity(l: SpriteLayout) -> int {
    (384int / sprite_dims(l).0 as int) * (384int / sprite_dims(l).1 as int)
}

/// The place of the sprite `offset` places after the sheet's first one:
/// sprites fill the sheet row by row.
pub open spec fn spec_cell_place(l: SpriteLayout, offset: int) -> CellPlace {
    let sw = sprite_dims(l).0 as int;
    let sh = sprite_dims(l).1 as int;
    let cols = 384int / sw;
    CellPlace {
        x0: ((offset % cols) * sw) as u32,
        y0: ((offset / cols) * sh) as u32,
        width: (sw / 32) as u8,
        height: (sh / 32) as u8,
    }
}

/// The place inside the sheet of a layout of sprite `sprite_id`, for a
/// sheet whose first sprite is `first_id`.
pub fn cell_place(layout: SpriteLayout, first_id: u32, sprite_id: u32) -> (p: CellPlace)
    requires
        first_id <= sprite_id,
        sprite_id - first_id < sheet_capacity(layout),
    ensures
        p == spec_cell_place(layout, sprite_id - first_id),
        1 <= p.width <= 2,
        1 <= p.height <= 2,
        p.x0 + p.width * 32 <= 384,
        p.y0 + p.height * 32 <= 384,
{
    let (sw, sh) = layout.sprite_size();
    let cols = 384 / sw;
    let offset = sprite_id - first_id;
    let col = offset % cols;
    let row = offset / cols;
    let rows = 384 / sh;
    assert(col * sw + sw <= 384 && row * sh + sh <= 384) by (nonlinear_arith)
        requires
            sw == 32 || sw == 64,
            sh == 32 || sh == 64,
            cols == 384u32 / sw,
            rows == 384u32 / sh,
            col == offset % cols,
            row == offset / cols,
            offset < cols * rows,
    ;
    CellPlace { x0: col * sw, y0: row * sh, width: (sw / 32) as u8, height: (sh / 32) as u8 }
}

/// The index in a 384x384 RGBA sheet of byte `j` of the 32x32 block whose
/// top-left pixel is `(sx, sy)`, its rows one after the other.
pub open spec fn block_source(sx: int, sy: int, j: int) -> int {
    (sy + j / 128) * 1536 + sx * 4 + j % 128
}

/// The 32x32 block of a 384x384 RGBA sheet whose top-left pixel is
/// `(sx, sy)`.
fn copy_block(sheet: &[u8], sx: u32, sy: u32) -> (cell: Vec<u8>)
    requires
        sheet@.len() == SHEET_BYTES,
        sx + 32 <= 384,
        sy + 32 <= 384,
    ensures
        cell@.len() == 4096,
        forall|j: int| 0 <= j < 4096 ==> #[trigger] cell@[j] == sheet@[block_source(sx as int, sy as int, j)],
{
    let mut cell: Vec<u8> = Vec::new();
    let mut dy: usize = 0;
    while dy < 32
        invariant
            sheet@.len() == SHEET_BYTES,
            sx + 32 <= 384,
            sy + 32 <= 384,
            dy <= 32,
            cell@.len() == dy * 128,
            forall|j: int| 0 <= j < cell@.len() ==> #[trigger] cell@[j] == sheet@[block_source(sx as int, sy as int, j)],
        decreases 32 - dy,
    {
        let src_row = (sy as usize + dy) * 1536 + sx as usize * 4;
        assert(src_row + 128 <= SHEET_BYTES) by (nonlinear_arith)
            requires
                src_row == (sy + dy) * 1536 + sx * 4,
                sy + dy < 384,
                sx + 32 <= 384,
        ;
        let mut i: usize = 0;
        while i < 128
            invariant
                sheet@.len() == SHEET_BYTES,
                dy < 32,
                i <= 128,
                src_row + 128 <= SHEET_BYTES,
                src_row == (sy + dy) * 1536 + sx * 4,
                cell@.len() == dy * 128 + i,
                forall|j: int| 0 <= j < cell@.len() ==> #[trigger] cell@[j] == sheet@[block_source(sx as int, sy as int, j)],
            decreases 128 - i,
        {
            proof {
                let j = dy * 128 + i;
                assert(j / 128 == dy && j % 128 == i) by (nonlinear_arith)
                    requires
                        j == dy * 128 + i,
                        i < 128,
                ;
            }
            cell.push(sheet[src_row + i]);
            i += 1;
        }
        dy += 1;
    }
    cell
}

/// The index in the sheet of byte `j` of block `k` of the sprite at
/// `p`: blocks come row by row, `p.width` to a row.
pub open spec fn cell_source(p: CellPlace, k: int, j: int) -> int {
    block_source(p.x0 + (k % p.width as int) * 32, p.y0 + (k / p.width as int) * 32, j)
}

/// The 32x32 blocks of the sprite at `place` in a 384x384 RGBA sheet, row
/// by row: the order in which they go into the atlas.
pub fn sprite_cells(sheet: &[u8], place: CellPlace) -> (cells: Vec<Vec<u8>>)
    requires
        sheet@.len() == SHEET_BYTES,
        1 <= place.width,
        1 <= place.height,
        place.x0 + place.width * 32 <= 384,
        place.y0 + place.height * 32 <= 384,
    ensures
        cells@.len() == place.width * place.height,
        forall|k: int| 0 <= k < cells@.len() ==> (#[trigger] cells@[k])@.len() == 4096,
        forall|k: int, j: int|
            0 <= k < cells@.len() && 0 <= j < 4096 ==> #[trigger] cells@[k]@[j] == sheet@[cell_source(place, k, j)],
{
    let w = place.width as u32;
    let h = place.height as u32;
    let mut cells: Vec<Vec<u8>> = Vec::new();
    let mut part_y: u32 = 0;
    while part_y < h
        invariant
            sheet@.len() == SHEET_BYTES,
            w == place.width,
            h == place.height,
            1 <= w,
            place.x0 + w * 32 <= 384,
            place.y0 + h * 32 <= 384,
            part_y <= h,
            cells@.len() == part_y * w,
            forall|k: int| 0 <= k < cells@.len() ==> (#[trigger] cells@[k])@.len() == 4096,
            forall|k: int, j: int|
                0 <= k < cells@.len() && 0 <= j < 4096 ==> #[trigger] cells@[k]@[j] == sheet@[cell_source(place, k, j)],
        decreases h - part_y,
    {
        let mut part_x: u32 = 0;
        while part_x < w
            invariant
                sheet@.len() == SHEET_BYTES,
                w == place.width,
                h == place.height,
                1 <= w,
                place.x0 + w * 32 <= 384,
                place.y0 + h * 32 <= 384,
                part_y < h,
                part_x <= w,
                cells@.len() == part_y * w + part_x,
                forall|k: int| 0 <= k < cells@.len() ==> (#[trigger] cells@[k])@.len() == 4096,
                forall|k: int, j: int|
                    0 <= k < cells@.len() && 0 <= j < 4096 ==> #[trigger] cells@[k]@[j] == sheet@[cell_source(place, k, j)],
            decreases w - part_x,
        {
            assert(place.x0 + part_x * 32 + 32 <= 384 && place.y0 + part_y * 32 + 32 <= 384) by (nonlinear_arith)
                requires
                    place.x0 + w * 32 <= 384,
                    place.y0 + h * 32 <= 384,
                    part_x < w,
                    part_y < h,
            ;
            let sx = place.x0 + part_x * 32;
            let sy = place.y0 + part_y * 32;
            let cell = copy_block(sheet, sx, sy);
            proof {
                let k = part_y * w + part_x;
                assert(k / (w as int) == part_y && k % (w as int) == part_x) by (nonlinear_arith)
                    requires
                        k == part_y * w + part_x,
                        part_x < w,
                ;
            }
            cells.push(cell);
            part_x += 1;
        }
        part_y += 1;
        assert(cells@.len() == part_y * w) by (nonlinear_arith)
            requires
                cells@.len() == (part_y - 1) * w + w,
        ;
    }
    assert(cells@.len() == w * h) by (nonlinear_arith)
        requires
            cells@.len() == h * w,
    ;
    cells
}

/// A sprite cut out of its sheet: where it lies, and its 32x32 blocks in
/// the order they go into the atlas.
pub struct DecodedSpriteCell {
    pub place: CellPlace,
    pub cells: Vec<Vec<u8>>,
}

/// Sprite `sprite_id` cut out of the RGBA pixels of the sheet `info`
/// describes.
pub fn decode_sprite_cell(info: &SpriteSheetInfo, sprite_id: u32, sheet_rgba: &[u8]) -> (r: DecodedSpriteCell)
    requires
        info.first_id <= sprite_id,
        sprite_id - info.first_id < sheet_capacity(info.sprite_type),
        sheet_rgba@.len() == SHEET_BYTES,
    ensures
        r.place == spec_cell_place(info.sprite_type, sprite_id - info.first_id),
        r.cells@.len() == r.place.width * r.place.height,
        forall|k: int| 0 <= k < r.cells@.len() ==> (#[trigger] r.cells@[k])@.len() == 4096,
        forall|k: int, j: int|
            0 <= k < r.cells@.len() && 0 <= j < 4096 ==> #[trigger] r.cells@[k]@[j] == sheet_rgba@[cell_source(r.place, k, j)],
{
    let place = cell_place(info.sprite_type, info.first_id, sprite_id);
    let cells = sprite_cells(sheet_rgba, place);
    DecodedSpriteCell { place, cells }
}

/// The item type whose sprite is drawn for `type_id`: none for type 0 (no
/// item) or for an id the table does not know; such items get the empty
/// visual.
pub fn visual_type(table: &ItemTypeTable, type_id: u16) -> (r: Option<&ItemType>)
    ensures
        r is Some <==> type_id != 0 && table@.lookup(type_id) is Some,
        r matches Some(t) ==> table@.lookup(type_id) == Some(t@),
{
    if type_id == 0 {
        return None;
    }
    table.get_opt(type_id)
}

/// What drawing an item takes, as the item table decides it.
#[derive(Clone, Copy, Debug, PartialEq, Eq, Structural)]
pub enum VisualPlan {
    /// Type 0 or a type the table does not know: the empty visual.
    Empty,
    /// The type has no sprite to draw there (no sprite ids, or sprite 0):
    /// its visual without a sprite.
    NoSprite,
    /// Sprite `sprite_id`, the one of index `sprite_index` for the tile's
    /// position; an animated type is drawn from its strip at that index
    /// when the strip is usable (`animated_layer`), else still.
    Sprite { sprite_id: u32, sprite_index: usize },
}

/// The plan for an item of type `type_id` on the tile at `p`: the sprite
/// of phase 0 and layer 0 for the tile's pattern coordinates, or the first
/// sprite when the type has fewer.
pub open spec fn spec_plan_visual(table: crate::item_types::ItemTypeTableView, type_id: u16, p: Position) -> VisualPlan {
    if type_id == 0 {
        VisualPlan::Empty
    } else {
        match table.lookup(type_id) {
            None => VisualPlan::Empty,
            Some(t) => {
                let i = spec_sprite_index(t, 0, p.x as u32, p.y as u32, p.z as u32, 0);
                match spec_pick_sprite(t.sprite_ids, i) {
                    None => VisualPlan::NoSprite,
                    Some(id) => if id == 0 {
                        VisualPlan::NoSprite
                    } else {
                        VisualPlan::Sprite { sprite_id: id, sprite_index: i as usize }
                    },
                }
            },
        }
    }
}

/// The plan for an item on the tile at `p` follows the tile's pattern
/// cell. With the type's pattern width `fx`, height `fy`, depth `fz` and
/// layer count `l` (each counted as at least 1), the cell's index is
/// `((z mod fz) * fy + y mod fy) * fx + x mod fx`, times `l` (phase 0,
/// layer 0): x picks the column, y the row, z the depth. A sprite plan
/// carries that index and the id stored there, or the first id when the
/// type has fewer; an id of 0 or no ids at all give no sprite. The plan is
/// empty exactly for type 0 and for a type the table does not know.
pub proof fn lemma_plan_visual_pattern(table: ItemTypeTableView, type_id: u16, p: Position)
    requires
        table.lookup(type_id) matches Some(t) ==> sprite_index_space(t) <= usize::MAX,
    ensures
        (spec_plan_visual(table, type_id, p) is Empty) <==> (type_id == 0 || table.lookup(type_id) is None),
        type_id != 0 && table.lookup(type_id) is Some ==> ({
            let t = table.lookup(type_id)->0;
            let fx = max1(t.pattern_width as int);
            let fy = max1(t.pattern_height as int);
            let fz = max1(t.pattern_depth as int);
            let l = max1(t.layers as int);
            let i = (((p.z as int % fz) * fy + p.y as int % fy) * fx + p.x as int % fx) * l;
            let id = if i < t.sprite_ids.len() {
                t.sprite_ids[i]
            } else {
                t.sprite_ids[0]
            };
            &&& 0 <= i
            &&& (t.sprite_ids.len() == 0 || id == 0) ==> spec_plan_visual(table, type_id, p) is NoSprite
            &&& t.sprite_ids.len() > 0 && id != 0 ==> spec_plan_visual(table, type_id, p) == (VisualPlan::Sprite {
                sprite_id: id,
                sprite_index: i as usize,
            })
            &&& i <= usize::MAX
        }),
{
    if type_id != 0 && table.lookup(type_id) is Some {
        let t = table.lookup(type_id)->0;
        let n = max1(t.animation_phases.len() as int);
        let fx = max1(t.pattern_width as int);
        let fy = max1(t.pattern_height as int);
        let fz = max1(t.pattern_depth as int);
        let l = max1(t.layers as int);
        let zi = p.z as int % fz;
        let yi = p.y as int % fy;
        let xi = p.x as int % fx;
        assert(0 <= zi < fz && 0 <= yi < fy && 0 <= xi < fx);
        lemma_sprite_index_bounds(0, zi, yi, xi, 0, n, fz, fy, fx, l);
        assert(0 * fz == 0 && 0int % l == 0);
        assert(spec_sprite_index(t, 0, p.x as u32, p.y as u32, p.z as u32, 0) == ((zi * fy + yi) * fx + xi) * l);
    }
}

pub fn plan_visual(table: &ItemTypeTable, type_id: u16, position: Position) -> (r: VisualPlan)
    requires
        table@.lookup(type_id) matches Some(t) ==> sprite_index_space(t) <= usize::MAX,
    ensures
        r == spec_plan_visual(table@, type_id, position),
{
    let item_type = match visual_type(table, type_id) {
        None => return VisualPlan::Empty,
        Some(t) => t,
    };
    let sprite_index = item_type.sprite_index(0, position.x as u32, position.y as u32, position.z as u32, 0);
    match pick_sprite(&item_type.sprite_ids, sprite_index) {
        None => VisualPlan::NoSprite,
        Some(sprite_id) => if sprite_id == 0 {
            VisualPlan::NoSprite
        } else {
            VisualPlan::Sprite { sprite_id, sprite_index }
        },
    }
}

/// A sprite already in the atlas: its first block, and its size in blocks.
#[derive(Clone, Copy, Debug, PartialEq, Eq, Structural)]
pub struct CachedSprite {
    pub base_layer: u32,
    pub width: u8,
    pub height: u8,
}

/// The atlas blocks of all the phases of an animated item type, one strip.
#[derive(Clone, Copy, Debug, PartialEq, Eq, Structural)]
pub struct AnimBlockInfo {
    /// 0 when the strip could not be built: the item is then drawn still.
    pub frames: u32,
    /// The first block of the sprite of index 0.
    pub strip_base: u32,
    pub sprites_per_frame: u32,
    pub cells_per_sprite: u32,
    pub width: u8,
    pub height: u8,
    pub dur_ms: u32,
}

/// The strip that could not be built.
pub open spec fn no_block() -> AnimBlockInfo {
    AnimBlockInfo {
        frames: 0,
        strip_base: 0,
        sprites_per_frame: 0,
        cells_per_sprite: 0,
        width: 0,
        height: 0,
        dur_ms: 0,
    }
}

/// The blocks a sprite takes.
pub open spec fn blocks_of(c: CachedSprite) -> int {
    c.width * c.height
}

/// Each sprite starts at the block right after the last one of the sprite
/// before it.
pub open spec fn contiguous(s: Seq<CachedSprite>) -> bool {
    forall|i: int| 0 < i < s.len() ==> #[trigger] s[i].base_layer == s[i - 1].base_layer + blocks_of(s[i - 1])
}

/// The strip of an animation whose sprites, in `sprite_index` order, went
/// into the atlas at `sprites`: empty or broken strips give `no_block()`.
pub open spec fn spec_anim_block(sprites: Seq<CachedSprite>, phases: Seq<(u32, u32)>, stride: u32) -> AnimBlockInfo {
    if sprites.len() == 0 || !contiguous(sprites) {
        no_block()
    } else {
        AnimBlockInfo {
            frames: phases.len() as u32,
            strip_base: sprites[0].base_layer,
            sprites_per_frame: if stride < 1 { 1 } else { stride },
            cells_per_sprite: blocks_of(sprites[0]) as u32,
            width: sprites[0].width,
            height: sprites[0].height,
            dur_ms: spec_resolve_dur_ms(phases) as u32,
        }
    }
}

/// The strip of an animated item type from where its sprites went into
/// the atlas.
pub fn anim_block(sprites: &[CachedSprite], phases: &[(u32, u32)], stride: u32) -> (b: AnimBlockInfo)
    requires
        phases@.len() < 0x1_0000_0000,
        forall|i: int| 0 <= i < sprites@.len() ==> #[trigger] sprites@[i].base_layer + blocks_of(sprites@[i])
            <= u32::MAX,
    ensures
        b == spec_anim_block(sprites@, phases@, stride),
{
    if sprites.len() == 0 {
        return AnimBlockInfo {
            frames: 0,
            strip_base: 0,
            sprites_per_frame: 0,
            cells_per_sprite: 0,
            width: 0,
            height: 0,
            dur_ms: 0,
        };
    }
    let first = sprites[0];
    let base = first.base_layer;
    let cells_per_sprite = first.width as u32 * first.height as u32;
    let mut expected = base + cells_per_sprite;
    let mut idx: usize = 1;
    while idx < sprites.len()
        invariant
            1 <= idx <= sprites@.len(),
            forall|i: int| 0 <= i < sprites@.len() ==> #[trigger] sprites@[i].base_layer + blocks_of(sprites@[i])
                <= u32::MAX,
            expected == sprites@[idx - 1].base_layer + blocks_of(sprites@[idx - 1]),
            forall|i: int| 0 < i < idx ==> #[trigger] sprites@[i].base_layer == sprites@[i - 1].base_layer
                + blocks_of(sprites@[i - 1]),
        decreases sprites@.len() - idx,
    {
        let cached = sprites[idx];
        if cached.base_layer != expected {
            return AnimBlockInfo {
                frames: 0,
                strip_base: 0,
                sprites_per_frame: 0,
                cells_per_sprite: 0,
                width: 0,
                height: 0,
                dur_ms: 0,
            };
        }
        expected = expected + cached.width as u32 * cached.height as u32;
        idx += 1;
    }
    AnimBlockInfo {
        frames: phases.len() as u32,
        strip_base: base,
        sprites_per_frame: if stride < 1 {
            1
        } else {
            stride
        },
        cells_per_sprite,
        width: first.width,
        height: first.height,
        dur_ms: resolve_dur_ms(phases),
    }
}

/// The sprite drawn for index `i` of an item type's sprites: that one, or
/// the first when there are fewer.
pub open spec fn spec_pick_sprite(ids: Seq<u32>, i: int) -> Option<u32> {
    if 0 <= i < ids.len() {
        Some(ids[i])
    } else if ids.len() > 0 {
        Some(ids[0])
    } else {
        None
    }
}

pub fn pick_sprite(sprite_ids: &Vec<u32>, index: usize) -> (r: Option<u32>)
    ensures
        r == spec_pick_sprite(sprite_ids@, index as int),
{
    if index < sprite_ids.len() {
        Some(sprite_ids[index])
    } else if sprite_ids.len() > 0 {
        Some(sprite_ids[0])
    } else {
        None
    }
}

/// How an animated item at sprite index `i` is drawn from its strip: its
/// block and the blocks between two phases, when the strip was built and
/// that distance fits in 16 bits; else it is drawn still.
pub open spec fn spec_animated_layer(b: AnimBlockInfo, i: int) -> Option<(u32, u32)> {
    let step = b.sprites_per_frame * b.cells_per_sprite;
    if b.frames > 0 && step <= 0xffff {
        Some(((b.strip_base + i * b.cells_per_sprite) as u32, step as u32))
    } else {
        None
    }
}

pub fn animated_layer(block: &AnimBlockInfo, sprite_index: u32) -> (r: Option<(u32, u32)>)
    requires
        block.frames > 0 ==> block.sprites_per_frame * block.cells_per_sprite <= u32::MAX,
        block.frames > 0 && block.sprites_per_frame * block.cells_per_sprite <= 0xffff ==> block.strip_base
            + sprite_index * block.cells_per_sprite <= u32::MAX,
    ensures
        r == spec_animated_layer(*block, sprite_index as int),
{
    if block.frames > 0 {
        let step = block.sprites_per_frame * block.cells_per_sprite;
        if step <= 0xffff {
            assert(sprite_index * block.cells_per_sprite <= block.strip_base + sprite_index
                * block.cells_per_sprite) by (nonlinear_arith)
                requires
                    block.strip_base >= 0,
            ;
            return Some((block.strip_base + sprite_index * block.cells_per_sprite, step));
        }
    }
    None
}

} // verus!
