//! The item types of the editor, as the client's appearances define them,
//! and the table that holds them by id.

use vstd::prelude::*;

verus! {

// ---------------------------------------------------------------------------
// Item types
// ---------------------------------------------------------------------------

#[derive(Debug, Clone, Copy, PartialEq, Eq, Structural, Default)]
pub enum ItemGroup {
    #[default]
    None_,
    Ground,
    Container,
    Fluid,
    Splash,
}

#[derive(Debug, Clone, Copy, PartialEq, Eq, Structural, Default)]
pub enum ItemHook {
    #[default]
    None_,
    South,
    East,
}

/// The `GameSprite` metadata that the renderer needs (draw height and
/// offset, light, minimap colour), with no GPU dependency.
#[derive(Debug, Clone, Copy, Default)]
pub struct SpriteMeta {
    pub draw_height: u16,
    pub draw_offset: (i32, i32),
    pub minimap_color: u16,
    pub has_light: bool,
    pub light_color: u32,
    pub light_intensity: u32,
}

#[derive(Debug, Clone)]
pub struct ItemType {
    pub id: u16,
    pub client_id: u16,
    pub name: String,
    pub description: String,
    pub group: ItemGroup,
    /// flag `container` gives `type = ITEM_TYPE_CONTAINER`.
    pub is_container: bool,
    pub always_on_bottom: bool,
    pub always_on_top_order: u8,
    pub pattern_width: u32,
    pub pattern_height: u32,
    pub pattern_depth: u32,
    pub layers: u32,
    /// `spriteInfo.sprite_id(0)`, the main sprite.
    pub sprite_id: u32,
    /// All sprite ids in file order (patterns and animation).
    pub sprite_ids: Vec<u32>,
    pub start_frame: i8,
    pub loop_count: u32,
    pub async_animation: bool,
    pub animation_phases: Vec<(u32, u32)>,
    pub no_move_animation: bool,
    pub is_corpse: bool,
    pub force_use: bool,
    pub has_height: bool,
    pub unpassable: bool,
    pub block_missiles: bool,
    pub block_pathfinder: bool,
    pub pickupable: bool,
    pub moveable: bool,
    pub can_read_text: bool,
    pub is_hangable: bool,
    pub stackable: bool,
    pub is_podium: bool,
    pub rotable: bool,
    pub ignore_look: bool,
    pub has_elevation: bool,
    pub hook: ItemHook,
    pub sprite: SpriteMeta,
}

#[verifier::ext_equal]
pub struct ItemTypeView {
    pub id: u16,
    pub client_id: u16,
    pub name: Seq<char>,
    pub description: Seq<char>,
    pub group: ItemGroup,
    pub is_container: bool,
    pub always_on_bottom: bool,
    pub always_on_top_order: u8,
    pub pattern_width: u32,
    pub pattern_height: u32,
    pub pattern_depth: u32,
    pub layers: u32,
    pub sprite_id: u32,
    pub sprite_ids: Seq<u32>,
    pub start_frame: i8,
    pub loop_count: u32,
    pub async_animation: bool,
    pub animation_phases: Seq<(u32, u32)>,
    pub no_move_animation: bool,
    pub is_corpse: bool,
    pub force_use: bool,
    pub has_height: bool,
    pub unpassable: bool,
    pub block_missiles: bool,
    pub block_pathfinder: bool,
    pub pickupable: bool,
    pub moveable: bool,
    pub can_read_text: bool,
    pub is_hangable: bool,
    pub stackable: bool,
    pub is_podium: bool,
    pub rotable: bool,
    pub ignore_look: bool,
    pub has_elevation: bool,
    pub hook: ItemHook,
    pub sprite: SpriteMeta,
}

impl View for ItemType {
    type V = ItemTypeView;

    open spec fn view(&self) -> ItemTypeView {
        ItemTypeView {
            id: self.id,
            client_id: self.client_id,
            name: self.name@,
            description: self.description@,
            group: self.group,
            is_container: self.is_container,
            always_on_bottom: self.always_on_bottom,
            always_on_top_order: self.always_on_top_order,
            pattern_width: self.pattern_width,
            pattern_height: self.pattern_height,
            pattern_depth: self.pattern_depth,
            layers: self.layers,
            sprite_id: self.sprite_id,
            sprite_ids: self.sprite_ids@,
            start_frame: self.start_frame,
            loop_count: self.loop_count,
            async_animation: self.async_animation,
            animation_phases: self.animation_phases@,
            no_move_animation: self.no_move_animation,
            is_corpse: self.is_corpse,
            force_use: self.force_use,
            has_height: self.has_height,
            unpassable: self.unpassable,
            block_missiles: self.block_missiles,
            block_pathfinder: self.block_pathfinder,
            pickupable: self.pickupable,
            moveable: self.moveable,
            can_read_text: self.can_read_text,
            is_hangable: self.is_hangable,
            stackable: self.stackable,
            is_podium: self.is_podium,
            rotable: self.rotable,
            ignore_look: self.ignore_look,
            has_elevation: self.has_elevation,
            hook: self.hook,
            sprite: self.sprite,
        }
    }
}

pub open spec fn no_sprite_meta() -> SpriteMeta {
    SpriteMeta {
        draw_height: 0,
        draw_offset: (0, 0),
        minimap_color: 0,
        has_light: false,
        light_color: 0,
        light_intensity: 0,
    }
}

/// The empty item type: what an unknown id stands for (everything unset,
/// but movable).
pub open spec fn empty_item_type() -> ItemTypeView {
    ItemTypeView {
        id: 0,
        client_id: 0,
        name: Seq::empty(),
        description: Seq::empty(),
        group: ItemGroup::None_,
        is_container: false,
        always_on_bottom: false,
        always_on_top_order: 0,
        pattern_width: 0,
        pattern_height: 0,
        pattern_depth: 0,
        layers: 0,
        sprite_id: 0,
        sprite_ids: Seq::empty(),
        start_frame: 0,
        loop_count: 0,
        async_animation: false,
        animation_phases: Seq::empty(),
        no_move_animation: false,
        is_corpse: false,
        force_use: false,
        has_height: false,
        unpassable: false,
        block_missiles: false,
        block_pathfinder: false,
        pickupable: false,
        moveable: true,
        can_read_text: false,
        is_hangable: false,
        stackable: false,
        is_podium: false,
        rotable: false,
        ignore_look: false,
        has_elevation: false,
        hook: ItemHook::None_,
        sprite: no_sprite_meta(),
    }
}

impl Default for ItemType {
    fn default() -> (t: Self)
        ensures
            t@ == empty_item_type(),
    {
        let t = ItemType {
            id: 0,
            client_id: 0,
            name: String::new(),
            description: String::new(),
            group: ItemGroup::None_,
            is_container: false,
            always_on_bottom: false,
            always_on_top_order: 0,
            pattern_width: 0,
            pattern_height: 0,
            pattern_depth: 0,
            layers: 0,
            sprite_id: 0,
            sprite_ids: Vec::new(),
            start_frame: 0,
            loop_count: 0,
            async_animation: false,
            animation_phases: Vec::new(),
            no_move_animation: false,
            is_corpse: false,
            force_use: false,
            has_height: false,
            unpassable: false,
            block_missiles: false,
            block_pathfinder: false,
            pickupable: false,
            moveable: true,
            can_read_text: false,
            is_hangable: false,
            stackable: false,
            is_podium: false,
            rotable: false,
            ignore_look: false,
            has_elevation: false,
            hook: ItemHook::None_,
            sprite: SpriteMeta {
                draw_height: 0,
                draw_offset: (0, 0),
                minimap_color: 0,
                has_light: false,
                light_color: 0,
                light_intensity: 0,
            },
        };
        assert(t@ =~= empty_item_type());
        t
    }
}


pub open spec fn max1(x: int) -> int {
    if x < 1 {
        1
    } else {
        x
    }
}

/// The sprite count that a `GameSprite` expects: layers times the three
/// pattern sizes times the number of animation phases (at least one).
pub open spec fn spec_numsprites(t: ItemTypeView) -> int {
    t.layers * t.pattern_width * t.pattern_height * t.pattern_depth * max1(t.animation_phases.len() as int)
}

/// The products that `numsprites` forms, left to right, fit in `usize`.
pub open spec fn numsprites_fits(t: ItemTypeView) -> bool {
    &&& t.layers * t.pattern_width <= usize::MAX
    &&& t.layers * t.pattern_width * t.pattern_height <= usize::MAX
    &&& t.layers * t.pattern_width * t.pattern_height * t.pattern_depth <= usize::MAX
    &&& spec_numsprites(t) <= usize::MAX
}

/// The number of distinct indices that `sprite_index` can give: phases,
/// depth, height, width and layers, each counted as at least one.
pub open spec fn sprite_index_space(t: ItemTypeView) -> int {
    max1(t.animation_phases.len() as int) * max1(t.pattern_depth as int) * max1(t.pattern_height as int)
        * max1(t.pattern_width as int) * max1(t.layers as int)
}

/// The index in `sprite_ids` of a pattern, in the order the client draws
/// them (frame, then z, y, x, then layer); each coordinate wraps at its size
/// (sizes below 1 count as 1).
pub open spec fn spec_sprite_index(t: ItemTypeView, phase: u32, px: u32, py: u32, pz: u32, layer: u32) -> int {
    let frame = (phase as int) % max1(t.animation_phases.len() as int);
    let fx = max1(t.pattern_width as int);
    let fy = max1(t.pattern_height as int);
    let fz = max1(t.pattern_depth as int);
    let layers = max1(t.layers as int);
    ((((frame * fz) + (pz as int) % fz) * fy + (py as int) % fy) * fx + (px as int) % fx) * layers + (layer as int) % layers
}

proof fn lemma_mul_grows(a: int, b: int)
    requires
        0 <= a,
        1 <= b,
    ensures
        a <= a * b,
{
    assert(a <= a * b) by (nonlinear_arith)
        requires
            0 <= a,
            1 <= b,
    ;
}

proof fn lemma_mixed_radix(a: int, b: int, big_a: int, big_b: int)
    requires
        0 <= a < big_a,
        0 <= b < big_b,
    ensures
        0 <= a * big_b + b < big_a * big_b,
        0 <= a * big_b,
{
    assert(a * big_b <= (big_a - 1) * big_b) by (nonlinear_arith)
        requires
            0 <= a <= big_a - 1,
            0 < big_b,
    ;
    assert((big_a - 1) * big_b + big_b == big_a * big_b) by (nonlinear_arith);
    assert(0 <= a * big_b) by (nonlinear_arith)
        requires
            0 <= a,
            0 < big_b,
    ;
}

/// Each partial product of the mixed-radix index stays between zero and the
/// full index, which stays below the size of the space.
pub(crate) proof fn lemma_sprite_index_bounds(
    frame: int, zi: int, yi: int, xi: int, li: int,
    n: int, fz: int, fy: int, fx: int, layers: int,
)
    requires
        0 <= frame < n,
        0 <= zi < fz,
        0 <= yi < fy,
        0 <= xi < fx,
        0 <= li < layers,
    ensures
        0 <= frame * fz <= frame * fz + zi <= (frame * fz + zi) * fy <= (frame * fz + zi) * fy + yi
            <= ((frame * fz + zi) * fy + yi) * fx <= ((frame * fz + zi) * fy + yi) * fx + xi
            <= (((frame * fz + zi) * fy + yi) * fx + xi) * layers
            <= (((frame * fz + zi) * fy + yi) * fx + xi) * layers + li < n * fz * fy * fx * layers,
{
    let a = frame * fz + zi;
    let b = a * fy + yi;
    let c = b * fx + xi;
    lemma_mixed_radix(frame, zi, n, fz);
    lemma_mixed_radix(a, yi, n * fz, fy);
    lemma_mixed_radix(b, xi, n * fz * fy, fx);
    lemma_mixed_radix(c, li, n * fz * fy * fx, layers);
    lemma_mul_grows(a, fy);
    lemma_mul_grows(b, fx);
    lemma_mul_grows(c, layers);
}

/// `(((frame * fz + zi) * fy + yi) * fx + xi) * layers + li`, each digit
/// below its radix.
fn mixed_radix_index(
    frame: usize, zi: usize, yi: usize, xi: usize, li: usize,
    n: usize, fz: usize, fy: usize, fx: usize, layers: usize,
) -> (i: usize)
    requires
        frame < n,
        zi < fz,
        yi < fy,
        xi < fx,
        li < layers,
        n * fz * fy * fx * layers <= usize::MAX,
    ensures
        i == (((frame * fz + zi) * fy + yi) * fx + xi) * layers + li,
        i < n * fz * fy * fx * layers,
{
    proof {
        lemma_sprite_index_bounds(
            frame as int, zi as int, yi as int, xi as int, li as int,
            n as int, fz as int, fy as int, fx as int, layers as int,
        );
    }
    (((frame * fz + zi) * fy + yi) * fx + xi) * layers + li
}

/// For an item type whose layer and pattern counts are at least one, a
/// sprite index is below `numsprites`, and it repeats with the period of
/// each coordinate: the phase, the pattern coordinates and the layer wrap
/// at their counts.
pub proof fn lemma_sprite_index_in_numsprites(t: ItemTypeView, phase: u32, px: u32, py: u32, pz: u32, layer: u32)
    requires
        t.layers >= 1,
        t.pattern_width >= 1,
        t.pattern_height >= 1,
        t.pattern_depth >= 1,
    ensures
        0 <= spec_sprite_index(t, phase, px, py, pz, layer) < spec_numsprites(t),
        spec_sprite_index(t, phase, px, py, pz, layer) == spec_sprite_index(
            t,
            (phase as int % max1(t.animation_phases.len() as int)) as u32,
            px % t.pattern_width,
            py % t.pattern_height,
            pz % t.pattern_depth,
            layer % t.layers,
        ),
{
    let n = max1(t.animation_phases.len() as int);
    let (l, w, h, d) = (t.layers as int, t.pattern_width as int, t.pattern_height as int, t.pattern_depth as int);
    lemma_sprite_index_bounds(phase as int % n, pz as int % d, py as int % h, px as int % w, layer as int % l, n, d, h, w, l);
    assert(n * d * h * w * l == l * w * h * d * n) by (nonlinear_arith);
    vstd::arithmetic::div_mod::lemma_mod_twice(phase as int, n);
    vstd::arithmetic::div_mod::lemma_mod_decreases(phase as nat, n as nat);
    let p2 = (phase as int % n) as u32;
    assert(p2 as int == phase as int % n);
    assert((p2 as int) % n == phase as int % n);
    vstd::arithmetic::div_mod::lemma_mod_twice(px as int, w);
    vstd::arithmetic::div_mod::lemma_mod_twice(py as int, h);
    vstd::arithmetic::div_mod::lemma_mod_twice(pz as int, d);
    vstd::arithmetic::div_mod::lemma_mod_twice(layer as int, l);
}

proof fn lemma_mixed_radix_injective(a1: int, b1: int, a2: int, b2: int, big_b: int)
    requires
        0 <= b1 < big_b,
        0 <= b2 < big_b,
        a1 * big_b + b1 == a2 * big_b + b2,
    ensures
        a1 == a2,
        b1 == b2,
{
    assert(a1 == a2 && b1 == b2) by (nonlinear_arith)
        requires
            0 <= b1 < big_b,
            0 <= b2 < big_b,
            a1 * big_b + b1 == a2 * big_b + b2,
    ;
}

/// Distinct in-range coordinates (phase, depth, height, width, layer) give
/// distinct sprite indices; with `lemma_sprite_index_onto` and the bound of
/// `lemma_sprite_index_in_numsprites`, the index runs once over
/// `0..numsprites`.
pub proof fn lemma_sprite_index_injective(
    t: ItemTypeView,
    f1: u32, x1: u32, y1: u32, z1: u32, l1: u32,
    f2: u32, x2: u32, y2: u32, z2: u32, l2: u32,
)
    requires
        f1 < max1(t.animation_phases.len() as int),
        f2 < max1(t.animation_phases.len() as int),
        x1 < t.pattern_width,
        x2 < t.pattern_width,
        y1 < t.pattern_height,
        y2 < t.pattern_height,
        z1 < t.pattern_depth,
        z2 < t.pattern_depth,
        l1 < t.layers,
        l2 < t.layers,
        spec_sprite_index(t, f1, x1, y1, z1, l1) == spec_sprite_index(t, f2, x2, y2, z2, l2),
    ensures
        f1 == f2 && x1 == x2 && y1 == y2 && z1 == z2 && l1 == l2,
{
    let n = max1(t.animation_phases.len() as int);
    let (l, w, h, d) = (t.layers as int, t.pattern_width as int, t.pattern_height as int, t.pattern_depth as int);
    vstd::arithmetic::div_mod::lemma_small_mod(f1 as nat, n as nat);
    vstd::arithmetic::div_mod::lemma_small_mod(f2 as nat, n as nat);
    vstd::arithmetic::div_mod::lemma_small_mod(x1 as nat, w as nat);
    vstd::arithmetic::div_mod::lemma_small_mod(x2 as nat, w as nat);
    vstd::arithmetic::div_mod::lemma_small_mod(y1 as nat, h as nat);
    vstd::arithmetic::div_mod::lemma_small_mod(y2 as nat, h as nat);
    vstd::arithmetic::div_mod::lemma_small_mod(z1 as nat, d as nat);
    vstd::arithmetic::div_mod::lemma_small_mod(z2 as nat, d as nat);
    vstd::arithmetic::div_mod::lemma_small_mod(l1 as nat, l as nat);
    vstd::arithmetic::div_mod::lemma_small_mod(l2 as nat, l as nat);
    let a1 = ((f1 as int * d + z1) * h + y1) * w + x1;
    let a2 = ((f2 as int * d + z2) * h + y2) * w + x2;
    lemma_mixed_radix_injective(a1, l1 as int, a2, l2 as int, l);
    let b1 = (f1 as int * d + z1) * h + y1;
    let b2 = (f2 as int * d + z2) * h + y2;
    lemma_mixed_radix_injective(b1, x1 as int, b2, x2 as int, w);
    let c1 = f1 as int * d + z1;
    let c2 = f2 as int * d + z2;
    lemma_mixed_radix_injective(c1, y1 as int, c2, y2 as int, h);
    lemma_mixed_radix_injective(f1 as int, z1 as int, f2 as int, z2 as int, d);
}

proof fn lemma_split(a: int, b: int) -> (qr: (int, int))
    requires
        a >= 0,
        b >= 1,
    ensures
        qr.0 >= 0,
        0 <= qr.1 < b,
        a == qr.0 * b + qr.1,
        qr.0 == a / b,
        qr.1 == a % b,
{
    vstd::arithmetic::div_mod::lemma_fundamental_div_mod(a, b);
    vstd::arithmetic::div_mod::lemma_mod_bound(a, b);
    vstd::arithmetic::div_mod::lemma_div_pos_is_pos(a, b);
    assert(a == b * (a / b) + a % b);
    assert(b * (a / b) == (a / b) * b) by (nonlinear_arith);
    (a / b, a % b)
}

/// Every index below `numsprites` is the sprite index of some in-range
/// coordinates: with `lemma_sprite_index_injective`, the sprite index is a
/// one-to-one map of the in-range coordinates onto `0..numsprites`.
pub proof fn lemma_sprite_index_onto(t: ItemTypeView, k: int) -> (c: (u32, u32, u32, u32, u32))
    requires
        t.layers >= 1,
        t.pattern_width >= 1,
        t.pattern_height >= 1,
        t.pattern_depth >= 1,
        max1(t.animation_phases.len() as int) <= u32::MAX,
        0 <= k < spec_numsprites(t),
    ensures
        c.0 < max1(t.animation_phases.len() as int),
        c.1 < t.pattern_width,
        c.2 < t.pattern_height,
        c.3 < t.pattern_depth,
        c.4 < t.layers,
        spec_sprite_index(t, c.0, c.1, c.2, c.3, c.4) == k,
{
    let n = max1(t.animation_phases.len() as int);
    let (l, w, h, d) = (t.layers as int, t.pattern_width as int, t.pattern_height as int, t.pattern_depth as int);
    let (q1, li) = lemma_split(k, l);
    let (q2, xi) = lemma_split(q1, w);
    let (q3, yi) = lemma_split(q2, h);
    let (f, zi) = lemma_split(q3, d);
    assert(k == (((f * d + zi) * h + yi) * w + xi) * l + li) by (nonlinear_arith)
        requires
            k == q1 * l + li,
            q1 == q2 * w + xi,
            q2 == q3 * h + yi,
            q3 == f * d + zi,
    ;
    assert(f < n) by (nonlinear_arith)
        requires
            k == (((f * d + zi) * h + yi) * w + xi) * l + li,
            k < l * w * h * d * n,
            f >= 0,
            0 <= zi,
            0 <= yi,
            0 <= xi,
            0 <= li,
            l >= 1,
            w >= 1,
            h >= 1,
            d >= 1,
    ;
    let c = (f as u32, xi as u32, yi as u32, zi as u32, li as u32);
    vstd::arithmetic::div_mod::lemma_small_mod(f as nat, n as nat);
    vstd::arithmetic::div_mod::lemma_small_mod(xi as nat, w as nat);
    vstd::arithmetic::div_mod::lemma_small_mod(yi as nat, h as nat);
    vstd::arithmetic::div_mod::lemma_small_mod(zi as nat, d as nat);
    vstd::arithmetic::div_mod::lemma_small_mod(li as nat, l as nat);
    c
}

impl ItemType {
    /// The number of sprites of the item's graphics: layers times the three
    /// pattern sizes times the number of phases (at least one).
    pub fn numsprites(&self) -> (n: usize)
        requires
            numsprites_fits(self@),
        ensures
            n == spec_numsprites(self@),
    {
        let phases = if self.animation_phases.len() > 1 {
            self.animation_phases.len()
        } else {
            1
        };
        let a = (self.layers as usize) * (self.pattern_width as usize);
        let b = a * (self.pattern_height as usize);
        let c = b * (self.pattern_depth as usize);
        c * phases
    }

    /// The index in `sprite_ids` of a pattern (frame, z, y, x, layer).
    pub fn sprite_index(&self, phase: u32, px: u32, py: u32, pz: u32, layer: u32) -> (i: usize)
        requires
            sprite_index_space(self@) <= usize::MAX,
        ensures
            i == spec_sprite_index(self@, phase, px, py, pz, layer),
            i < sprite_index_space(self@),
    {
        let n = if self.animation_phases.len() > 1 {
            self.animation_phases.len()
        } else {
            1
        };
        let frame = (phase as usize) % n;
        let fx = if self.pattern_width > 1 {
            self.pattern_width as usize
        } else {
            1
        };
        let fy = if self.pattern_height > 1 {
            self.pattern_height as usize
        } else {
            1
        };
        let fz = if self.pattern_depth > 1 {
            self.pattern_depth as usize
        } else {
            1
        };
        let layers = if self.layers > 1 {
            self.layers as usize
        } else {
            1
        };
        let xi = px as usize % fx;
        let yi = py as usize % fy;
        let zi = pz as usize % fz;
        let li = layer as usize % layers;
        proof {
            assert(n * fz * fy * fx * layers == sprite_index_space(self@));
        }
        mixed_radix_index(frame, zi, yi, xi, li, n, fz, fy, fx, layers)
    }

    pub fn is_ground_tile(&self) -> (b: bool)
        ensures
            b == (self.group == ItemGroup::Ground),
    {
        self.group == ItemGroup::Ground
    }

    pub fn draw_height(&self) -> (h: u16)
        ensures
            h == self.sprite.draw_height,
    {
        self.sprite.draw_height
    }

    pub fn draw_offset(&self) -> (o: (i32, i32))
        ensures
            o == self.sprite.draw_offset,
    {
        self.sprite.draw_offset
    }

    pub fn has_light(&self) -> (b: bool)
        ensures
            b == self.sprite.has_light,
    {
        self.sprite.has_light
    }
}

pub(crate) fn copy_u32s(v: &Vec<u32>) -> (r: Vec<u32>)
    ensures
        r@ == v@,
{
    let mut r = Vec::new();
    let mut i: usize = 0;
    while i < v.len()
        invariant
            i <= v@.len(),
            r@ == v@.subrange(0, i as int),
        decreases v@.len() - i,
    {
        r.push(v[i]);
        i += 1;
        assert(r@ =~= v@.subrange(0, i as int));
    }
    assert(v@.subrange(0, v@.len() as int) =~= v@);
    r
}

pub(crate) fn copy_pairs(v: &Vec<(u32, u32)>) -> (r: Vec<(u32, u32)>)
    ensures
        r@ == v@,
{
    let mut r = Vec::new();
    let mut i: usize = 0;
    while i < v.len()
        invariant
            i <= v@.len(),
            r@ == v@.subrange(0, i as int),
        decreases v@.len() - i,
    {
        r.push(v[i]);
        i += 1;
        assert(r@ =~= v@.subrange(0, i as int));
    }
    assert(v@.subrange(0, v@.len() as int) =~= v@);
    r
}

/// A copy of an item type, field for field.
#[verifier::rlimit(40)]
fn copy_item_type(t: &ItemType) -> (r: ItemType)
    ensures
        r@ == t@,
{
    let r = ItemType {
        id: t.id,
        client_id: t.client_id,
        name: t.name.clone(),
        description: t.description.clone(),
        group: t.group,
        is_container: t.is_container,
        always_on_bottom: t.always_on_bottom,
        always_on_top_order: t.always_on_top_order,
        pattern_width: t.pattern_width,
        pattern_height: t.pattern_height,
        pattern_depth: t.pattern_depth,
        layers: t.layers,
        sprite_id: t.sprite_id,
        sprite_ids: copy_u32s(&t.sprite_ids),
        start_frame: t.start_frame,
        loop_count: t.loop_count,
        async_animation: t.async_animation,
        animation_phases: copy_pairs(&t.animation_phases),
        no_move_animation: t.no_move_animation,
        is_corpse: t.is_corpse,
        force_use: t.force_use,
        has_height: t.has_height,
        unpassable: t.unpassable,
        block_missiles: t.block_missiles,
        block_pathfinder: t.block_pathfinder,
        pickupable: t.pickupable,
        moveable: t.moveable,
        can_read_text: t.can_read_text,
        is_hangable: t.is_hangable,
        stackable: t.stackable,
        is_podium: t.is_podium,
        rotable: t.rotable,
        ignore_look: t.ignore_look,
        has_elevation: t.has_elevation,
        hook: t.hook,
        sprite: t.sprite,
    };
    assert(r@ =~= t@);
    r
}

/// The item table, indexed by `id`.
#[derive(Debug, Clone, Default)]
pub struct ItemTypeTable {
    pub items: Vec<Option<ItemType>>,
    pub max_item_id: u16,
}

pub open spec fn view_entry(o: Option<ItemType>) -> Option<ItemTypeView> {
    match o {
        Some(t) => Some(t@),
        None => None,
    }
}

#[verifier::ext_equal]
pub struct ItemTypeTableView {
    pub items: Seq<Option<ItemTypeView>>,
    pub max_item_id: u16,
}

impl View for ItemTypeTable {
    type V = ItemTypeTableView;

    open spec fn view(&self) -> ItemTypeTableView {
        ItemTypeTableView {
            items: self.items@.map_values(|o: Option<ItemType>| view_entry(o)),
            max_item_id: self.max_item_id,
        }
    }
}

impl ItemTypeTableView {
    /// The item type registered under `id`, if any.
    pub open spec fn lookup(self, id: u16) -> Option<ItemTypeView> {
        if (id as int) < self.items.len() {
            self.items[id as int]
        } else {
            None
        }
    }
}

impl ItemTypeTable {
    pub fn get_opt(&self, id: u16) -> (r: Option<&ItemType>)
        ensures
            r is Some == self@.lookup(id) is Some,
            r matches Some(t) ==> self@.lookup(id) == Some(t@),
    {
        let i = id as usize;
        if i < self.items.len() {
            match &self.items[i] {
                Some(t) => Some(t),
                None => None,
            }
        } else {
            None
        }
    }

    /// The item type of `id`; an unknown id gives the empty item type.
    pub fn get(&self, id: u16) -> (t: ItemType)
        ensures
            t@ == (match self@.lookup(id) {
                Some(v) => v,
                None => empty_item_type(),
            }),
    {
        match self.get_opt(id) {
            Some(t) => copy_item_type(t),
            None => ItemType::default(),
        }
    }

    pub fn is_valid(&self, id: u16) -> (b: bool)
        ensures
            b == self@.lookup(id) is Some,
    {
        self.get_opt(id).is_some()
    }
}

} // verus!
