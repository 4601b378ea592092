//! The pieces from which an `ItemType` is assembled: the sprite layout that
//! the frame groups of an appearance give, and the sprite metadata and hook
//! that its flags give.

use vstd::prelude::*;
use crate::appearances::{Appearance, AppearanceFlags, FrameGroupView, SpriteInfo, SpriteInfoView};
use crate::item_types::{ItemHook, SpriteMeta, copy_pairs, copy_u32s};

verus! {

/// A proto2 boolean that is present and true.
pub open spec fn is_true(o: Option<bool>) -> bool {
    o == Some(true)
}

pub(crate) fn opt_true(o: Option<bool>) -> (b: bool)
    ensures
        b == is_true(o),
{
    match o {
        Some(v) => v,
        None => false,
    }
}

/// The sprite layout of an item type: pattern sizes, layers, sprite ids and
/// animation.
pub struct Frames {
    pub pattern_width: u32,
    pub pattern_height: u32,
    pub pattern_depth: u32,
    pub layers: u32,
    pub sprite_id: u32,
    pub sprite_ids: Vec<u32>,
    pub start_frame: i8,
    pub loop_count: u32,
    pub async_animation: bool,
    pub animation_phases: Vec<(u32, u32)>,
}

#[verifier::ext_equal]
pub struct FramesView {
    pub pattern_width: u32,
    pub pattern_height: u32,
    pub pattern_depth: u32,
    pub layers: u32,
    pub sprite_id: u32,
    pub sprite_ids: Seq<u32>,
    pub start_frame: i8,
    pub loop_count: u32,
    pub async_animation: bool,
    pub animation_phases: Seq<(u32, u32)>,
}

impl View for Frames {
    type V = FramesView;

    open spec fn view(&self) -> FramesView {
        FramesView {
            pattern_width: self.pattern_width,
            pattern_height: self.pattern_height,
            pattern_depth: self.pattern_depth,
            layers: self.layers,
            sprite_id: self.sprite_id,
            sprite_ids: self.sprite_ids@,
            start_frame: self.start_frame,
            loop_count: self.loop_count,
            async_animation: self.async_animation,
            animation_phases: self.animation_phases@,
        }
    }
}

/// The layout of an appearance without frame groups: everything zero.
pub open spec fn no_frames() -> FramesView {
    FramesView {
        pattern_width: 0,
        pattern_height: 0,
        pattern_depth: 0,
        layers: 0,
        sprite_id: 0,
        sprite_ids: Seq::empty(),
        start_frame: 0,
        loop_count: 0,
        async_animation: false,
        animation_phases: Seq::empty(),
    }
}

/// What the sprite info of one frame group sets: the pattern sizes, the
/// layers and the sprite ids (the first one, or 0, being the main sprite);
/// an animation with phases sets the animation fields too, otherwise they
/// keep their value.
pub open spec fn frames_step(fr: FramesView, si: SpriteInfoView) -> FramesView {
    let animated = match si.animation {
        Some(a) => a.sprite_phases.len() > 0,
        None => false,
    };
    let a = si.animation->0;
    FramesView {
        pattern_width: si.pattern_width,
        pattern_height: si.pattern_height,
        pattern_depth: si.pattern_depth,
        layers: si.layers,
        sprite_id: if si.sprite_ids.len() > 0 {
            si.sprite_ids[0]
        } else {
            0
        },
        sprite_ids: si.sprite_ids,
        start_frame: if animated {
            a.default_start_phase as i8
        } else {
            fr.start_frame
        },
        loop_count: if animated {
            a.loop_count
        } else {
            fr.loop_count
        },
        async_animation: if animated {
            !a.synchronized
        } else {
            fr.async_animation
        },
        animation_phases: if animated {
            a.sprite_phases
        } else {
            fr.animation_phases
        },
    }
}

/// The frame groups taken in order; groups without sprite info are skipped.
#[verifier::opaque]
pub open spec fn frames_of(gs: Seq<FrameGroupView>) -> FramesView
    decreases gs.len(),
{
    if gs.len() == 0 {
        no_frames()
    } else {
        let fr = frames_of(gs.drop_last());
        match gs.last().sprite_info {
            Some(si) => frames_step(fr, si),
            None => fr,
        }
    }
}

fn frame_step(fr: Frames, si: &SpriteInfo) -> (r: Frames)
    ensures
        r@ == frames_step(fr@, si@),
{
    let mut fr = fr;
    fr.pattern_width = si.pattern_width;
    fr.pattern_height = si.pattern_height;
    fr.pattern_depth = si.pattern_depth;
    fr.layers = si.layers;
    match &si.animation {
        Some(anim) => {
            if anim.sprite_phases.len() > 0 {
                fr.start_frame = anim.default_start_phase as i8;
                fr.loop_count = anim.loop_count;
                fr.async_animation = !anim.synchronized;
                fr.animation_phases = copy_pairs(&anim.sprite_phases);
            }
        },
        None => {},
    }
    fr.sprite_id = if si.sprite_ids.len() > 0 {
        si.sprite_ids[0]
    } else {
        0
    };
    fr.sprite_ids = copy_u32s(&si.sprite_ids);
    fr
}

/// The sprite layout that the frame groups of an appearance give.
pub(crate) fn frames_for(object: &Appearance) -> (fr: Frames)
    ensures
        fr@ == frames_of(object@.frame_groups),
{
    let groups = &object.frame_groups;
    let ghost gs = object@.frame_groups;
    let mut fr = Frames {
        pattern_width: 0,
        pattern_height: 0,
        pattern_depth: 0,
        layers: 0,
        sprite_id: 0,
        sprite_ids: Vec::new(),
        start_frame: 0,
        loop_count: 0,
        async_animation: false,
        animation_phases: Vec::new(),
    };
    assert(gs.take(0).len() == 0);
    assert(fr@ == frames_of(gs.take(0))) by {
        reveal_with_fuel(frames_of, 1);
    }
    let mut j: usize = 0;
    while j < groups.len()
        invariant
            j <= groups@.len(),
            gs == object@.frame_groups,
            gs.len() == groups@.len(),
            groups == &object.frame_groups,
            fr@ == frames_of(gs.take(j as int)),
        decreases groups@.len() - j,
    {
        assert(gs.take(j + 1).drop_last() =~= gs.take(j as int));
        reveal_with_fuel(frames_of, 1);
        assert(gs.take(j + 1).last() == groups@[j as int]@);
        match &groups[j].sprite_info {
            Some(si) => {
                fr = frame_step(fr, si);
            },
            None => {},
        }
        j += 1;
    }
    assert(gs.take(groups@.len() as int) =~= gs);
    fr
}

/// The sprite metadata that the flags give: the draw height (0 without the
/// flag), and the offset, minimap colour and light where their flag is
/// present (else zero and no light).
pub open spec fn flag_sprite(m: SpriteMeta, f: AppearanceFlags) -> SpriteMeta {
    SpriteMeta {
        draw_height: match f.height {
            Some(h) => h as u16,
            None => 0,
        },
        draw_offset: match f.shift {
            Some(p) => (p.0 as i32, p.1 as i32),
            None => m.draw_offset,
        },
        minimap_color: match f.automap {
            Some(c) => c as u16,
            None => m.minimap_color,
        },
        has_light: if f.light is Some {
            true
        } else {
            m.has_light
        },
        light_color: match f.light {
            Some(p) => p.1,
            None => m.light_color,
        },
        light_intensity: match f.light {
            Some(p) => p.0,
            None => m.light_intensity,
        },
    }
}

/// The hook position of the `hook` flag (1 is south, any other value east).
pub open spec fn flag_hook(f: AppearanceFlags) -> ItemHook {
    match f.hook {
        Some(h) => if h == 1 {
            ItemHook::South
        } else {
            ItemHook::East
        },
        None => ItemHook::None_,
    }
}

pub(crate) fn apply_flag_sprite(flags: &AppearanceFlags) -> (r: SpriteMeta)
    ensures
        r == flag_sprite(crate::item_types::no_sprite_meta(), *flags),
{
    let draw_height: u16 = match flags.height {
        Some(h) => h as u16,
        None => 0,
    };
    let draw_offset = match flags.shift {
        Some((x, y)) => (x as i32, y as i32),
        None => (0, 0),
    };
    let minimap_color: u16 = match flags.automap {
        Some(color) => color as u16,
        None => 0,
    };
    let (has_light, light_color, light_intensity) = match flags.light {
        Some((brightness, color)) => (true, color, brightness),
        None => (false, 0u32, 0u32),
    };
    SpriteMeta { draw_height, draw_offset, minimap_color, has_light, light_color, light_intensity }
}

pub(crate) fn apply_flag_hook(flags: &AppearanceFlags) -> (h: ItemHook)
    ensures
        h == flag_hook(*flags),
{
    match flags.hook {
        Some(h) => if h == 1 {
            ItemHook::South
        } else {
            ItemHook::East
        },
        None => ItemHook::None_,
    }
}

} // verus!
