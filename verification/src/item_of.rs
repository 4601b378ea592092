//! The item type that one appearance defines, assembled from its id, its
//! names, the sprite layout of its frame groups and its flags.

use vstd::prelude::*;
use crate::appearances::{Appearance, AppearanceFlags};
use crate::item_assembly::{Frames, apply_flag_hook, apply_flag_sprite, frames_for, is_true, opt_true};
use crate::item_loader::{assembled, group_of, spec_item_type};
use crate::item_types::{ItemGroup, ItemType};

verus! {

pub(crate) fn group_for(flags: &AppearanceFlags) -> (g: ItemGroup)
    ensures
        g == group_of(*flags),
{
    if opt_true(flags.container) {
        ItemGroup::Container
    } else if flags.has_bank() {
        ItemGroup::Ground
    } else if opt_true(flags.liquidcontainer) {
        ItemGroup::Fluid
    } else if opt_true(flags.liquidpool) {
        ItemGroup::Splash
    } else {
        ItemGroup::None_
    }
}

/// The stacking order of an always-on-bottom item: clip 1, bottom 2, top 3,
/// otherwise 0.
pub open spec fn top_order(f: AppearanceFlags) -> u8 {
    if is_true(f.clip) {
        1
    } else if is_true(f.top) {
        3
    } else if is_true(f.bottom) {
        2
    } else {
        0
    }
}

pub(crate) fn top_order_for(flags: &AppearanceFlags) -> (o: u8)
    ensures
        o == top_order(*flags),
{
    if opt_true(flags.clip) {
        1
    } else if opt_true(flags.top) {
        3
    } else if opt_true(flags.bottom) {
        2
    } else {
        0
    }
}

pub(crate) fn on_bottom_for(flags: &AppearanceFlags) -> (b: bool)
    ensures
        b == (flags.clip is Some || flags.top is Some || flags.bottom is Some),
{
    flags.has_clip() || flags.has_top() || flags.has_bottom()
}

pub(crate) fn corpse_for(flags: &AppearanceFlags) -> (b: bool)
    ensures
        b == (is_true(flags.corpse) || is_true(flags.player_corpse)),
{
    opt_true(flags.corpse) || opt_true(flags.player_corpse)
}

pub(crate) fn readable_for(flags: &AppearanceFlags) -> (b: bool)
    ensures
        b == (flags.write is Some || flags.write_once is Some),
{
    flags.write.is_some() || flags.write_once.is_some()
}

/// The item type that one appearance with flags defines.
pub(crate) fn item_type_for(object: &Appearance, id: u32, flags: &AppearanceFlags) -> (t: ItemType)
    ensures
        t@ == spec_item_type(id, object@, *flags),
{
    let fr = frames_for(object);
    let t = assemble(id, object.name.clone(), object.description.clone(), fr, flags);
    t
}

/// The item type with the given id, names and sprite layout, and the
/// properties that the flags give.
fn assemble(id: u32, name: String, description: String, fr: Frames, flags: &AppearanceFlags) -> (t: ItemType)
    ensures
        t@ == assembled(id, name@, description@, fr@, *flags),
{
    let group = group_for(flags);
    let always_on_top_order = top_order_for(flags);
    let always_on_bottom = on_bottom_for(flags);
    let is_corpse = corpse_for(flags);
    let can_read_text = readable_for(flags);
    let hook = apply_flag_hook(flags);
    let sprite = apply_flag_sprite(flags);
    let is_container = opt_true(flags.container);
    let no_move_animation = opt_true(flags.no_movement_animation);
    let force_use = opt_true(flags.forceuse);
    let has_height = flags.has_height();
    let unpassable = opt_true(flags.unpass);
    let block_missiles = opt_true(flags.unsight);
    let block_pathfinder = opt_true(flags.avoid);
    let pickupable = opt_true(flags.take);
    let moveable = !opt_true(flags.unmove);
    let is_hangable = opt_true(flags.hang);
    let stackable = opt_true(flags.cumulative);
    let is_podium = opt_true(flags.show_off_socket);
    let rotable = opt_true(flags.rotate);
    let ignore_look = opt_true(flags.ignore_look);
    let Frames {
        pattern_width,
        pattern_height,
        pattern_depth,
        layers,
        sprite_id,
        sprite_ids,
        start_frame,
        loop_count,
        async_animation,
        animation_phases,
    } = fr;
    ItemType {
        id: id as u16,
        client_id: id as u16,
        name,
        description,
        group,
        is_container,
        always_on_bottom,
        always_on_top_order,
        pattern_width,
        pattern_height,
        pattern_depth,
        layers,
        sprite_id,
        sprite_ids,
        start_frame,
        loop_count,
        async_animation,
        animation_phases,
        no_move_animation,
        is_corpse,
        force_use,
        has_height,
        unpassable,
        block_missiles,
        block_pathfinder,
        pickupable,
        moveable,
        can_read_text,
        is_hangable,
        stackable,
        is_podium,
        rotable,
        ignore_look,
        has_elevation: has_height,
        hook,
        sprite,
    }
}

} // verus!
