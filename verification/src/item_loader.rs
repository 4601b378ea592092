//! Building the item table from the parsed appearances: each appearance
//! with flags and an id becomes the item type stored under that id.

use vstd::prelude::*;
use crate::appearances::{
    Appearance, AppearanceFlags, AppearanceView, Appearances, parse, spec_parse_appearances,
};
use crate::item_assembly::{FramesView, flag_hook, flag_sprite, frames_of, is_true};
use crate::item_of::{item_type_for, top_order};
use crate::item_types::{
    ItemGroup, ItemType, ItemTypeTable, ItemTypeTableView, ItemTypeView, no_sprite_meta, view_entry,
};

verus! {

/// The group an item falls into by its flags; the first that applies wins:
/// container, ground (bank), fluid container, liquid pool.
pub open spec fn group_of(f: AppearanceFlags) -> ItemGroup {
    if is_true(f.container) {
        ItemGroup::Container
    } else if f.bank is Some {
        ItemGroup::Ground
    } else if is_true(f.liquidcontainer) {
        ItemGroup::Fluid
    } else if is_true(f.liquidpool) {
        ItemGroup::Splash
    } else {
        ItemGroup::None_
    }
}

/// The item type that an appearance with id `id` and flags `f` defines:
/// the identity and group from the id and the flags, the sprite layout from
/// the frame groups (the last group with sprite info wins), and the rest
/// from the flags.
pub open spec fn spec_item_type(id: u32, obj: AppearanceView, f: AppearanceFlags) -> ItemTypeView {
    assembled(id, obj.name, obj.description, frames_of(obj.frame_groups), f)
}

/// The item type with id `id`, the given names and sprite layout, and the
/// properties that the flags `f` give.
pub open spec fn assembled(
    id: u32,
    name: Seq<char>,
    description: Seq<char>,
    fr: FramesView,
    f: AppearanceFlags,
) -> ItemTypeView {
    ItemTypeView {
        id: id as u16,
        client_id: id as u16,
        name: name,
        description: description,
        group: group_of(f),
        is_container: is_true(f.container),
        always_on_bottom: f.clip is Some || f.top is Some || f.bottom is Some,
        always_on_top_order: top_order(f),
        pattern_width: fr.pattern_width,
        pattern_height: fr.pattern_height,
        pattern_depth: fr.pattern_depth,
        layers: fr.layers,
        sprite_id: fr.sprite_id,
        sprite_ids: fr.sprite_ids,
        start_frame: fr.start_frame,
        loop_count: fr.loop_count,
        async_animation: fr.async_animation,
        animation_phases: fr.animation_phases,
        no_move_animation: is_true(f.no_movement_animation),
        is_corpse: is_true(f.corpse) || is_true(f.player_corpse),
        force_use: is_true(f.forceuse),
        has_height: f.height is Some,
        unpassable: is_true(f.unpass),
        block_missiles: is_true(f.unsight),
        block_pathfinder: is_true(f.avoid),
        pickupable: is_true(f.take),
        moveable: !is_true(f.unmove),
        can_read_text: f.write is Some || f.write_once is Some,
        is_hangable: is_true(f.hang),
        stackable: is_true(f.cumulative),
        is_podium: is_true(f.show_off_socket),
        rotable: is_true(f.rotate),
        ignore_look: is_true(f.ignore_look),
        has_elevation: f.height is Some,
        hook: flag_hook(f),
        sprite: flag_sprite(no_sprite_meta(), f),
    }
}

/// The table after registering one appearance: appearances without flags or
/// without an id are ignored; otherwise the table grows (with empty entries)
/// to hold index `id`, and the item goes to index `id as u16`.
pub open spec fn table_add(t: ItemTypeTableView, obj: AppearanceView) -> ItemTypeTableView {
    match obj.flags {
        None => t,
        Some(f) => match obj.id {
            None => t,
            Some(id) => {
                let items = if id >= t.items.len() {
                    t.items + Seq::new((id + 1 - t.items.len()) as nat, |i: int| None::<ItemTypeView>)
                } else {
                    t.items
                };
                let tid = id as u16;
                ItemTypeTableView {
                    items: items.update(tid as int, Some(spec_item_type(id, obj, f))),
                    max_item_id: if tid > t.max_item_id {
                        tid
                    } else {
                        t.max_item_id
                    },
                }
            },
        },
    }
}

/// The table built from the appearances, in order.
pub open spec fn spec_build_item_table(objs: Seq<AppearanceView>) -> ItemTypeTableView
    decreases objs.len(),
{
    if objs.len() == 0 {
        ItemTypeTableView { items: Seq::empty(), max_item_id: 0 }
    } else {
        table_add(spec_build_item_table(objs.drop_last()), objs.last())
    }
}

/// The appearance registers an item under `tid`: it has flags and an id
/// that, cut to 16 bits, is `tid`.
pub open spec fn registers(obj: AppearanceView, tid: u16) -> bool {
    obj.flags is Some && obj.id is Some && obj.id->0 as u16 == tid
}

/// The item table holds, under each id, the item of the last appearance
/// that registers under it, and nothing under an id that none registers.
pub proof fn lemma_table_holds_last_registration(objs: Seq<AppearanceView>, tid: u16)
    ensures
        forall|i: int|
            0 <= i < objs.len() && registers(#[trigger] objs[i], tid) && (forall|j: int|
                i < j < objs.len() ==> !registers(#[trigger] objs[j], tid)) ==> spec_build_item_table(objs).lookup(tid)
                == Some(spec_item_type(objs[i].id->0, objs[i], objs[i].flags->0)),
        (forall|i: int| 0 <= i < objs.len() ==> !registers(#[trigger] objs[i], tid)) ==> spec_build_item_table(
            objs,
        ).lookup(tid) is None,
    decreases objs.len(),
{
    if objs.len() > 0 {
        let prev = objs.drop_last();
        lemma_table_holds_last_registration(prev, tid);
        let t = spec_build_item_table(prev);
        let last = objs.last();
        let n = objs.len() - 1;
        if !registers(last, tid) {
            let r = table_add(t, last);
            assert(r.lookup(tid) == t.lookup(tid)) by {
                if last.flags is Some && last.id is Some {
                    let id = last.id->0;
                    if (tid as int) < t.items.len() {
                        assert(r.items[tid as int] == t.items[tid as int]);
                    }
                }
            }
            assert forall|i: int|
                0 <= i < objs.len() && registers(#[trigger] objs[i], tid) && (forall|j: int|
                    i < j < objs.len() ==> !registers(#[trigger] objs[j], tid)) implies spec_build_item_table(objs).lookup(tid)
                == Some(spec_item_type(objs[i].id->0, objs[i], objs[i].flags->0)) by {
                assert(i != n);
                assert(prev[i] == objs[i]);
                assert forall|j: int| i < j < prev.len() implies !registers(#[trigger] prev[j], tid) by {
                    assert(prev[j] == objs[j]);
                }
            }
            assert((forall|i: int| 0 <= i < objs.len() ==> !registers(#[trigger] objs[i], tid)) ==> (forall|i: int|
                0 <= i < prev.len() ==> !registers(#[trigger] prev[i], tid))) by {
                if forall|i: int| 0 <= i < objs.len() ==> !registers(#[trigger] objs[i], tid) {
                    assert forall|i: int| 0 <= i < prev.len() implies !registers(#[trigger] prev[i], tid) by {
                        assert(prev[i] == objs[i]);
                    }
                }
            }
        } else {
            assert forall|i: int|
                0 <= i < objs.len() && registers(#[trigger] objs[i], tid) && (forall|j: int|
                    i < j < objs.len() ==> !registers(#[trigger] objs[j], tid)) implies i == n by {
                if i < n {
                    assert(registers(objs[n], tid));
                }
            }
            assert(registers(objs[n], tid));
        }
    }
}

/// The stacking order of the item type that an appearance defines: clip
/// puts it at order 1; without clip, top puts it at order 3; with neither,
/// bottom puts it at order 2; with none of the three it is 0. A flag counts
/// only when it is present and set.
pub proof fn lemma_top_order(id: u32, obj: AppearanceView, f: AppearanceFlags)
    ensures
        f.clip == Some(true) ==> spec_item_type(id, obj, f).always_on_top_order == 1,
        f.clip != Some(true) && f.top == Some(true) ==> spec_item_type(id, obj, f).always_on_top_order == 3,
        f.clip != Some(true) && f.top != Some(true) && f.bottom == Some(true) ==> spec_item_type(
            id,
            obj,
            f,
        ).always_on_top_order == 2,
        f.clip != Some(true) && f.top != Some(true) && f.bottom != Some(true) ==> spec_item_type(
            id,
            obj,
            f,
        ).always_on_top_order == 0,
{
}

/// The group of the item type that an appearance defines, the first that
/// applies: a container flag set makes a container; else a bank (ground
/// speed) makes ground; else a liquid container flag set makes a fluid;
/// else a liquid pool flag set makes a splash; else it has no group. It is
/// a container exactly when the container flag is set.
pub proof fn lemma_item_group(id: u32, obj: AppearanceView, f: AppearanceFlags)
    ensures
        spec_item_type(id, obj, f).is_container <==> f.container == Some(true),
        f.container == Some(true) ==> spec_item_type(id, obj, f).group == ItemGroup::Container,
        f.container != Some(true) && f.bank is Some ==> spec_item_type(id, obj, f).group == ItemGroup::Ground,
        f.container != Some(true) && f.bank is None && f.liquidcontainer == Some(true) ==> spec_item_type(
            id,
            obj,
            f,
        ).group == ItemGroup::Fluid,
        f.container != Some(true) && f.bank is None && f.liquidcontainer != Some(true) && f.liquidpool == Some(true)
            ==> spec_item_type(id, obj, f).group == ItemGroup::Splash,
        f.container != Some(true) && f.bank is None && f.liquidcontainer != Some(true) && f.liquidpool != Some(true)
            ==> spec_item_type(id, obj, f).group == ItemGroup::None_,
{
}

/// In the loaded table, the item under `tid` has the stacking order that
/// the flags of the last appearance registering under `tid` give: 1 for
/// clip, else 3 for top, else 2 for bottom, else 0.
pub proof fn lemma_table_top_order(objs: Seq<AppearanceView>, tid: u16, i: int)
    requires
        0 <= i < objs.len(),
        registers(objs[i], tid),
        forall|j: int| i < j < objs.len() ==> !registers(#[trigger] objs[j], tid),
    ensures
        spec_build_item_table(objs).lookup(tid) is Some,
        ({
            let f = objs[i].flags->0;
            let o = spec_build_item_table(objs).lookup(tid)->0.always_on_top_order;
            &&& f.clip == Some(true) ==> o == 1
            &&& f.clip != Some(true) && f.top == Some(true) ==> o == 3
            &&& f.clip != Some(true) && f.top != Some(true) && f.bottom == Some(true) ==> o == 2
            &&& f.clip != Some(true) && f.top != Some(true) && f.bottom != Some(true) ==> o == 0
        }),
{
    lemma_table_holds_last_registration(objs, tid);
    lemma_top_order(objs[i].id->0, objs[i], objs[i].flags->0);
}

/// Builds the item table from the appearances, in order.
/// Appearances without flags or without an id are skipped.
pub fn build_item_table(appearances: &Appearances) -> (table: ItemTypeTable)
    ensures
        table@ == spec_build_item_table(appearances@),
{
    let mut table = ItemTypeTable { items: Vec::new(), max_item_id: 0 };
    let ghost objs = appearances@;
    assert(table@ =~= spec_build_item_table(objs.take(0)));
    let mut i: usize = 0;
    while i < appearances.objects.len()
        invariant
            i <= appearances.objects@.len(),
            objs == appearances@,
            objs.len() == appearances.objects@.len(),
            table@ == spec_build_item_table(objs.take(i as int)),
        decreases appearances.objects@.len() - i,
    {
        let object = &appearances.objects[i];
        assert(objs.take(i + 1).drop_last() =~= objs.take(i as int));
        assert(objs[i as int] == object@);
        let ghost before = table@;
        match &object.flags {
            None => {},
            Some(flags) => match object.id {
                None => {},
                Some(id) => {
                    let idx = id as usize;
                    while table.items.len() <= idx
                        invariant
                            before.items.len() <= table.items@.len(),
                            table.items@.len() <= if idx >= before.items.len() { idx + 1 } else { before.items.len() as int },
                            table.max_item_id == before.max_item_id,
                            forall|k: int| 0 <= k < before.items.len() ==> view_entry(#[trigger] table.items@[k]) == before.items[k],
                            forall|k: int| before.items.len() <= k < table.items@.len() ==> #[trigger] table.items@[k] is None,
                        decreases idx + 1 - table.items@.len(),
                    {
                        table.items.push(None);
                    }
                    let t = item_type_for(object, id, flags);
                    let tid = id as u16;
                    assert((id as u16) as u32 <= id) by (bit_vector);
                    if tid > table.max_item_id {
                        table.max_item_id = tid;
                    }
                    let ghost tv = t@;
                    table.items.set(tid as usize, Some(t));
                    assert(table@.items =~= table_add(before, object@).items);
                },
            },
        }
        i += 1;
        assert(table@ =~= spec_build_item_table(objs.take(i as int)));
    }
    assert(objs.take(objs.len() as int) =~= objs);
    table
}

/// Reads the bytes of an `appearances.dat` and builds the item table.
pub fn load_appearances(data: &[u8]) -> (r: Option<ItemTypeTable>)
    ensures
        r is Some <==> spec_parse_appearances(data@) is Some,
        r matches Some(t) ==> t@ == spec_build_item_table(spec_parse_appearances(data@)->0),
{
    let appearances = match parse(data) {
        Some(a) => a,
        None => return None,
    };
    Some(build_item_table(&appearances))
}

} // verus!
