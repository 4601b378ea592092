//! Hand-rolled reader of the Tibia client's `appearances.dat` (protobuf).
//!
//! The file is plain protobuf (no LZMA); each message is read field by field,
//! unknown fields are skipped, and any truncation makes the whole read fail.
//! The item types and the table built from it live in `item_types` and
//! `item_loader`, and are re-exported here.

use vstd::prelude::*;
use crate::binary::CursorView;
use crate::pb::{
    Reader, Tag, WT_LEN, WT_VARINT, message_fields, payload_then, skip_then, spec_len_payload,
    spec_tag, spec_varint, varint_then,
};
use crate::text::{lossy_string, utf8_lossy};
pub use crate::item_types::{ItemGroup, ItemHook, ItemType, ItemTypeTable, SpriteMeta};
pub use crate::item_loader::{build_item_table, load_appearances};

verus! {

// ---------------------------------------------------------------------------
// Protobuf messages (the subset of appearances.proto that the loader uses)
// ---------------------------------------------------------------------------

#[derive(Debug, Clone, Default)]
pub struct Appearances {
    pub objects: Vec<Appearance>,
}

#[derive(Debug, Clone, Default)]
pub struct Appearance {
    pub id: Option<u32>,
    pub frame_groups: Vec<FrameGroup>,
    pub flags: Option<AppearanceFlags>,
    pub name: String,
    pub description: String,
}

#[derive(Debug, Clone, Default)]
pub struct FrameGroup {
    pub fixed_frame_group: Option<u32>,
    pub sprite_info: Option<SpriteInfo>,
}

#[derive(Debug, Clone, Default)]
pub struct SpriteInfo {
    pub pattern_width: u32,
    pub pattern_height: u32,
    pub pattern_depth: u32,
    pub layers: u32,
    pub sprite_ids: Vec<u32>,
    pub animation: Option<SpriteAnimation>,
}

#[derive(Debug, Clone, Default)]
pub struct SpriteAnimation {
    pub default_start_phase: u32,
    pub synchronized: bool,
    pub loop_count: u32,
    pub sprite_phases: Vec<(u32, u32)>,
}

/// Optional proto2 fields: `Some(v)` = present with value `v`, `None` = absent.
/// Generated `has_*()` methods mean "present".
#[derive(Debug, Clone, Copy, Default)]
pub struct AppearanceFlags {
    pub bank: Option<()>,
    pub clip: Option<bool>,
    pub top: Option<bool>,
    pub bottom: Option<bool>,
    pub container: Option<bool>,
    pub cumulative: Option<bool>,
    pub take: Option<bool>,
    pub unmove: Option<bool>,
    pub liquidcontainer: Option<bool>,
    pub liquidpool: Option<bool>,
    pub no_movement_animation: Option<bool>,
    pub forceuse: Option<bool>,
    pub unpass: Option<bool>,
    pub unsight: Option<bool>,
    pub avoid: Option<bool>,
    pub hang: Option<bool>,
    pub rotate: Option<bool>,
    pub ignore_look: Option<bool>,
    pub show_off_socket: Option<bool>,
    pub corpse: Option<bool>,
    pub player_corpse: Option<bool>,
    pub height: Option<u32>,
    pub shift: Option<(u32, u32)>,
    pub light: Option<(u32, u32)>,
    pub hook: Option<u32>,
    pub automap: Option<u32>,
    pub lenshelp: Option<()>,
    pub write: Option<()>,
    pub write_once: Option<()>,
}

impl AppearanceFlags {
    pub fn has_clip(&self) -> (b: bool)
        ensures
            b == self.clip is Some,
    {
        self.clip.is_some()
    }

    pub fn has_top(&self) -> (b: bool)
        ensures
            b == self.top is Some,
    {
        self.top.is_some()
    }

    pub fn has_bottom(&self) -> (b: bool)
        ensures
            b == self.bottom is Some,
    {
        self.bottom.is_some()
    }

    pub fn has_bank(&self) -> (b: bool)
        ensures
            b == self.bank is Some,
    {
        self.bank.is_some()
    }

    pub fn has_height(&self) -> (b: bool)
        ensures
            b == self.height is Some,
    {
        self.height.is_some()
    }
}

/// The flags that proto2 fields leave unset.
pub open spec fn no_flags() -> AppearanceFlags {
    AppearanceFlags {
        bank: None,
        clip: None,
        top: None,
        bottom: None,
        container: None,
        cumulative: None,
        take: None,
        unmove: None,
        liquidcontainer: None,
        liquidpool: None,
        no_movement_animation: None,
        forceuse: None,
        unpass: None,
        unsight: None,
        avoid: None,
        hang: None,
        rotate: None,
        ignore_look: None,
        show_off_socket: None,
        corpse: None,
        player_corpse: None,
        height: None,
        shift: None,
        light: None,
        hook: None,
        automap: None,
        lenshelp: None,
        write: None,
        write_once: None,
    }
}

// ---------------------------------------------------------------------------
// Views
// ---------------------------------------------------------------------------

#[verifier::ext_equal]
pub struct SpriteAnimationView {
    pub default_start_phase: u32,
    pub synchronized: bool,
    pub loop_count: u32,
    pub sprite_phases: Seq<(u32, u32)>,
}

#[verifier::ext_equal]
pub struct SpriteInfoView {
    pub pattern_width: u32,
    pub pattern_height: u32,
    pub pattern_depth: u32,
    pub layers: u32,
    pub sprite_ids: Seq<u32>,
    pub animation: Option<SpriteAnimationView>,
}

#[verifier::ext_equal]
pub struct FrameGroupView {
    pub fixed_frame_group: Option<u32>,
    pub sprite_info: Option<SpriteInfoView>,
}

#[verifier::ext_equal]
pub struct AppearanceView {
    pub id: Option<u32>,
    pub frame_groups: Seq<FrameGroupView>,
    pub flags: Option<AppearanceFlags>,
    pub name: Seq<char>,
    pub description: Seq<char>,
}

impl View for SpriteAnimation {
    type V = SpriteAnimationView;

    open spec fn view(&self) -> SpriteAnimationView {
        SpriteAnimationView {
            default_start_phase: self.default_start_phase,
            synchronized: self.synchronized,
            loop_count: self.loop_count,
            sprite_phases: self.sprite_phases@,
        }
    }
}

impl View for SpriteInfo {
    type V = SpriteInfoView;

    open spec fn view(&self) -> SpriteInfoView {
        SpriteInfoView {
            pattern_width: self.pattern_width,
            pattern_height: self.pattern_height,
            pattern_depth: self.pattern_depth,
            layers: self.layers,
            sprite_ids: self.sprite_ids@,
            animation: match self.animation {
                Some(a) => Some(a@),
                None => None,
            },
        }
    }
}

impl View for FrameGroup {
    type V = FrameGroupView;

    open spec fn view(&self) -> FrameGroupView {
        FrameGroupView {
            fixed_frame_group: self.fixed_frame_group,
            sprite_info: match self.sprite_info {
                Some(s) => Some(s@),
                None => None,
            },
        }
    }
}

impl View for Appearance {
    type V = AppearanceView;

    open spec fn view(&self) -> AppearanceView {
        AppearanceView {
            id: self.id,
            frame_groups: self.frame_groups@.map_values(|g: FrameGroup| g@),
            flags: self.flags,
            name: self.name@,
            description: self.description@,
        }
    }
}

impl View for Appearances {
    type V = Seq<AppearanceView>;

    open spec fn view(&self) -> Seq<AppearanceView> {
        self.objects@.map_values(|a: Appearance| a@)
    }
}

// ---------------------------------------------------------------------------
// What each message means on the wire
// ---------------------------------------------------------------------------

pub open spec fn at(s: Seq<u8>, pos: int) -> CursorView {
    CursorView { bytes: s, pos }
}

/// A two-field message `{ 1: u32, 2: u32 }` (phase durations, light, shift).
pub open spec fn pair_step(acc: (u32, u32), tag: Tag, c: CursorView) -> Option<((u32, u32), CursorView)> {
    let f = tag.spec_field();
    if f == 1 {
        varint_then(c, |v: u64| (v as u32, acc.1))
    } else if f == 2 {
        varint_then(c, |v: u64| (acc.0, v as u32))
    } else {
        skip_then(c, tag.spec_wire_type(), acc)
    }
}

pub open spec fn pair_fields(c: CursorView, acc: (u32, u32)) -> Option<(u32, u32)> {
    message_fields(c, acc, |a: (u32, u32), t: Tag, c: CursorView| pair_step(a, t, c))
}

pub open spec fn spec_parse_pair(b: Seq<u8>) -> Option<(u32, u32)> {
    pair_fields(at(b, 0), (0u32, 0u32))
}

/// A message whose first field must be field 1, a varint (its other fields
/// are not read).
pub open spec fn spec_simple_u32(b: Seq<u8>) -> Option<u32> {
    let (t, c1) = spec_tag(at(b, 0));
    match t {
        Some(tag) => if tag.spec_field() == 1 {
            match spec_varint(c1).0 {
                Some(v) => Some(v as u32),
                None => None,
            }
        } else {
            None
        },
        None => None,
    }
}

/// A packed run of varints from `c` on, appended to `acc`.
pub open spec fn packed_varints(c: CursorView, acc: Seq<u32>) -> Option<Seq<u32>>
    decreases c.bytes.len() - c.pos,
{
    if c.pos < 0 || c.pos >= c.bytes.len() {
        Some(acc)
    } else {
        let (v, c1) = spec_varint(c);
        match v {
            Some(x) => if c1.bytes == c.bytes && c.pos < c1.pos <= c.bytes.len() {
                packed_varints(c1, acc.push(x as u32))
            } else {
                None
            },
            None => None,
        }
    }
}

pub open spec fn animation_step(acc: SpriteAnimationView, tag: Tag, c: CursorView) -> Option<
    (SpriteAnimationView, CursorView),
> {
    let f = tag.spec_field();
    if f == 1 {
        varint_then(c, |v: u64| SpriteAnimationView { default_start_phase: v as u32, ..acc })
    } else if f == 2 {
        varint_then(c, |v: u64| SpriteAnimationView { synchronized: v != 0, ..acc })
    } else if f == 5 {
        varint_then(c, |v: u64| SpriteAnimationView { loop_count: v as u32, ..acc })
    } else if f == 6 {
        payload_then(
            c,
            |b: Seq<u8>|
                match spec_parse_pair(b) {
                    Some(p) => Some(SpriteAnimationView { sprite_phases: acc.sprite_phases.push(p), ..acc }),
                    None => None,
                },
        )
    } else {
        skip_then(c, tag.spec_wire_type(), acc)
    }
}

pub open spec fn empty_animation() -> SpriteAnimationView {
    SpriteAnimationView {
        default_start_phase: 0,
        synchronized: false,
        loop_count: 0,
        sprite_phases: Seq::empty(),
    }
}

pub open spec fn animation_fields(c: CursorView, acc: SpriteAnimationView) -> Option<SpriteAnimationView> {
    message_fields(c, acc, |a: SpriteAnimationView, t: Tag, c: CursorView| animation_step(a, t, c))
}

pub open spec fn spec_parse_animation(b: Seq<u8>) -> Option<SpriteAnimationView> {
    animation_fields(at(b, 0), empty_animation())
}

pub open spec fn sprite_info_step(acc: SpriteInfoView, tag: Tag, c: CursorView) -> Option<
    (SpriteInfoView, CursorView),
> {
    let f = tag.spec_field();
    let wt = tag.spec_wire_type();
    if f == 1 {
        varint_then(c, |v: u64| SpriteInfoView { pattern_width: v as u32, ..acc })
    } else if f == 2 {
        varint_then(c, |v: u64| SpriteInfoView { pattern_height: v as u32, ..acc })
    } else if f == 3 {
        varint_then(c, |v: u64| SpriteInfoView { pattern_depth: v as u32, ..acc })
    } else if f == 4 {
        varint_then(c, |v: u64| SpriteInfoView { layers: v as u32, ..acc })
    } else if f == 5 {
        // sprite ids, unpacked (one varint) or packed (a payload of varints)
        if wt == WT_VARINT {
            varint_then(c, |v: u64| SpriteInfoView { sprite_ids: acc.sprite_ids.push(v as u32), ..acc })
        } else if wt == WT_LEN {
            payload_then(
                c,
                |b: Seq<u8>|
                    match packed_varints(at(b, 0), acc.sprite_ids) {
                        Some(ids) => Some(SpriteInfoView { sprite_ids: ids, ..acc }),
                        None => None,
                    },
            )
        } else {
            None
        }
    } else if f == 6 {
        payload_then(
            c,
            |b: Seq<u8>|
                match spec_parse_animation(b) {
                    Some(a) => Some(SpriteInfoView { animation: Some(a), ..acc }),
                    None => None,
                },
        )
    } else {
        skip_then(c, wt, acc)
    }
}

pub open spec fn empty_sprite_info() -> SpriteInfoView {
    SpriteInfoView {
        pattern_width: 0,
        pattern_height: 0,
        pattern_depth: 0,
        layers: 0,
        sprite_ids: Seq::empty(),
        animation: None,
    }
}

pub open spec fn sprite_info_fields(c: CursorView, acc: SpriteInfoView) -> Option<SpriteInfoView> {
    message_fields(c, acc, |a: SpriteInfoView, t: Tag, c: CursorView| sprite_info_step(a, t, c))
}

pub open spec fn spec_parse_sprite_info(b: Seq<u8>) -> Option<SpriteInfoView> {
    sprite_info_fields(at(b, 0), empty_sprite_info())
}

pub open spec fn frame_group_step(acc: FrameGroupView, tag: Tag, c: CursorView) -> Option<
    (FrameGroupView, CursorView),
> {
    let f = tag.spec_field();
    if f == 1 {
        varint_then(c, |v: u64| FrameGroupView { fixed_frame_group: Some(v as u32), ..acc })
    } else if f == 3 {
        payload_then(
            c,
            |b: Seq<u8>|
                match spec_parse_sprite_info(b) {
                    Some(si) => Some(FrameGroupView { sprite_info: Some(si), ..acc }),
                    None => None,
                },
        )
    } else {
        skip_then(c, tag.spec_wire_type(), acc)
    }
}

pub open spec fn frame_group_fields(c: CursorView, acc: FrameGroupView) -> Option<FrameGroupView> {
    message_fields(c, acc, |a: FrameGroupView, t: Tag, c: CursorView| frame_group_step(a, t, c))
}

pub open spec fn spec_parse_frame_group(b: Seq<u8>) -> Option<FrameGroupView> {
    frame_group_fields(at(b, 0), FrameGroupView { fixed_frame_group: None, sprite_info: None })
}

/// A boolean flag field: a varint, true when non-zero.
pub open spec fn bool_then(c: CursorView, k: spec_fn(Option<bool>) -> AppearanceFlags) -> Option<
    (AppearanceFlags, CursorView),
> {
    varint_then(c, |v: u64| k(Some(v != 0)))
}

/// A `{ 1: u32 }` sub-message field.
pub open spec fn simple_then(c: CursorView, k: spec_fn(Option<u32>) -> AppearanceFlags) -> Option<
    (AppearanceFlags, CursorView),
> {
    payload_then(
        c,
        |b: Seq<u8>|
            match spec_simple_u32(b) {
                Some(v) => Some(k(Some(v))),
                None => None,
            },
    )
}

/// A `{ 1: u32, 2: u32 }` sub-message field.
pub open spec fn pair_then(c: CursorView, k: spec_fn(Option<(u32, u32)>) -> AppearanceFlags) -> Option<
    (AppearanceFlags, CursorView),
> {
    payload_then(
        c,
        |b: Seq<u8>|
            match spec_parse_pair(b) {
                Some(p) => Some(k(Some(p))),
                None => None,
            },
    )
}

/// A field whose payload is read but whose content is not kept.
pub open spec fn marker_then(c: CursorView, k: AppearanceFlags) -> Option<(AppearanceFlags, CursorView)> {
    payload_then(c, |b: Seq<u8>| Some(k))
}

pub open spec fn flags_step(a: AppearanceFlags, tag: Tag, c: CursorView) -> Option<(AppearanceFlags, CursorView)> {
    let f = tag.spec_field();
    if f == 1 {
        // bank: a `{ waypoints }` message whose first field must be field 1
        simple_then(c, |v: Option<u32>| AppearanceFlags { bank: Some(()), ..a })
    } else if f == 2 {
        bool_then(c, |v: Option<bool>| AppearanceFlags { clip: v, ..a })
    } else if f == 3 {
        bool_then(c, |v: Option<bool>| AppearanceFlags { top: v, ..a })
    } else if f == 4 {
        bool_then(c, |v: Option<bool>| AppearanceFlags { bottom: v, ..a })
    } else if f == 5 {
        bool_then(c, |v: Option<bool>| AppearanceFlags { container: v, ..a })
    } else if f == 6 {
        bool_then(c, |v: Option<bool>| AppearanceFlags { cumulative: v, ..a })
    } else if f == 12 {
        bool_then(c, |v: Option<bool>| AppearanceFlags { liquidpool: v, ..a })
    } else if f == 13 {
        bool_then(c, |v: Option<bool>| AppearanceFlags { unpass: v, ..a })
    } else if f == 14 {
        bool_then(c, |v: Option<bool>| AppearanceFlags { unmove: v, ..a })
    } else if f == 15 {
        bool_then(c, |v: Option<bool>| AppearanceFlags { unsight: v, ..a })
    } else if f == 16 {
        bool_then(c, |v: Option<bool>| AppearanceFlags { avoid: v, ..a })
    } else if f == 17 {
        bool_then(c, |v: Option<bool>| AppearanceFlags { no_movement_animation: v, ..a })
    } else if f == 18 {
        bool_then(c, |v: Option<bool>| AppearanceFlags { take: v, ..a })
    } else if f == 19 {
        bool_then(c, |v: Option<bool>| AppearanceFlags { liquidcontainer: v, ..a })
    } else if f == 20 {
        bool_then(c, |v: Option<bool>| AppearanceFlags { hang: v, ..a })
    } else if f == 21 {
        simple_then(c, |v: Option<u32>| AppearanceFlags { hook: v, ..a })
    } else if f == 22 {
        bool_then(c, |v: Option<bool>| AppearanceFlags { rotate: v, ..a })
    } else if f == 23 {
        pair_then(c, |v: Option<(u32, u32)>| AppearanceFlags { light: v, ..a })
    } else if f == 26 {
        pair_then(c, |v: Option<(u32, u32)>| AppearanceFlags { shift: v, ..a })
    } else if f == 27 {
        simple_then(c, |v: Option<u32>| AppearanceFlags { height: v, ..a })
    } else if f == 29 {
        bool_then(c, |v: Option<bool>| AppearanceFlags { ignore_look: v, ..a })
    } else if f == 30 {
        simple_then(c, |v: Option<u32>| AppearanceFlags { automap: v, ..a })
    } else if f == 31 {
        marker_then(c, AppearanceFlags { lenshelp: Some(()), ..a })
    } else if f == 42 {
        bool_then(c, |v: Option<bool>| AppearanceFlags { corpse: v, ..a })
    } else if f == 43 {
        bool_then(c, |v: Option<bool>| AppearanceFlags { player_corpse: v, ..a })
    } else if f == 46 {
        bool_then(c, |v: Option<bool>| AppearanceFlags { show_off_socket: v, ..a })
    } else if f == 10 {
        marker_then(c, AppearanceFlags { write: Some(()), ..a })
    } else if f == 11 {
        marker_then(c, AppearanceFlags { write_once: Some(()), ..a })
    } else {
        skip_then(c, tag.spec_wire_type(), a)
    }
}

pub open spec fn flags_fields(c: CursorView, acc: AppearanceFlags) -> Option<AppearanceFlags> {
    message_fields(c, acc, |a: AppearanceFlags, t: Tag, c: CursorView| flags_step(a, t, c))
}

pub open spec fn spec_parse_flags(b: Seq<u8>) -> Option<AppearanceFlags> {
    flags_fields(at(b, 0), no_flags())
}

pub open spec fn appearance_step(acc: AppearanceView, tag: Tag, c: CursorView) -> Option<
    (AppearanceView, CursorView),
> {
    let f = tag.spec_field();
    if f == 1 {
        varint_then(c, |v: u64| AppearanceView { id: Some(v as u32), ..acc })
    } else if f == 2 {
        payload_then(
            c,
            |b: Seq<u8>|
                match spec_parse_frame_group(b) {
                    Some(g) => Some(AppearanceView { frame_groups: acc.frame_groups.push(g), ..acc }),
                    None => None,
                },
        )
    } else if f == 3 {
        payload_then(
            c,
            |b: Seq<u8>|
                match spec_parse_flags(b) {
                    Some(fl) => Some(AppearanceView { flags: Some(fl), ..acc }),
                    None => None,
                },
        )
    } else if f == 4 {
        payload_then(c, |b: Seq<u8>| Some(AppearanceView { name: utf8_lossy(b), ..acc }))
    } else if f == 5 {
        payload_then(c, |b: Seq<u8>| Some(AppearanceView { description: utf8_lossy(b), ..acc }))
    } else {
        skip_then(c, tag.spec_wire_type(), acc)
    }
}

pub open spec fn empty_appearance() -> AppearanceView {
    AppearanceView {
        id: None,
        frame_groups: Seq::empty(),
        flags: None,
        name: Seq::empty(),
        description: Seq::empty(),
    }
}

pub open spec fn appearance_fields(c: CursorView, acc: AppearanceView) -> Option<AppearanceView> {
    message_fields(c, acc, |a: AppearanceView, t: Tag, c: CursorView| appearance_step(a, t, c))
}

pub open spec fn spec_parse_appearance(b: Seq<u8>) -> Option<AppearanceView> {
    appearance_fields(at(b, 0), empty_appearance())
}

pub open spec fn appearances_step(acc: Seq<AppearanceView>, tag: Tag, c: CursorView) -> Option<
    (Seq<AppearanceView>, CursorView),
> {
    if tag.spec_field() == 1 {
        payload_then(
            c,
            |b: Seq<u8>|
                match spec_parse_appearance(b) {
                    Some(a) => Some(acc.push(a)),
                    None => None,
                },
        )
    } else {
        skip_then(c, tag.spec_wire_type(), acc)
    }
}

/// The `Appearances` message read from the whole file.
pub open spec fn appearances_fields(c: CursorView, acc: Seq<AppearanceView>) -> Option<Seq<AppearanceView>> {
    message_fields(c, acc, |a: Seq<AppearanceView>, t: Tag, c: CursorView| appearances_step(a, t, c))
}

pub open spec fn spec_parse_appearances(b: Seq<u8>) -> Option<Seq<AppearanceView>> {
    appearances_fields(at(b, 0), Seq::empty())
}

// ---------------------------------------------------------------------------
// Parsing
// ---------------------------------------------------------------------------

fn parse_pair(payload: &[u8]) -> (r: Option<(u32, u32)>)
    ensures
        r == spec_parse_pair(payload@),
{
    let ghost s = payload@;
    let mut a = 0u32;
    let mut b = 0u32;
    let mut r = Reader::new(payload);
    while !r.is_done()
        invariant
            r.wf(),
            r@.bytes == s,
            s == payload@,
            pair_fields(r@, (a, b)) == spec_parse_pair(s),
        decreases s.len() - r@.pos,
    {
        let tag = match r.tag() {
            Some(t) => t,
            None => return None,
        };
        let wt = tag.wire_type();
        match tag.field() {
            1 => {
                a = match r.varint() {
                    Some(v) => v as u32,
                    None => return None,
                };
            },
            2 => {
                b = match r.varint() {
                    Some(v) => v as u32,
                    None => return None,
                };
            },
            _ => {
                if r.skip(wt).is_none() {
                    return None;
                }
            },
        }
    }
    Some((a, b))
}

fn simple_u32(payload: &[u8]) -> (r: Option<u32>)
    ensures
        r == spec_simple_u32(payload@),
{
    let mut sr = Reader::new(payload);
    let tag = match sr.tag() {
        Some(t) => t,
        None => return None,
    };
    if tag.field() == 1 {
        match sr.varint() {
            Some(v) => Some(v as u32),
            None => None,
        }
    } else {
        None
    }
}

/// Appends the packed varints of `payload` to `ids`.
fn read_packed(payload: &[u8], ids: &mut Vec<u32>) -> (ok: bool)
    ensures
        ok == packed_varints(at(payload@, 0), old(ids)@) is Some,
        ok ==> packed_varints(at(payload@, 0), old(ids)@) == Some(final(ids)@),
{
    let ghost s = payload@;
    let mut sr = Reader::new(payload);
    while !sr.is_done()
        invariant
            sr.wf(),
            sr@.bytes == s,
            s == payload@,
            packed_varints(sr@, ids@) == packed_varints(at(s, 0), old(ids)@),
        decreases s.len() - sr@.pos,
    {
        match sr.varint() {
            Some(v) => ids.push(v as u32),
            None => return false,
        }
    }
    true
}

fn parse_animation(payload: &[u8]) -> (r: Option<SpriteAnimation>)
    ensures
        r matches Some(a) ==> spec_parse_animation(payload@) == Some(a@),
        r is None ==> spec_parse_animation(payload@) is None,
{
    let ghost s = payload@;
    let mut out = SpriteAnimation {
        default_start_phase: 0,
        synchronized: false,
        loop_count: 0,
        sprite_phases: Vec::new(),
    };
    assert(out@ =~= empty_animation());
    let mut r = Reader::new(payload);
    while !r.is_done()
        invariant
            r.wf(),
            r@.bytes == s,
            s == payload@,
            animation_fields(r@, out@) == spec_parse_animation(s),
        decreases s.len() - r@.pos,
    {
        let tag = match r.tag() {
            Some(t) => t,
            None => return None,
        };
        let wt = tag.wire_type();
        match tag.field() {
            1 => {
                out.default_start_phase = match r.varint() {
                    Some(v) => v as u32,
                    None => return None,
                };
            },
            2 => {
                out.synchronized = match r.varint() {
                    Some(v) => v != 0,
                    None => return None,
                };
            },
            5 => {
                out.loop_count = match r.varint() {
                    Some(v) => v as u32,
                    None => return None,
                };
            },
            6 => {
                let pay = match r.len_payload() {
                    Some(p) => p,
                    None => return None,
                };
                match parse_pair(pay) {
                    Some(p) => out.sprite_phases.push(p),
                    None => return None,
                }
            },
            _ => {
                if r.skip(wt).is_none() {
                    return None;
                }
            },
        }
    }
    Some(out)
}

fn parse_sprite_info(payload: &[u8]) -> (r: Option<SpriteInfo>)
    ensures
        r matches Some(a) ==> spec_parse_sprite_info(payload@) == Some(a@),
        r is None ==> spec_parse_sprite_info(payload@) is None,
{
    let ghost s = payload@;
    let mut out = SpriteInfo {
        pattern_width: 0,
        pattern_height: 0,
        pattern_depth: 0,
        layers: 0,
        sprite_ids: Vec::new(),
        animation: None,
    };
    assert(out@ =~= empty_sprite_info());
    let mut r = Reader::new(payload);
    while !r.is_done()
        invariant
            r.wf(),
            r@.bytes == s,
            s == payload@,
            sprite_info_fields(r@, out@) == spec_parse_sprite_info(s),
        decreases s.len() - r@.pos,
    {
        let tag = match r.tag() {
            Some(t) => t,
            None => return None,
        };
        let wt = tag.wire_type();
        match tag.field() {
            1 => {
                out.pattern_width = match r.varint() {
                    Some(v) => v as u32,
                    None => return None,
                };
            },
            2 => {
                out.pattern_height = match r.varint() {
                    Some(v) => v as u32,
                    None => return None,
                };
            },
            3 => {
                out.pattern_depth = match r.varint() {
                    Some(v) => v as u32,
                    None => return None,
                };
            },
            4 => {
                out.layers = match r.varint() {
                    Some(v) => v as u32,
                    None => return None,
                };
            },
            5 => {
                if wt == WT_VARINT {
                    match r.varint() {
                        Some(v) => out.sprite_ids.push(v as u32),
                        None => return None,
                    }
                } else if wt == WT_LEN {
                    let pay = match r.len_payload() {
                        Some(p) => p,
                        None => return None,
                    };
                    if !read_packed(pay, &mut out.sprite_ids) {
                        return None;
                    }
                } else {
                    return None;
                }
            },
            6 => {
                let pay = match r.len_payload() {
                    Some(p) => p,
                    None => return None,
                };
                match parse_animation(pay) {
                    Some(a) => out.animation = Some(a),
                    None => return None,
                }
            },
            _ => {
                if r.skip(wt).is_none() {
                    return None;
                }
            },
        }
    }
    Some(out)
}

fn parse_frame_group(payload: &[u8]) -> (r: Option<FrameGroup>)
    ensures
        r matches Some(a) ==> spec_parse_frame_group(payload@) == Some(a@),
        r is None ==> spec_parse_frame_group(payload@) is None,
{
    let ghost s = payload@;
    let mut out = FrameGroup { fixed_frame_group: None, sprite_info: None };
    let mut r = Reader::new(payload);
    while !r.is_done()
        invariant
            r.wf(),
            r@.bytes == s,
            s == payload@,
            frame_group_fields(r@, out@) == spec_parse_frame_group(s),
        decreases s.len() - r@.pos,
    {
        let tag = match r.tag() {
            Some(t) => t,
            None => return None,
        };
        let wt = tag.wire_type();
        match tag.field() {
            1 => {
                out.fixed_frame_group = match r.varint() {
                    Some(v) => Some(v as u32),
                    None => return None,
                };
            },
            3 => {
                let pay = match r.len_payload() {
                    Some(p) => p,
                    None => return None,
                };
                match parse_sprite_info(pay) {
                    Some(si) => out.sprite_info = Some(si),
                    None => return None,
                }
            },
            _ => {
                if r.skip(wt).is_none() {
                    return None;
                }
            },
        }
    }
    Some(out)
}

fn parse_flags(payload: &[u8]) -> (r: Option<AppearanceFlags>)
    ensures
        r == spec_parse_flags(payload@),
{
    let ghost s = payload@;
    let mut out = AppearanceFlags {
        bank: None,
        clip: None,
        top: None,
        bottom: None,
        container: None,
        cumulative: None,
        take: None,
        unmove: None,
        liquidcontainer: None,
        liquidpool: None,
        no_movement_animation: None,
        forceuse: None,
        unpass: None,
        unsight: None,
        avoid: None,
        hang: None,
        rotate: None,
        ignore_look: None,
        show_off_socket: None,
        corpse: None,
        player_corpse: None,
        height: None,
        shift: None,
        light: None,
        hook: None,
        automap: None,
        lenshelp: None,
        write: None,
        write_once: None,
    };
    let mut r = Reader::new(payload);
    while !r.is_done()
        invariant
            r.wf(),
            r@.bytes == s,
            s == payload@,
            flags_fields(r@, out) == spec_parse_flags(s),
        decreases s.len() - r@.pos,
    {
        let tag = match r.tag() {
            Some(t) => t,
            None => return None,
        };
        let wt = tag.wire_type();
        match tag.field() {
            1 => {
                let pay = match r.len_payload() {
                    Some(p) => p,
                    None => return None,
                };
                if simple_u32(pay).is_none() {
                    return None;
                }
                out.bank = Some(());
            },
            2 => {
                out.clip = match r.varint() {
                    Some(v) => Some(v != 0),
                    None => return None,
                };
            },
            3 => {
                out.top = match r.varint() {
                    Some(v) => Some(v != 0),
                    None => return None,
                };
            },
            4 => {
                out.bottom = match r.varint() {
                    Some(v) => Some(v != 0),
                    None => return None,
                };
            },
            5 => {
                out.container = match r.varint() {
                    Some(v) => Some(v != 0),
                    None => return None,
                };
            },
            6 => {
                out.cumulative = match r.varint() {
                    Some(v) => Some(v != 0),
                    None => return None,
                };
            },
            12 => {
                out.liquidpool = match r.varint() {
                    Some(v) => Some(v != 0),
                    None => return None,
                };
            },
            13 => {
                out.unpass = match r.varint() {
                    Some(v) => Some(v != 0),
                    None => return None,
                };
            },
            14 => {
                out.unmove = match r.varint() {
                    Some(v) => Some(v != 0),
                    None => return None,
                };
            },
            15 => {
                out.unsight = match r.varint() {
                    Some(v) => Some(v != 0),
                    None => return None,
                };
            },
            16 => {
                out.avoid = match r.varint() {
                    Some(v) => Some(v != 0),
                    None => return None,
                };
            },
            17 => {
                out.no_movement_animation = match r.varint() {
                    Some(v) => Some(v != 0),
                    None => return None,
                };
            },
            18 => {
                out.take = match r.varint() {
                    Some(v) => Some(v != 0),
                    None => return None,
                };
            },
            19 => {
                out.liquidcontainer = match r.varint() {
                    Some(v) => Some(v != 0),
                    None => return None,
                };
            },
            20 => {
                out.hang = match r.varint() {
                    Some(v) => Some(v != 0),
                    None => return None,
                };
            },
            21 => {
                let pay = match r.len_payload() {
                    Some(p) => p,
                    None => return None,
                };
                out.hook = match simple_u32(pay) {
                    Some(v) => Some(v),
                    None => return None,
                };
            },
            22 => {
                out.rotate = match r.varint() {
                    Some(v) => Some(v != 0),
                    None => return None,
                };
            },
            23 => {
                let pay = match r.len_payload() {
                    Some(p) => p,
                    None => return None,
                };
                out.light = match parse_pair(pay) {
                    Some(v) => Some(v),
                    None => return None,
                };
            },
            26 => {
                let pay = match r.len_payload() {
                    Some(p) => p,
                    None => return None,
                };
                out.shift = match parse_pair(pay) {
                    Some(v) => Some(v),
                    None => return None,
                };
            },
            27 => {
                let pay = match r.len_payload() {
                    Some(p) => p,
                    None => return None,
                };
                out.height = match simple_u32(pay) {
                    Some(v) => Some(v),
                    None => return None,
                };
            },
            29 => {
                out.ignore_look = match r.varint() {
                    Some(v) => Some(v != 0),
                    None => return None,
                };
            },
            30 => {
                let pay = match r.len_payload() {
                    Some(p) => p,
                    None => return None,
                };
                out.automap = match simple_u32(pay) {
                    Some(v) => Some(v),
                    None => return None,
                };
            },
            31 => {
                if r.len_payload().is_none() {
                    return None;
                }
                out.lenshelp = Some(());
            },
            42 => {
                out.corpse = match r.varint() {
                    Some(v) => Some(v != 0),
                    None => return None,
                };
            },
            43 => {
                out.player_corpse = match r.varint() {
                    Some(v) => Some(v != 0),
                    None => return None,
                };
            },
            46 => {
                out.show_off_socket = match r.varint() {
                    Some(v) => Some(v != 0),
                    None => return None,
                };
            },
            10 => {
                if r.len_payload().is_none() {
                    return None;
                }
                out.write = Some(());
            },
            11 => {
                if r.len_payload().is_none() {
                    return None;
                }
                out.write_once = Some(());
            },
            _ => {
                if r.skip(wt).is_none() {
                    return None;
                }
            },
        }
    }
    Some(out)
}

fn parse_appearance(payload: &[u8]) -> (r: Option<Appearance>)
    ensures
        r matches Some(a) ==> spec_parse_appearance(payload@) == Some(a@),
        r is None ==> spec_parse_appearance(payload@) is None,
{
    let ghost s = payload@;
    let mut out = Appearance {
        id: None,
        frame_groups: Vec::new(),
        flags: None,
        name: String::new(),
        description: String::new(),
    };
    assert(out@ =~= empty_appearance());
    let mut r = Reader::new(payload);
    while !r.is_done()
        invariant
            r.wf(),
            r@.bytes == s,
            s == payload@,
            appearance_fields(r@, out@) == spec_parse_appearance(s),
        decreases s.len() - r@.pos,
    {
        let tag = match r.tag() {
            Some(t) => t,
            None => return None,
        };
        let wt = tag.wire_type();
        match tag.field() {
            1 => {
                out.id = match r.varint() {
                    Some(v) => Some(v as u32),
                    None => return None,
                };
            },
            2 => {
                let pay = match r.len_payload() {
                    Some(p) => p,
                    None => return None,
                };
                match parse_frame_group(pay) {
                    Some(g) => {
                        let ghost old_view = out@;
                        out.frame_groups.push(g);
                        assert(out@.frame_groups =~= old_view.frame_groups.push(g@));
                    },
                    None => return None,
                }
            },
            3 => {
                let pay = match r.len_payload() {
                    Some(p) => p,
                    None => return None,
                };
                match parse_flags(pay) {
                    Some(f) => out.flags = Some(f),
                    None => return None,
                }
            },
            4 => {
                let pay = match r.len_payload() {
                    Some(p) => p,
                    None => return None,
                };
                out.name = lossy_string(pay);
            },
            5 => {
                let pay = match r.len_payload() {
                    Some(p) => p,
                    None => return None,
                };
                out.description = lossy_string(pay);
            },
            _ => {
                if r.skip(wt).is_none() {
                    return None;
                }
            },
        }
    }
    Some(out)
}

pub(crate) fn parse(b: &[u8]) -> (r: Option<Appearances>)
    ensures
        r matches Some(a) ==> spec_parse_appearances(b@) == Some(a@),
        r is None ==> spec_parse_appearances(b@) is None,
{
    let ghost s = b@;
    let mut out = Appearances { objects: Vec::new() };
    assert(out@ =~= Seq::<AppearanceView>::empty());
    let mut r = Reader::new(b);
    while !r.is_done()
        invariant
            r.wf(),
            r@.bytes == s,
            s == b@,
            appearances_fields(r@, out@) == spec_parse_appearances(s),
        decreases s.len() - r@.pos,
    {
        let tag = match r.tag() {
            Some(t) => t,
            None => return None,
        };
        let wt = tag.wire_type();
        match tag.field() {
            1 => {
                let payload = match r.len_payload() {
                    Some(p) => p,
                    None => return None,
                };
                match parse_appearance(payload) {
                    Some(a) => {
                        let ghost old_view = out@;
                        out.objects.push(a);
                        assert(out@ =~= old_view.push(a@));
                    },
                    None => return None,
                }
            },
            _ => {
                if r.skip(wt).is_none() {
                    return None;
                }
            },
        }
    }
    Some(out)
}

/// Reads the `Appearances` message of an `appearances.dat` file.
pub fn parse_appearances(data: &[u8]) -> (r: Option<Appearances>)
    ensures
        r matches Some(a) ==> spec_parse_appearances(data@) == Some(a@),
        r is None ==> spec_parse_appearances(data@) is None,
{
    parse(data)
}


} // verus!
