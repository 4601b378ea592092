//! Items placed on the map, and the tiles that hold them.
//!
//! The static properties of an item (whether it blocks, its light, whether
//! it is a door) live in the item table, by `type_id`; an item on the map
//! holds only what differs from one instance to the next.

use vstd::prelude::*;
use smallvec::SmallVec;

verus! {

pub type ItemTypeId = u16;

/// Which optional parts of an item are set: a set of the `HAS_*` bits.
#[derive(Copy, Clone, Debug, Default, PartialEq, Eq, Structural)]
pub struct ItemAttrFlags {
    pub bits: u8,
}

impl ItemAttrFlags {
    pub const HAS_COUNT: u8 = 1;
    pub const HAS_ACTION_ID: u8 = 2;
    pub const HAS_UNIQUE_ID: u8 = 4;
    pub const HAS_TEXT: u8 = 8;
    pub const HAS_CONTAINER: u8 = 16;

    pub fn empty() -> (f: Self)
        ensures
            f.bits == 0,
    {
        ItemAttrFlags { bits: 0 }
    }

    /// Whether every bit of `flags` is set.
    pub fn contains(&self, flags: u8) -> (b: bool)
        ensures
            b == (self.bits & flags == flags),
    {
        self.bits & flags == flags
    }

    /// Sets the bits of `flags` too.
    pub fn insert(&mut self, flags: u8)
        ensures
            final(self).bits == old(self).bits | flags,
    {
        self.bits = self.bits | flags;
    }

    pub fn is_empty(&self) -> (b: bool)
        ensures
            b == (self.bits == 0),
    {
        self.bits == 0
    }
}

/// The zone of a tile: a set of the bits below.
#[derive(Copy, Clone, Debug, Default, PartialEq, Eq, Structural)]
pub struct TileZoneFlags {
    pub bits: u16,
}

impl TileZoneFlags {
    pub const PROTECTION_ZONE: u16 = 1;
    pub const NO_LOGOUT: u16 = 2;
    pub const PVP_ZONE: u16 = 4;
    pub const NO_PVP_ZONE: u16 = 8;
    pub const HOUSE_TILE: u16 = 16;
    pub const REFRESH: u16 = 32;

    pub fn empty() -> (f: Self)
        ensures
            f.bits == 0,
    {
        TileZoneFlags { bits: 0 }
    }

    /// Whether every bit of `flags` is set.
    pub fn contains(&self, flags: u16) -> (b: bool)
        ensures
            b == (self.bits & flags == flags),
    {
        self.bits & flags == flags
    }

    /// Sets the bits of `flags` too.
    pub fn insert(&mut self, flags: u16)
        ensures
            final(self).bits == old(self).bits | flags,
    {
        self.bits = self.bits | flags;
    }

    pub fn is_empty(&self) -> (b: bool)
        ensures
            b == (self.bits == 0),
    {
        self.bits == 0
    }
}

/// An item on the map.
#[derive(Debug)]
pub struct Item {
    pub type_id: ItemTypeId,
    pub attrs: ItemAttrFlags,
    /// Subtype: stack count or fluid type.
    pub count: u8,
    pub action_id: u16,
    pub unique_id: u16,
    /// Set only with `HAS_TEXT`.
    pub text: Option<String>,
    /// Set only with `HAS_CONTAINER`.
    pub container: Option<Box<Vec<Item>>>,
}

pub struct ItemView {
    pub type_id: u16,
    pub attrs: u8,
    pub count: u8,
    pub action_id: u16,
    pub unique_id: u16,
    pub text: Option<Seq<char>>,
    pub container: Option<Seq<ItemView>>,
}

/// The views of the first `n` items of `s`.
pub open spec fn view_item_list(s: Seq<Item>, n: nat) -> Seq<ItemView>
    decreases s, n,
{
    if n == 0 || n > s.len() {
        Seq::empty()
    } else {
        view_item_list(s, (n - 1) as nat).push(s[n - 1].view_item())
    }
}

/// The views of all items of `s`.
pub open spec fn view_items_all(s: Seq<Item>) -> Seq<ItemView> {
    view_item_list(s, s.len())
}

pub proof fn lemma_view_item_list(s: Seq<Item>, n: nat)
    requires
        n <= s.len(),
    ensures
        view_item_list(s, n).len() == n,
        forall|i: int| 0 <= i < n ==> #[trigger] view_item_list(s, n)[i] == s[i].view_item(),
    decreases n,
{
    if n > 0 {
        lemma_view_item_list(s, (n - 1) as nat);
    }
}

/// Two sequences of items whose items have equal views have equal views.
pub proof fn lemma_view_items_equal(s: Seq<Item>, t: Seq<Item>)
    requires
        s.len() == t.len(),
        forall|i: int| 0 <= i < s.len() ==> #[trigger] s[i].view_item() == t[i].view_item(),
    ensures
        view_items_all(s) == view_items_all(t),
{
    lemma_view_item_list(s, s.len());
    lemma_view_item_list(t, t.len());
    assert(view_items_all(s) =~= view_items_all(t));
}

pub open spec fn opt_text(o: Option<String>) -> Option<Seq<char>> {
    match o {
        Some(s) => Some(s@),
        None => None,
    }
}

impl Item {
    pub open spec fn view_item(self) -> ItemView
        decreases self, 0nat,
    {
        ItemView {
            type_id: self.type_id,
            attrs: self.attrs.bits,
            count: self.count,
            action_id: self.action_id,
            unique_id: self.unique_id,
            text: opt_text(self.text),
            container: match self.container {
                Some(b) => Some(view_item_list(b@, b@.len())),
                None => None,
            },
        }
    }

    /// An item of type `type_id`, with count 1 and nothing else set.
    pub fn new(type_id: ItemTypeId) -> (item: Self)
        ensures
            item.view_item() == new_item_view(type_id),
    {
        Item {
            type_id,
            attrs: ItemAttrFlags::empty(),
            count: 1,
            action_id: 0,
            unique_id: 0,
            text: None,
            container: None,
        }
    }
}

/// The view of `Item::new(type_id)`.
pub open spec fn new_item_view(type_id: u16) -> ItemView {
    ItemView {
        type_id,
        attrs: 0,
        count: 1,
        action_id: 0,
        unique_id: 0,
        text: None,
        container: None,
    }
}

impl View for Item {
    type V = ItemView;

    open spec fn view(&self) -> ItemView {
        self.view_item()
    }
}

/// A copy of an item, contents included.
pub fn copy_item(item: &Item) -> (r: Item)
    ensures
        r.view_item() == item.view_item(),
    decreases item,
{
    let container = match &item.container {
        None => None,
        Some(b) => {
            let inner: &Vec<Item> = b;
            let mut v: Vec<Item> = Vec::new();
            let mut i: usize = 0;
            while i < inner.len()
                invariant
                    i <= inner@.len(),
                    item.container == Some(*b),
                    *inner == **b,
                    v@.len() == i,
                    forall|k: int| 0 <= k < i ==> #[trigger] v@[k].view_item() == inner@[k].view_item(),
                decreases inner@.len() - i,
            {
                proof {
                    assert(decreases_to!(item => item.container));
                    assert(decreases_to!(item.container => item.container->0));
                    assert(decreases_to!(inner => inner@));
                    assert(decreases_to!(inner@ => inner@[i as int]));
                }
                let c = copy_item(&inner[i]);
                v.push(c);
                i += 1;
            }
            proof {
                lemma_view_items_equal(v@, inner@);
            }
            Some(Box::new(v))
        },
    };
    let text = match &item.text {
        None => None,
        Some(t) => Some(t.clone()),
    };
    Item {
        type_id: item.type_id,
        attrs: item.attrs,
        count: item.count,
        action_id: item.action_id,
        unique_id: item.unique_id,
        text,
        container,
    }
}

// ---------------------------------------------------------------------------
// The items of a tile
// ---------------------------------------------------------------------------

/// The items of a tile, kept in a `SmallVec` (most tiles hold a few items
/// besides the ground, which then need no allocation).
#[verifier::external_body]
#[derive(Debug)]
pub struct TileItems {
    v: SmallVec<[Item; 4]>,
}

/// The items a tile holds, in stacking order.
pub uninterp spec fn small_items(v: TileItems) -> Seq<Item>;

/// `SmallVec::new`: an empty vector.
#[verifier::external_body]
fn small_new() -> (v: TileItems)
    ensures
        small_items(v) == Seq::<Item>::empty(),
{
    TileItems { v: SmallVec::new() }
}

/// `SmallVec::push`: appends `item` at the end.
#[verifier::external_body]
fn small_push(v: &mut TileItems, item: Item)
    ensures
        small_items(*final(v)) == small_items(*old(v)).push(item),
{
    v.v.push(item)
}

/// `SmallVec::insert`: puts `item` at `index`, shifting the items from
/// there one place on; it panics when `index` is past the length.
#[verifier::external_body]
fn small_insert(v: &mut TileItems, index: usize, item: Item)
    requires
        index <= small_items(*old(v)).len(),
    ensures
        small_items(*final(v)) == small_items(*old(v)).insert(index as int, item),
{
    v.v.insert(index, item)
}

/// `SmallVec::len`: the number of items.
#[verifier::external_body]
fn small_len(v: &TileItems) -> (n: usize)
    ensures
        n == small_items(*v).len(),
{
    v.v.len()
}

/// Indexing a `SmallVec`: the item at `i`, which is below the length.
#[verifier::external_body]
fn small_get(v: &TileItems, i: usize) -> (r: &Item)
    requires
        i < small_items(*v).len(),
    ensures
        *r == small_items(*v)[i as int],
{
    &v.v[i]
}

impl TileItems {
    pub fn len(&self) -> (n: usize)
        ensures
            n == small_items(*self).len(),
    {
        small_len(self)
    }

    pub fn is_empty(&self) -> (b: bool)
        ensures
            b == (small_items(*self).len() == 0),
    {
        small_len(self) == 0
    }

    /// The item at `i`, which is below the length.
    pub fn get(&self, i: usize) -> (r: &Item)
        requires
            i < small_items(*self).len(),
        ensures
            *r == small_items(*self)[i as int],
    {
        small_get(self, i)
    }
}

/// A tile: its ground, the items on it in stacking order, its zone, its
/// house and its spawn.
#[derive(Debug)]
pub struct Tile {
    pub ground: Option<Item>,
    pub items: TileItems,
    pub zone: TileZoneFlags,
    pub house_id: u32,
    pub spawn_id: Option<u32>,
}

pub struct TileView {
    pub ground: Option<ItemView>,
    pub items: Seq<ItemView>,
    pub zone: u16,
    pub house_id: u32,
    pub spawn_id: Option<u32>,
}

impl View for Tile {
    type V = TileView;

    open spec fn view(&self) -> TileView {
        TileView {
            ground: match self.ground {
                Some(g) => Some(g.view_item()),
                None => None,
            },
            items: view_items_all(small_items(self.items)),
            zone: self.zone.bits,
            house_id: self.house_id,
            spawn_id: self.spawn_id,
        }
    }
}

/// The empty tile: no ground, no items, no zone, no house, no spawn.
pub open spec fn empty_tile_view() -> TileView {
    TileView { ground: None, items: Seq::empty(), zone: 0, house_id: 0, spawn_id: None }
}

impl Default for Tile {
    fn default() -> (t: Self)
        ensures
            t@ == empty_tile_view(),
    {
        let t = Tile {
            ground: None,
            items: small_new(),
            zone: TileZoneFlags::empty(),
            house_id: 0,
            spawn_id: None,
        };
        proof {
            lemma_view_item_list(small_items(t.items), 0);
        }
        assert(t@.items =~= Seq::<ItemView>::empty());
        t
    }
}

impl Tile {
    /// Whether the tile holds nothing at all.
    pub fn is_empty(&self) -> (b: bool)
        ensures
            b == (self@ == empty_tile_view()),
    {
        let n = small_len(&self.items);
        proof {
            lemma_view_item_list(small_items(self.items), small_items(self.items).len());
            if n == 0 {
                assert(self@.items =~= Seq::<ItemView>::empty());
            }
        }
        self.ground.is_none() && n == 0 && self.zone.is_empty() && self.house_id == 0
            && self.spawn_id.is_none()
    }

    /// The number of items on the tile, ground excluded.
    pub fn item_count(&self) -> (n: usize)
        ensures
            n == self@.items.len(),
    {
        proof {
            lemma_view_item_list(small_items(self.items), small_items(self.items).len());
        }
        small_len(&self.items)
    }

    /// The item at `i` on the tile.
    pub fn item_at(&self, i: usize) -> (r: &Item)
        requires
            i < self@.items.len(),
        ensures
            r.view_item() == self@.items[i as int],
    {
        proof {
            lemma_view_item_list(small_items(self.items), small_items(self.items).len());
        }
        small_get(&self.items, i)
    }

    /// Puts `item` on the tile at the end.
    pub fn push_item(&mut self, item: Item)
        ensures
            final(self)@ == (TileView { items: old(self)@.items.push(item.view_item()), ..old(self)@ }),
    {
        let ghost before = small_items(self.items);
        small_push(&mut self.items, item);
        proof {
            lemma_view_item_list(before, before.len());
            lemma_view_item_list(small_items(self.items), small_items(self.items).len());
        }
        assert(self@.items =~= old(self)@.items.push(item.view_item()));
    }

    /// Puts `item` on the tile at `index`, below the items from there on.
    pub fn insert_item(&mut self, index: usize, item: Item)
        requires
            index <= old(self)@.items.len(),
        ensures
            final(self)@ == (TileView {
                items: old(self)@.items.insert(index as int, item.view_item()),
                ..old(self)@
            }),
    {
        let ghost before = small_items(self.items);
        proof {
            lemma_view_item_list(before, before.len());
        }
        small_insert(&mut self.items, index, item);
        proof {
            lemma_view_item_list(small_items(self.items), small_items(self.items).len());
        }
        assert(self@.items =~= old(self)@.items.insert(index as int, item.view_item()));
    }
}

/// A copy of a tile, items included.
pub fn copy_tile(t: &Tile) -> (r: Tile)
    ensures
        r@ == t@,
{
    let n = small_len(&t.items);
    let mut items = small_new();
    let mut i: usize = 0;
    while i < n
        invariant
            i <= n,
            n == small_items(t.items).len(),
            small_items(items).len() == i,
            forall|k: int| 0 <= k < i ==> #[trigger] small_items(items)[k].view_item() == small_items(t.items)[k].view_item(),
        decreases n - i,
    {
        let c = copy_item(small_get(&t.items, i));
        small_push(&mut items, c);
        i += 1;
    }
    proof {
        lemma_view_items_equal(small_items(items), small_items(t.items));
    }
    let ground = match &t.ground {
        None => None,
        Some(g) => Some(copy_item(g)),
    };
    Tile { ground, items, zone: t.zone, house_id: t.house_id, spawn_id: t.spawn_id }
}

} // verus!
