//! An open map (one tab of the editor) and the transactions that edit it.

use vstd::prelude::*;
use crate::history::{DeltaView, EditCommand, History, TileDelta, TileEditTransaction, write_tiles};
use crate::item::{Item, Tile, TileView, copy_tile, empty_tile_view, new_item_view};
use crate::position::{GROUND_FLOOR, Position};
use crate::spatial_map::SpatialMap;

verus! {

/// An open map.
pub struct MapDocument {
    pub name: String,
    pub map: SpatialMap,
    pub history: History,
    pub current_floor: u8,
    /// Whether the map changed since it was saved.
    pub dirty: bool,
}

/// The depth of a new document's history.
pub const HISTORY_DEPTH: usize = 500;

impl MapDocument {
    /// The document is usable: its map and its history are well formed.
    pub open spec fn wf(&self) -> bool {
        self.map.wf() && self.history.wf()
    }

    /// An empty map named `name`, on the ground floor, with a history of
    /// `HISTORY_DEPTH` commands.
    pub fn new(name: &str) -> (d: Self)
        ensures
            d.wf(),
            d.name@ == name@,
            d.map.tiles() == SpatialMap::new_tiles(),
            d.history.undo_cmds().len() == 0,
            d.history.redo_cmds().len() == 0,
            d.history.depth() == HISTORY_DEPTH,
            d.current_floor == GROUND_FLOOR,
            !d.dirty,
    {
        MapDocument {
            name: name.to_owned(),
            map: SpatialMap::new(),
            history: History::new(HISTORY_DEPTH),
            current_floor: GROUND_FLOOR,
            dirty: false,
        }
    }

    /// A new transaction, independent of the document.
    pub fn begin_transaction(&self, label: &'static str) -> (t: TransactionBuilder)
        ensures
            t.deltas_view() == Seq::<DeltaView>::empty(),
            t.label() == label,
    {
        let t = TransactionBuilder { deltas: Vec::new(), label };
        assert(t.deltas_view() =~= Seq::<DeltaView>::empty());
        t
    }
}

/// The ground of the sample patch at `(x, y)`: the atlas layers in turn,
/// from layer 1 (layer 0 is the transparent one).
pub open spec fn sample_ground_id(atlas_layers: u32, x: u16, y: u16) -> u16 {
    (1 + (x + y * 7) % (if atlas_layers < 1 { 1 } else { atlas_layers as int })) as u16
}

/// The tile of the sample map at `p`, when the first `n` positions of the
/// patch (row by row) are laid.
pub open spec fn sample_tile(atlas_layers: u32, n: int, p: Position) -> TileView {
    if p.z == GROUND_FLOOR && p.x < 16 && p.y < 16 && p.y * 16 + p.x < n {
        TileView { ground: Some(new_item_view(sample_ground_id(atlas_layers, p.x, p.y))), ..empty_tile_view() }
    } else {
        empty_tile_view()
    }
}

/// The sample map with the first `n` positions of the patch laid.
pub open spec fn sample_tiles(atlas_layers: u32, n: int) -> Map<Position, TileView> {
    Map::new(|p: Position| true, |p: Position| sample_tile(atlas_layers, n, p))
}

/// The document the editor opens with: "Global.otbm", a 16x16 patch of
/// ground on the ground floor from (0, 0), whose ids take the atlas layers
/// in turn.
pub fn sample_document(atlas_layers: u32) -> (d: MapDocument)
    ensures
        d.wf(),
        d.name@ == "Global.otbm"@,
        d.map.tiles() == sample_tiles(atlas_layers, 256),
        d.history.undo_cmds().len() == 0,
        d.history.redo_cmds().len() == 0,
        d.current_floor == GROUND_FLOOR,
        !d.dirty,
{
    let mut doc = MapDocument::new("Global.otbm");
    let layers = if atlas_layers < 1 {
        1
    } else {
        atlas_layers
    };
    assert(doc.map.tiles() =~= sample_tiles(atlas_layers, 0));
    let mut y: u16 = 0;
    while y < 16
        invariant
            y <= 16,
            doc.wf(),
            doc.name@ == "Global.otbm"@,
            doc.history.undo_cmds().len() == 0,
            doc.history.redo_cmds().len() == 0,
            doc.current_floor == GROUND_FLOOR,
            !doc.dirty,
            layers == (if atlas_layers < 1 { 1 } else { atlas_layers }),
            doc.map.tiles() == sample_tiles(atlas_layers, y * 16),
        decreases 16 - y,
    {
        let mut x: u16 = 0;
        while x < 16
            invariant
                y < 16,
                x <= 16,
                doc.wf(),
                doc.name@ == "Global.otbm"@,
                doc.history.undo_cmds().len() == 0,
                doc.history.redo_cmds().len() == 0,
                doc.current_floor == GROUND_FLOOR,
                !doc.dirty,
                layers == (if atlas_layers < 1 { 1 } else { atlas_layers }),
                doc.map.tiles() == sample_tiles(atlas_layers, y * 16 + x),
            decreases 16 - x,
        {
            let pos = Position { x, y, z: GROUND_FLOOR };
            let sprite_id = 1 + ((x as u32 + y as u32 * 7) % layers);
            let ghost before = doc.map.tiles();
            let t = doc.map.get_tile_mut(pos);
            t.ground = Some(Item::new(sprite_id as u16));
            proof {
                let n = y * 16 + x;
                assert(before[pos] == empty_tile_view());
                assert(doc.map.tiles() =~= sample_tiles(atlas_layers, n + 1)) by {
                    assert forall|p: Position| #[trigger] doc.map.tiles()[p] == sample_tile(atlas_layers, n + 1, p) by {
                        if p != pos && p.z == GROUND_FLOOR && p.x < 16 && p.y < 16 {
                            assert(p.y * 16 + p.x != n) by (nonlinear_arith)
                                requires
                                    p.x < 16,
                                    x < 16,
                                    p != pos,
                                    p.z == pos.z,
                                    pos.x == x,
                                    pos.y == y,
                                    n == y * 16 + x,
                            ;
                        }
                    }
                }
            }
            x += 1;
        }
        y += 1;
    }
    doc
}

/// A transaction being built (a click or a drag of a brush). It holds no
/// reference to the document: each method that reads it takes it.
pub struct TransactionBuilder {
    deltas: Vec<TileDelta>,
    label: &'static str,
}

impl TransactionBuilder {
    pub closed spec fn deltas_view(&self) -> Seq<DeltaView> {
        self.deltas@.map_values(|d: TileDelta| d@)
    }

    pub closed spec fn label(&self) -> &'static str {
        self.label
    }

    /// Records the tile at `pos` as it is now in the document, as both its
    /// `before` and (until `set_after`) its `after`.
    pub fn record_before(&mut self, doc: &MapDocument, pos: Position)
        requires
            doc.wf(),
        ensures
            final(self).label() == old(self).label(),
            final(self).deltas_view() == old(self).deltas_view().push(
                DeltaView { pos, before: doc.map.tile_at(pos), after: doc.map.tile_at(pos) },
            ),
    {
        let before = match doc.map.get_tile(pos) {
            Some(t) => copy_tile(t),
            None => Tile::default(),
        };
        let after = copy_tile(&before);
        let d = TileDelta { pos, before, after };
        let ghost dv = d@;
        self.deltas.push(d);
        assert(self.deltas_view() =~= old(self).deltas_view().push(dv));
    }

    /// Sets the `after` of the first tile recorded at `pos`; does nothing
    /// when none was.
    pub fn set_after(&mut self, pos: Position, after: Tile)
        ensures
            final(self).label() == old(self).label(),
            (exists|i: int| 0 <= i < old(self).deltas_view().len() && #[trigger] old(self).deltas_view()[i].pos == pos)
                ==> ({
                let i = choose|i: int|
                    0 <= i < old(self).deltas_view().len() && #[trigger] old(self).deltas_view()[i].pos == pos
                        && forall|j: int| 0 <= j < i ==> old(self).deltas_view()[j].pos != pos;
                final(self).deltas_view() == old(self).deltas_view().update(
                    i,
                    DeltaView { after: after@, ..old(self).deltas_view()[i] },
                )
            }),
            !(exists|i: int| 0 <= i < old(self).deltas_view().len() && #[trigger] old(self).deltas_view()[i].pos == pos)
                ==> final(self).deltas_view() == old(self).deltas_view(),
    {
        let mut i: usize = 0;
        while i < self.deltas.len()
            invariant
                i <= self.deltas@.len(),
                self.deltas@ == old(self).deltas@,
                self.label == old(self).label,
                forall|j: int| 0 <= j < i ==> (#[trigger] self.deltas@[j]).pos != pos,
            decreases self.deltas@.len() - i,
        {
            if self.deltas[i].pos == pos {
                let ghost av = after@;
                let old_d = self.deltas.remove(i);
                let d = TileDelta { pos: old_d.pos, before: old_d.before, after };
                self.deltas.insert(i, d);
                proof {
                    let ov = old(self).deltas_view();
                    assert(self.deltas_view() =~= ov.update(i as int, DeltaView { after: av, ..ov[i as int] }));
                    assert(ov[i as int].pos == pos);
                    assert forall|j: int| 0 <= j < i implies ov[j].pos != pos by {
                        assert(ov[j] == old(self).deltas@[j]@);
                    }
                    let c = choose|c: int|
                        0 <= c < ov.len() && #[trigger] ov[c].pos == pos && forall|j: int| 0 <= j < c ==> ov[j].pos != pos;
                    if c < i {
                        assert(ov[c].pos != pos);
                    } else if c > i {
                        assert(ov[i as int].pos != pos);
                    }
                }
                return;
            }
            i += 1;
        }
        proof {
            let ov = old(self).deltas_view();
            assert forall|k: int| 0 <= k < ov.len() implies #[trigger] ov[k].pos != pos by {
                assert(ov[k] == old(self).deltas@[k]@);
            }
        }
    }

    /// Makes the transaction the document's last command (unless nothing
    /// was recorded), done on its map, and marks the document changed.
    pub fn commit(self, doc: &mut MapDocument)
        requires
            old(doc).wf(),
        ensures
            final(doc).wf(),
            final(doc).name == old(doc).name,
            final(doc).current_floor == old(doc).current_floor,
            self.deltas_view().len() == 0 ==> *final(doc) == *old(doc),
            self.deltas_view().len() > 0 ==> {
                &&& final(doc).map.tiles() == write_tiles(old(doc).map.tiles(), self.deltas_view(), true)
                &&& final(doc).history.depth() == old(doc).history.depth()
                &&& final(doc).history.depth() > 0 ==> final(doc).history.undo_cmds().last() == self.deltas_view()
                &&& final(doc).history.depth() > 0 ==> final(doc).history.undo_labels().last() == self.label()
                &&& final(doc).history.redo_cmds().len() == 0
                &&& final(doc).dirty
            },
    {
        if self.deltas.len() == 0 {
            return;
        }
        let ghost ds = self.deltas_view();
        let cmd = EditCommand::TileEdit(TileEditTransaction { deltas: self.deltas, label: self.label });
        assert(cmd.deltas_view() =~= ds);
        assert(cmd.label() == self.label());
        doc.history.push(cmd, &mut doc.map);
        doc.dirty = true;
    }
}

} // verus!
