//! Edit history: each edit is a transaction of tile changes, which can be
//! undone and redone.

use vstd::prelude::*;
use crate::item::{Tile, TileView, copy_tile};
use crate::position::Position;
use crate::spatial_map::SpatialMap;

verus! {

/// The change of one tile in a transaction.
pub struct TileDelta {
    pub pos: Position,
    pub before: Tile,
    pub after: Tile,
}

pub struct DeltaView {
    pub pos: Position,
    pub before: TileView,
    pub after: TileView,
}

impl View for TileDelta {
    type V = DeltaView;

    open spec fn view(&self) -> DeltaView {
        DeltaView { pos: self.pos, before: self.before@, after: self.after@ }
    }
}

/// Everything that happened between pressing and releasing the mouse.
pub struct TileEditTransaction {
    pub deltas: Vec<TileDelta>,
    /// For the interface: "Draw Grass", "Erase", "Fill"...
    pub label: &'static str,
}

impl TileEditTransaction {
    pub open spec fn deltas_view(&self) -> Seq<DeltaView> {
        self.deltas@.map_values(|d: TileDelta| d@)
    }
}

pub enum EditCommand {
    TileEdit(TileEditTransaction),
}

/// The commands to undo after `c` is pushed onto `u` in a history of depth
/// `depth`: the oldest is dropped when there are more than `depth`.
pub open spec fn pushed<A>(u: Seq<A>, c: A, depth: nat) -> Seq<A> {
    if u.len() + 1 > depth {
        u.push(c).drop_first()
    } else {
        u.push(c)
    }
}

/// After a push onto `u` commands (never more than the depth), exactly
/// `min(u + 1, depth)` commands can be undone, the last pushed first.
pub proof fn lemma_push_undo_count<A>(u: Seq<A>, c: A, depth: nat)
    requires
        u.len() <= depth,
    ensures
        pushed(u, c, depth).len() == (if u.len() + 1 <= depth { u.len() + 1 } else { depth }),
        depth >= 1 ==> pushed(u, c, depth).last() == c,
{
}

impl EditCommand {
    /// The tile changes of the command, in order.
    pub open spec fn deltas_view(&self) -> Seq<DeltaView> {
        match self {
            EditCommand::TileEdit(tx) => tx.deltas_view(),
        }
    }

    /// The name the interface shows for the command.
    pub open spec fn label(&self) -> &'static str {
        match self {
            EditCommand::TileEdit(tx) => tx.label,
        }
    }
}

/// The map with the tile of each delta set, in order (a later delta at the
/// same position wins): its `after` tile when `after` is set, else its
/// `before` tile.
pub open spec fn write_tiles(m: Map<Position, TileView>, ds: Seq<DeltaView>, after: bool) -> Map<Position, TileView>
    decreases ds.len(),
{
    if ds.len() == 0 {
        m
    } else {
        let d = ds.last();
        write_tiles(m, ds.drop_last(), after).insert(d.pos, if after { d.after } else { d.before })
    }
}

/// Whether some delta is at `q`.
pub open spec fn touches(ds: Seq<DeltaView>, q: Position) -> bool
    decreases ds.len(),
{
    ds.len() > 0 && (ds.last().pos == q || touches(ds.drop_last(), q))
}

/// The tile that the last delta at `q` sets.
pub open spec fn last_tile(ds: Seq<DeltaView>, q: Position, after: bool) -> TileView
    decreases ds.len(),
{
    if ds.len() == 0 {
        TileView { ground: None, items: Seq::empty(), zone: 0, house_id: 0, spawn_id: None }
    } else if ds.last().pos == q {
        if after {
            ds.last().after
        } else {
            ds.last().before
        }
    } else {
        last_tile(ds.drop_last(), q, after)
    }
}

/// Every delta's `before` is what `m` holds at its position.
pub open spec fn befores_match(m: Map<Position, TileView>, ds: Seq<DeltaView>) -> bool {
    forall|i: int| 0 <= i < ds.len() ==> #[trigger] ds[i].before == m[ds[i].pos]
}

/// A total map: it holds a tile at every position.
pub open spec fn total(m: Map<Position, TileView>) -> bool {
    forall|q: Position| #[trigger] m.dom().contains(q)
}

/// After writing the deltas, a position holds what the last delta there
/// sets, or what it held before when no delta is there.
proof fn lemma_write_tiles(m: Map<Position, TileView>, ds: Seq<DeltaView>, after: bool)
    requires
        total(m),
    ensures
        total(write_tiles(m, ds, after)),
        forall|q: Position| #[trigger] write_tiles(m, ds, after)[q] == (if touches(ds, q) {
            last_tile(ds, q, after)
        } else {
            m[q]
        }),
    decreases ds.len(),
{
    if ds.len() > 0 {
        lemma_write_tiles(m, ds.drop_last(), after);
    }
}

proof fn lemma_last_before(m: Map<Position, TileView>, ds: Seq<DeltaView>, q: Position)
    requires
        befores_match(m, ds),
        touches(ds, q),
    ensures
        last_tile(ds, q, false) == m[q],
    decreases ds.len(),
{
    if ds.last().pos != q {
        assert forall|i: int| 0 <= i < ds.drop_last().len() implies #[trigger] ds.drop_last()[i].before
            == m[ds.drop_last()[i].pos] by {
            assert(ds.drop_last()[i] == ds[i]);
        }
        lemma_last_before(m, ds.drop_last(), q);
    } else {
        assert(ds[ds.len() - 1].before == m[ds[ds.len() - 1].pos]);
    }
}

/// Undoing a transaction right after doing it gives back the map it was
/// done on, when each of its `before` tiles is what that map held.
pub proof fn lemma_undo_restores(m: Map<Position, TileView>, ds: Seq<DeltaView>)
    requires
        total(m),
        befores_match(m, ds),
    ensures
        write_tiles(write_tiles(m, ds, true), ds, false) == m,
{
    let m1 = write_tiles(m, ds, true);
    lemma_write_tiles(m, ds, true);
    lemma_write_tiles(m1, ds, false);
    assert forall|q: Position| #[trigger] write_tiles(m1, ds, false)[q] == m[q] by {
        if touches(ds, q) {
            lemma_last_before(m, ds, q);
        }
    }
    assert(write_tiles(m1, ds, false) =~= m);
}

/// Redoing a transaction right after undoing it gives the map that doing it
/// gave: whatever the map, undoing and then doing a transaction is the
/// same as doing it.
pub proof fn lemma_redo_after_undo(m: Map<Position, TileView>, ds: Seq<DeltaView>)
    requires
        total(m),
    ensures
        write_tiles(write_tiles(m, ds, false), ds, true) == write_tiles(m, ds, true),
{
    let m1 = write_tiles(m, ds, false);
    lemma_write_tiles(m, ds, false);
    lemma_write_tiles(m1, ds, true);
    lemma_write_tiles(m, ds, true);
    assert(write_tiles(m1, ds, true) =~= write_tiles(m, ds, true));
}

impl EditCommand {
    /// Sets each delta's `after` tile, in order.
    pub fn apply(&self, map: &mut SpatialMap)
        requires
            old(map).wf(),
        ensures
            final(map).wf(),
            final(map).tiles() == write_tiles(old(map).tiles(), self.deltas_view(), true),
    {
        match self {
            EditCommand::TileEdit(tx) => {
                let ghost ds = tx.deltas_view();
                let mut i: usize = 0;
                while i < tx.deltas.len()
                    invariant
                        i <= tx.deltas@.len(),
                        ds == tx.deltas_view(),
                        ds.len() == tx.deltas@.len(),
                        map.wf(),
                        map.tiles() == write_tiles(old(map).tiles(), ds.take(i as int), true),
                    decreases tx.deltas@.len() - i,
                {
                    let d = &tx.deltas[i];
                    assert(ds.take(i + 1).drop_last() =~= ds.take(i as int));
                    assert(ds.take(i + 1).last() == d@);
                    *map.get_tile_mut(d.pos) = copy_tile(&d.after);
                    i += 1;
                }
                assert(ds.take(ds.len() as int) =~= ds);
            },
        }
    }

    /// Sets each delta's `before` tile, in order, freeing each chunk that
    /// is left empty.
    pub fn undo(&self, map: &mut SpatialMap)
        requires
            old(map).wf(),
        ensures
            final(map).wf(),
            final(map).tiles() == write_tiles(old(map).tiles(), self.deltas_view(), false),
    {
        match self {
            EditCommand::TileEdit(tx) => {
                let ghost ds = tx.deltas_view();
                let mut i: usize = 0;
                while i < tx.deltas.len()
                    invariant
                        i <= tx.deltas@.len(),
                        ds == tx.deltas_view(),
                        ds.len() == tx.deltas@.len(),
                        map.wf(),
                        map.tiles() == write_tiles(old(map).tiles(), ds.take(i as int), false),
                    decreases tx.deltas@.len() - i,
                {
                    let d = &tx.deltas[i];
                    assert(ds.take(i + 1).drop_last() =~= ds.take(i as int));
                    assert(ds.take(i + 1).last() == d@);
                    *map.get_tile_mut(d.pos) = copy_tile(&d.before);
                    map.compact_chunk_if_empty(d.pos.chunk_coord());
                    i += 1;
                }
                assert(ds.take(ds.len() as int) =~= ds);
            },
        }
    }
}

/// The undo and redo stacks. At most `max_depth` commands are kept: the
/// oldest is dropped when a new one would exceed that.
pub struct History {
    undo_stack: Vec<EditCommand>,
    redo_stack: Vec<EditCommand>,
    max_depth: usize,
}

impl History {
    /// The commands that can be undone, oldest first.
    pub closed spec fn undo_cmds(&self) -> Seq<Seq<DeltaView>> {
        self.undo_stack@.map_values(|c: EditCommand| c.deltas_view())
    }

    /// The commands that can be redone, the next one last.
    pub closed spec fn redo_cmds(&self) -> Seq<Seq<DeltaView>> {
        self.redo_stack@.map_values(|c: EditCommand| c.deltas_view())
    }

    /// The names of the commands that can be undone, oldest first.
    pub closed spec fn undo_labels(&self) -> Seq<&'static str> {
        self.undo_stack@.map_values(|c: EditCommand| c.label())
    }

    /// The names of the commands that can be redone, the next one last.
    pub closed spec fn redo_labels(&self) -> Seq<&'static str> {
        self.redo_stack@.map_values(|c: EditCommand| c.label())
    }

    pub closed spec fn depth(&self) -> nat {
        self.max_depth as nat
    }

    /// The history never holds more than `max_depth` commands in all.
    pub open spec fn wf(&self) -> bool {
        self.undo_cmds().len() + self.redo_cmds().len() <= self.depth()
    }

    pub fn new(max_depth: usize) -> (h: Self)
        ensures
            h.wf(),
            h.undo_cmds() == Seq::<Seq<DeltaView>>::empty(),
            h.redo_cmds() == Seq::<Seq<DeltaView>>::empty(),
            h.undo_labels().len() == 0,
            h.redo_labels().len() == 0,
            h.depth() == max_depth,
    {
        let h = History { undo_stack: Vec::new(), redo_stack: Vec::new(), max_depth };
        assert(h.undo_labels() =~= Seq::<&'static str>::empty());
        assert(h.redo_labels() =~= Seq::<&'static str>::empty());
        assert(h.undo_cmds() =~= Seq::<Seq<DeltaView>>::empty());
        assert(h.redo_cmds() =~= Seq::<Seq<DeltaView>>::empty());
        h
    }

    /// Does `cmd` on the map and makes it the last command to undo; the
    /// commands to redo are forgotten, and the oldest command is dropped
    /// when there are more than `max_depth`.
    pub fn push(&mut self, cmd: EditCommand, map: &mut SpatialMap)
        requires
            old(self).wf(),
            old(map).wf(),
        ensures
            final(self).wf(),
            final(map).wf(),
            final(map).tiles() == write_tiles(old(map).tiles(), cmd.deltas_view(), true),
            final(self).depth() == old(self).depth(),
            final(self).redo_cmds() == Seq::<Seq<DeltaView>>::empty(),
            final(self).undo_cmds() == pushed(old(self).undo_cmds(), cmd.deltas_view(), old(self).depth()),
            final(self).undo_labels() == pushed(old(self).undo_labels(), cmd.label(), old(self).depth()),
            final(self).redo_labels().len() == 0,
    {
        cmd.apply(map);
        self.redo_stack.clear();
        let ghost before = self.undo_stack@;
        self.undo_stack.push(cmd);
        assert(self.undo_cmds() =~= old(self).undo_cmds().push(cmd.deltas_view()));
        assert(self.undo_labels() =~= old(self).undo_labels().push(cmd.label()));
        if self.undo_stack.len() > self.max_depth {
            let ghost pushed = self.undo_stack@;
            self.undo_stack.remove(0);
            assert(self.undo_cmds() =~= old(self).undo_cmds().push(cmd.deltas_view()).drop_first());
            assert(self.undo_labels() =~= old(self).undo_labels().push(cmd.label()).drop_first());
        }
        assert(self.redo_cmds() =~= Seq::<Seq<DeltaView>>::empty());
        assert(self.redo_labels() =~= Seq::<&'static str>::empty());
    }

    /// Undoes the last command, if there is one, and makes it the next
    /// command to redo; says whether there was one.
    pub fn undo(&mut self, map: &mut SpatialMap) -> (done: bool)
        requires
            old(self).wf(),
            old(map).wf(),
        ensures
            final(self).wf(),
            final(map).wf(),
            final(self).depth() == old(self).depth(),
            done == (old(self).undo_cmds().len() > 0),
            done ==> final(map).tiles() == write_tiles(old(map).tiles(), old(self).undo_cmds().last(), false),
            done ==> final(self).undo_cmds() == old(self).undo_cmds().drop_last(),
            done ==> final(self).redo_cmds() == old(self).redo_cmds().push(old(self).undo_cmds().last()),
            done ==> final(self).undo_labels() == old(self).undo_labels().drop_last(),
            done ==> final(self).redo_labels() == old(self).redo_labels().push(old(self).undo_labels().last()),
            !done ==> final(map).tiles() == old(map).tiles() && final(self).undo_cmds() == old(self).undo_cmds()
                && final(self).redo_cmds() == old(self).redo_cmds(),
            !done ==> final(self).undo_labels() == old(self).undo_labels() && final(self).redo_labels()
                == old(self).redo_labels(),
    {
        match self.undo_stack.pop() {
            Some(cmd) => {
                cmd.undo(map);
                assert(self.undo_cmds() =~= old(self).undo_cmds().drop_last());
                assert(self.undo_labels() =~= old(self).undo_labels().drop_last());
                self.redo_stack.push(cmd);
                assert(self.redo_cmds() =~= old(self).redo_cmds().push(old(self).undo_cmds().last()));
                assert(self.redo_labels() =~= old(self).redo_labels().push(old(self).undo_labels().last()));
                true
            },
            None => false,
        }
    }

    /// Redoes the next command, if there is one, and makes it the last
    /// command to undo; says whether there was one.
    pub fn redo(&mut self, map: &mut SpatialMap) -> (done: bool)
        requires
            old(self).wf(),
            old(map).wf(),
        ensures
            final(self).wf(),
            final(map).wf(),
            final(self).depth() == old(self).depth(),
            done == (old(self).redo_cmds().len() > 0),
            done ==> final(map).tiles() == write_tiles(old(map).tiles(), old(self).redo_cmds().last(), true),
            done ==> final(self).redo_cmds() == old(self).redo_cmds().drop_last(),
            done ==> final(self).undo_cmds() == old(self).undo_cmds().push(old(self).redo_cmds().last()),
            done ==> final(self).redo_labels() == old(self).redo_labels().drop_last(),
            done ==> final(self).undo_labels() == old(self).undo_labels().push(old(self).redo_labels().last()),
            !done ==> final(map).tiles() == old(map).tiles() && final(self).undo_cmds() == old(self).undo_cmds()
                && final(self).redo_cmds() == old(self).redo_cmds(),
            !done ==> final(self).undo_labels() == old(self).undo_labels() && final(self).redo_labels()
                == old(self).redo_labels(),
    {
        match self.redo_stack.pop() {
            Some(cmd) => {
                cmd.apply(map);
                assert(self.redo_cmds() =~= old(self).redo_cmds().drop_last());
                assert(self.redo_labels() =~= old(self).redo_labels().drop_last());
                self.undo_stack.push(cmd);
                assert(self.undo_cmds() =~= old(self).undo_cmds().push(old(self).redo_cmds().last()));
                assert(self.undo_labels() =~= old(self).undo_labels().push(old(self).redo_labels().last()));
                true
            },
            None => false,
        }
    }
}

} // verus!
