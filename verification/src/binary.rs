//! The node-tree format of OTBM files.
//!
//! Three tokens shape the stream:
//!   - `0xFE` opens a node (the next byte is the node's type byte);
//!   - `0xFF` closes the current node;
//!   - `0xFD` escapes the next byte, so payloads may hold any byte.
//!
//! A node's payload comes before its children. The tree is built in one
//! recursive pass; a node's `data` freezes at its first child.

use vstd::prelude::*;
use vstd::slice::slice_subrange;
use crate::text::{lossy_string, utf8_lossy};

verus! {

pub const NODE_START: u8 = 0xFE;
pub const NODE_END: u8 = 0xFF;
pub const ESCAPE_CHAR: u8 = 0xFD;

// ---------------------------------------------------------------------------
// Reading little-endian values
// ---------------------------------------------------------------------------

/// Little-endian `u16` made of `s[i]`, `s[i + 1]`.
pub open spec fn le_u16(s: Seq<u8>, i: int) -> int {
    s[i] + 256 * s[i + 1]
}

/// Little-endian `u32` made of the four bytes from `s[i]`.
pub open spec fn le_u32(s: Seq<u8>, i: int) -> int {
    le_u16(s, i) + 65536 * le_u16(s, i + 2)
}

/// Little-endian `u64` made of the eight bytes from `s[i]`.
pub open spec fn le_u64(s: Seq<u8>, i: int) -> int {
    le_u32(s, i) + 0x1_0000_0000 * le_u32(s, i + 4)
}

/// A reading position inside a byte sequence.
pub struct CursorView {
    pub bytes: Seq<u8>,
    pub pos: int,
}

impl CursorView {
    pub open spec fn wf(self) -> bool {
        0 <= self.pos <= self.bytes.len()
    }

    pub open spec fn remaining(self) -> int {
        self.bytes.len() - self.pos
    }

    /// Taking `n` bytes: they are handed out and the position moves past
    /// them; when fewer than `n` remain, nothing is handed out and the
    /// position moves to the end.
    pub open spec fn take(self, n: int) -> (Option<Seq<u8>>, CursorView) {
        if 0 <= n && self.pos + n <= self.bytes.len() {
            (Some(self.bytes.subrange(self.pos, self.pos + n)), CursorView { bytes: self.bytes, pos: self.pos + n })
        } else {
            (None, CursorView { bytes: self.bytes, pos: self.bytes.len() as int })
        }
    }

    pub open spec fn read_u8(self) -> (Option<u8>, CursorView) {
        let (b, next) = self.take(1);
        (if b is Some { Some(self.bytes[self.pos]) } else { None }, next)
    }

    pub open spec fn read_u16(self) -> (Option<u16>, CursorView) {
        let (b, next) = self.take(2);
        (if b is Some { Some(le_u16(self.bytes, self.pos) as u16) } else { None }, next)
    }

    pub open spec fn read_u32(self) -> (Option<u32>, CursorView) {
        let (b, next) = self.take(4);
        (if b is Some { Some(le_u32(self.bytes, self.pos) as u32) } else { None }, next)
    }

    pub open spec fn read_u64(self) -> (Option<u64>, CursorView) {
        let (b, next) = self.take(8);
        (if b is Some { Some(le_u64(self.bytes, self.pos) as u64) } else { None }, next)
    }

    /// A string with a `u16` length prefix, decoded lossily.
    pub open spec fn read_string(self) -> (Option<Seq<char>>, CursorView) {
        let (len, c1) = self.read_u16();
        match len {
            Some(n) => {
                let (raw, c2) = c1.take(n as int);
                match raw {
                    Some(b) => (Some(utf8_lossy(b)), c2),
                    None => (None, c2),
                }
            },
            None => (None, c1),
        }
    }

    /// A string with a `u32` length prefix, decoded lossily.
    pub open spec fn read_long_string(self) -> (Option<Seq<char>>, CursorView) {
        let (len, c1) = self.read_u32();
        match len {
            Some(n) => {
                let (raw, c2) = c1.take(n as int);
                match raw {
                    Some(b) => (Some(utf8_lossy(b)), c2),
                    None => (None, c2),
                }
            },
            None => (None, c1),
        }
    }
}

/// Positional reader over a byte slice. Every read either succeeds and moves
/// past what it read, or fails with `None` and leaves the reader at the end.
#[derive(Debug, Clone)]
pub struct BinaryCursor<'a> {
    bytes: &'a [u8],
    pos: usize,
}

impl<'a> View for BinaryCursor<'a> {
    type V = CursorView;

    closed spec fn view(&self) -> CursorView {
        CursorView { bytes: self.bytes@, pos: self.pos as int }
    }
}

proof fn lemma_le_u16_bound(s: Seq<u8>, i: int)
    requires
        0 <= i,
        i + 2 <= s.len(),
    ensures
        0 <= le_u16(s, i) < 0x1_0000,
{
}

proof fn lemma_le_u32_bound(s: Seq<u8>, i: int)
    requires
        0 <= i,
        i + 4 <= s.len(),
    ensures
        0 <= le_u32(s, i) < 0x1_0000_0000,
{
    lemma_le_u16_bound(s, i);
    lemma_le_u16_bound(s, i + 2);
}

impl<'a> BinaryCursor<'a> {
    /// The position lies within the bytes.
    pub open spec fn wf(&self) -> bool {
        self@.wf()
    }

    pub fn new(bytes: &'a [u8]) -> (c: Self)
        ensures
            c.wf(),
            c@ == (CursorView { bytes: bytes@, pos: 0 }),
    {
        Self { bytes, pos: 0 }
    }

    pub fn is_exhausted(&self) -> (b: bool)
        requires
            self.wf(),
        ensures
            b == (self@.pos >= self@.bytes.len()),
    {
        self.pos >= self.bytes.len()
    }

    pub fn read_u8(&mut self) -> (r: Option<u8>)
        requires
            old(self).wf(),
        ensures
            final(self).wf(),
            (r, final(self)@) == old(self)@.read_u8(),
    {
        if self.pos < self.bytes.len() {
            let b = self.bytes[self.pos];
            self.pos += 1;
            Some(b)
        } else {
            None
        }
    }

    /// A little-endian `u16`.
    pub fn read_u16(&mut self) -> (r: Option<u16>)
        requires
            old(self).wf(),
        ensures
            final(self).wf(),
            (r, final(self)@) == old(self)@.read_u16(),
    {
        let b = match self.read_u8() {
            Some(v) => v as u16,
            None => return None,
        };
        let a = match self.read_u8() {
            Some(v) => v as u16,
            None => return None,
        };
        assert((a << 8u16 | b) == a * 256 + b) by (bit_vector)
            requires
                a < 256,
                b < 256,
        ;
        Some(a << 8u16 | b)
    }

    pub fn read_u32(&mut self) -> (r: Option<u32>)
        requires
            old(self).wf(),
        ensures
            final(self).wf(),
            (r, final(self)@) == old(self)@.read_u32(),
    {
        let ghost s = self@.bytes;
        let ghost p = self@.pos;
        let b = match self.read_u16() {
            Some(v) => v as u32,
            None => return None,
        };
        let a = match self.read_u16() {
            Some(v) => v as u32,
            None => return None,
        };
        proof {
            lemma_le_u16_bound(s, p);
            lemma_le_u16_bound(s, p + 2);
        }
        assert((a << 16u32 | b) == a * 65536 + b) by (bit_vector)
            requires
                a < 65536,
                b < 65536,
        ;
        Some(a << 16u32 | b)
    }

    pub fn read_u64(&mut self) -> (r: Option<u64>)
        requires
            old(self).wf(),
        ensures
            final(self).wf(),
            (r, final(self)@) == old(self)@.read_u64(),
    {
        let ghost s = self@.bytes;
        let ghost p = self@.pos;
        let b = match self.read_u32() {
            Some(v) => v as u64,
            None => return None,
        };
        let a = match self.read_u32() {
            Some(v) => v as u64,
            None => return None,
        };
        proof {
            lemma_le_u32_bound(s, p);
            lemma_le_u32_bound(s, p + 4);
        }
        assert((a << 32u64 | b) == a * 0x1_0000_0000 + b) by (bit_vector)
            requires
                a < 0x1_0000_0000,
                b < 0x1_0000_0000,
        ;
        Some(a << 32u64 | b)
    }

    /// String with a **u16** length prefix (`getString`).
    pub fn read_string(&mut self) -> (r: Option<String>)
        requires
            old(self).wf(),
        ensures
            final(self).wf(),
            final(self)@ == old(self)@.read_string().1,
            r matches Some(s) ==> old(self)@.read_string().0 == Some(s@),
            r is None ==> old(self)@.read_string().0 is None,
    {
        let len = match self.read_u16() {
            Some(n) => n as usize,
            None => return None,
        };
        match self.read_raw(len) {
            Some(b) => Some(lossy_string(b)),
            None => None,
        }
    }

    /// String with a **u32** length prefix (`getLongString`).
    pub fn read_long_string(&mut self) -> (r: Option<String>)
        requires
            old(self).wf(),
        ensures
            final(self).wf(),
            final(self)@ == old(self)@.read_long_string().1,
            r matches Some(s) ==> old(self)@.read_long_string().0 == Some(s@),
            r is None ==> old(self)@.read_long_string().0 is None,
    {
        let len = match self.read_u32() {
            Some(n) => n as usize,
            None => return None,
        };
        match self.read_raw(len) {
            Some(b) => Some(lossy_string(b)),
            None => None,
        }
    }

    pub fn read_raw(&mut self, len: usize) -> (r: Option<&'a [u8]>)
        requires
            old(self).wf(),
        ensures
            final(self).wf(),
            final(self)@ == old(self)@.take(len as int).1,
            r matches Some(b) ==> old(self)@.take(len as int).0 == Some(b@),
            r is None ==> old(self)@.take(len as int).0 is None,
    {
        if len > self.bytes.len() - self.pos {
            self.pos = self.bytes.len();
            return None;
        }
        let slice = slice_subrange(self.bytes, self.pos, self.pos + len);
        self.pos += len;
        Some(slice)
    }

    /// Skips `n` bytes; fails (and moves to the end) when fewer remain.
    pub fn skip(&mut self, n: usize) -> (ok: bool)
        requires
            old(self).wf(),
        ensures
            final(self).wf(),
            final(self)@ == old(self)@.take(n as int).1,
            ok == old(self)@.take(n as int).0 is Some,
    {
        self.read_raw(n).is_some()
    }
}

// ---------------------------------------------------------------------------
// The node tree
// ---------------------------------------------------------------------------

/// A node of the tree: its unescaped payload (starting with the type byte)
/// and its children, in order.
pub struct NodeView {
    pub data: Seq<u8>,
    pub children: Seq<NodeView>,
}

impl NodeView {
    pub open spec fn empty() -> NodeView {
        NodeView { data: Seq::empty(), children: Seq::empty() }
    }

    pub open spec fn push_data(self, b: u8) -> NodeView {
        NodeView { data: self.data.push(b), children: self.children }
    }

    pub open spec fn push_child(self, c: NodeView) -> NodeView {
        NodeView { data: self.data, children: self.children.push(c) }
    }
}

/// A node of the tree. `data` is the unescaped payload (it begins with the
/// node's type byte).
#[derive(Debug, Default)]
pub struct TreeNode {
    pub data: Vec<u8>,
    pub children: Vec<TreeNode>,
}

/// The views of the first `n` nodes of `s`.
pub open spec fn view_nodes(s: Seq<TreeNode>, n: nat) -> Seq<NodeView>
    decreases s, n,
{
    if n == 0 || n > s.len() {
        Seq::empty()
    } else {
        view_nodes(s, (n - 1) as nat).push(s[n - 1].view_node())
    }
}

impl TreeNode {
    pub open spec fn view_node(self) -> NodeView
        decreases self, 0nat,
    {
        NodeView { data: self.data@, children: view_nodes(self.children@, self.children@.len()) }
    }

    /// First payload byte = the node's type (`OTBM_*` in an OTBM file).
    pub fn node_type(&self) -> (t: Option<u8>)
        ensures
            t == (if self.data@.len() > 0 { Some(self.data@[0]) } else { None::<u8> }),
    {
        if self.data.len() > 0 {
            Some(self.data[0])
        } else {
            None
        }
    }

    /// A sequential reader over this node's payload.
    pub fn read(&self) -> (c: BinaryCursor<'_>)
        ensures
            c.wf(),
            c@ == (CursorView { bytes: self.data@, pos: 0 }),
    {
        BinaryCursor::new(self.data.as_slice())
    }
}

pub proof fn lemma_view_nodes_len(s: Seq<TreeNode>, n: nat)
    requires
        n <= s.len(),
    ensures
        view_nodes(s, n).len() == n,
        forall|i: int| 0 <= i < n ==> #[trigger] view_nodes(s, n)[i] == s[i].view_node(),
    decreases n,
{
    if n > 0 {
        lemma_view_nodes_len(s, (n - 1) as nat);
    }
}

proof fn lemma_view_nodes_push(s: Seq<TreeNode>, c: TreeNode)
    ensures
        view_nodes(s.push(c), s.len() + 1) == view_nodes(s, s.len()).push(c.view_node()),
{
    lemma_view_nodes_len(s, s.len());
    lemma_view_nodes_len(s.push(c), s.len() + 1);
    assert(view_nodes(s.push(c), s.len() + 1) =~= view_nodes(s, s.len()).push(c.view_node()));
}

/// Reads the rest of a node whose start token was consumed: `pos` is where
/// reading resumes, `locked` says whether a child was already seen (then
/// payload bytes are dropped) and `acc` is what was read so far. Gives the
/// node and the position after its end token (or the end of the input).
pub open spec fn parse_node_from(s: Seq<u8>, pos: int, locked: bool, acc: NodeView) -> (NodeView, int)
    decreases s.len() - pos,
{
    if pos < 0 || pos >= s.len() {
        (acc, s.len() as int)
    } else {
        let b = s[pos];
        if b == ESCAPE_CHAR {
            if pos + 1 < s.len() {
                parse_node_from(s, pos + 2, locked, if locked { acc } else { acc.push_data(s[pos + 1]) })
            } else {
                (acc, s.len() as int)
            }
        } else if b == NODE_START {
            let (child, end) = parse_node_from(s, pos + 1, false, NodeView::empty());
            // `end` always lies in `pos + 1 ..= s.len()` (see
            // `lemma_parse_node_from_end`); the bound only serves termination.
            let next = if pos < end <= s.len() { end } else { s.len() as int };
            parse_node_from(s, next, true, acc.push_child(child))
        } else if b == NODE_END {
            (acc, pos + 1)
        } else {
            parse_node_from(s, pos + 1, locked, if locked { acc } else { acc.push_data(b) })
        }
    }
}

proof fn lemma_parse_node_from_end(s: Seq<u8>, pos: int, locked: bool, acc: NodeView)
    requires
        0 <= pos <= s.len(),
    ensures
        pos <= parse_node_from(s, pos, locked, acc).1 <= s.len(),
        pos < s.len() ==> pos < parse_node_from(s, pos, locked, acc).1,
    decreases s.len() - pos,
{
    if pos < s.len() {
        let b = s[pos];
        if b == ESCAPE_CHAR {
            if pos + 1 < s.len() {
                lemma_parse_node_from_end(s, pos + 2, locked, if locked { acc } else { acc.push_data(s[pos + 1]) });
            }
        } else if b == NODE_START {
            lemma_parse_node_from_end(s, pos + 1, false, NodeView::empty());
            let (child, end) = parse_node_from(s, pos + 1, false, NodeView::empty());
            lemma_parse_node_from_end(s, end, true, acc.push_child(child));
        } else if b == NODE_END {
        } else {
            lemma_parse_node_from_end(s, pos + 1, locked, if locked { acc } else { acc.push_data(b) });
        }
    }
}

/// The tree read from `bytes` (the whole payload after the root's start
/// token).
pub open spec fn spec_build_tree(bytes: Seq<u8>) -> NodeView {
    parse_node_from(bytes, 0, false, NodeView::empty()).0
}

/// How a payload byte is written: the three token bytes behind an escape.
pub open spec fn escaped_byte(b: u8) -> Seq<u8> {
    if b == ESCAPE_CHAR || b == NODE_START || b == NODE_END {
        seq![ESCAPE_CHAR, b]
    } else {
        seq![b]
    }
}

/// A payload written with its token bytes escaped.
pub open spec fn escaped(d: Seq<u8>) -> Seq<u8>
    decreases d.len(),
{
    if d.len() == 0 {
        Seq::empty()
    } else {
        escaped_byte(d[0]) + escaped(d.drop_first())
    }
}

/// A node written out: its escaped payload, then each child between a
/// start and an end token. The node's own end token is not included.
pub open spec fn serialized(n: NodeView) -> Seq<u8>
    decreases n,
{
    escaped(n.data) + serialized_children(n.children)
}

/// Children written out, each between a start and an end token.
pub open spec fn serialized_children(cs: Seq<NodeView>) -> Seq<u8>
    decreases cs,
{
    if cs.len() == 0 {
        Seq::empty()
    } else {
        seq![NODE_START] + serialized(cs[0]) + seq![NODE_END] + serialized_children(cs.subrange(1, cs.len() as int))
    }
}

proof fn lemma_parse_escaped(s: Seq<u8>, pos: int, d: Seq<u8>, acc: NodeView)
    requires
        0 <= pos,
        pos + escaped(d).len() <= s.len(),
        s.subrange(pos, pos + escaped(d).len()) == escaped(d),
    ensures
        parse_node_from(s, pos, false, acc) == parse_node_from(
            s,
            pos + escaped(d).len(),
            false,
            NodeView { data: acc.data + d, children: acc.children },
        ),
    decreases d.len(),
{
    if d.len() == 0 {
        assert(acc.data + d =~= acc.data);
    } else {
        let b = d[0];
        let e = escaped_byte(b);
        let rest = d.drop_first();
        assert(escaped(d) == e + escaped(rest));
        assert(s[pos] == escaped(d)[0]);
        let acc2 = acc.push_data(b);
        assert(acc2.data + rest =~= acc.data + d);
        assert(s.subrange(pos + e.len(), pos + e.len() + escaped(rest).len()) =~= escaped(rest)) by {
            assert forall|k: int| 0 <= k < escaped(rest).len() implies s[pos + e.len() + k] == escaped(rest)[k] by {
                assert(s.subrange(pos, pos + escaped(d).len())[e.len() + k] == escaped(d)[e.len() + k]);
            }
        }
        if e.len() == 2 {
            assert(s[pos + 1] == escaped(d)[1]);
        }
        lemma_parse_escaped(s, pos + e.len(), rest, acc2);
    }
}

proof fn lemma_parse_serialized(s: Seq<u8>, pos: int, n: NodeView)
    requires
        0 <= pos,
        pos + serialized(n).len() + 1 <= s.len(),
        s.subrange(pos, pos + serialized(n).len() + 1) == serialized(n) + seq![NODE_END],
    ensures
        parse_node_from(s, pos, false, NodeView::empty()) == (n, pos + serialized(n).len() + 1),
    decreases n, 1nat,
{
    let e = escaped(n.data);
    let w = serialized(n) + seq![NODE_END];
    assert(s.subrange(pos, pos + e.len()) =~= e) by {
        assert forall|k: int| 0 <= k < e.len() implies s[pos + k] == e[k] by {
            assert(s.subrange(pos, pos + w.len())[k] == w[k]);
        }
    }
    lemma_parse_escaped(s, pos, n.data, NodeView::empty());
    let after = pos + e.len();
    let cw = serialized_children(n.children) + seq![NODE_END];
    assert(s.subrange(after, after + cw.len()) =~= cw) by {
        assert forall|k: int| 0 <= k < cw.len() implies s[after + k] == cw[k] by {
            assert(s.subrange(pos, pos + w.len())[e.len() + k] == w[e.len() + k]);
        }
    }
    assert(Seq::<u8>::empty() + n.data =~= n.data);
    lemma_parse_children(s, after, n.children, NodeView { data: n.data, children: Seq::empty() }, false);
    assert(Seq::<NodeView>::empty() + n.children =~= n.children);
}

proof fn lemma_parse_children(s: Seq<u8>, pos: int, cs: Seq<NodeView>, acc: NodeView, locked: bool)
    requires
        0 <= pos,
        pos + serialized_children(cs).len() + 1 <= s.len(),
        s.subrange(pos, pos + serialized_children(cs).len() + 1) == serialized_children(cs) + seq![NODE_END],
    ensures
        parse_node_from(s, pos, locked, acc) == (
            NodeView { data: acc.data, children: acc.children + cs },
            pos + serialized_children(cs).len() + 1,
        ),
    decreases cs, 0nat,
{
    let w = serialized_children(cs) + seq![NODE_END];
    assert(s[pos] == w[0]);
    if cs.len() == 0 {
        assert(acc.children + cs =~= acc.children);
    } else {
        let c = cs[0];
        let rest = cs.subrange(1, cs.len() as int);
        let sc = serialized(c);
        let cw = sc + seq![NODE_END];
        assert(s.subrange(pos + 1, pos + 1 + cw.len()) =~= cw) by {
            assert forall|k: int| 0 <= k < cw.len() implies s[pos + 1 + k] == cw[k] by {
                assert(s.subrange(pos, pos + w.len())[1 + k] == w[1 + k]);
            }
        }
        lemma_parse_serialized(s, pos + 1, c);
        let end = pos + 1 + sc.len() + 1;
        let rw = serialized_children(rest) + seq![NODE_END];
        assert(s.subrange(end, end + rw.len()) =~= rw) by {
            assert forall|k: int| 0 <= k < rw.len() implies s[end + k] == rw[k] by {
                assert(s.subrange(pos, pos + w.len())[2 + sc.len() + k] == w[2 + sc.len() + k]);
            }
        }
        lemma_parse_children(s, end, rest, acc.push_child(c), true);
        assert(acc.push_child(c).children + rest =~= acc.children + cs);
    }
}

proof fn lemma_parse_children_to_end(s: Seq<u8>, pos: int, cs: Seq<NodeView>, acc: NodeView, locked: bool)
    requires
        0 <= pos,
        pos + serialized_children(cs).len() == s.len(),
        s.subrange(pos, s.len() as int) == serialized_children(cs),
    ensures
        parse_node_from(s, pos, locked, acc) == (
            NodeView { data: acc.data, children: acc.children + cs },
            s.len() as int,
        ),
    decreases cs.len(),
{
    let w = serialized_children(cs);
    if cs.len() == 0 {
        assert(acc.children + cs =~= acc.children);
    } else {
        assert(s[pos] == w[0]);
        let c = cs[0];
        let rest = cs.subrange(1, cs.len() as int);
        let sc = serialized(c);
        let cw = sc + seq![NODE_END];
        assert(s.subrange(pos + 1, pos + 1 + cw.len()) =~= cw) by {
            assert forall|k: int| 0 <= k < cw.len() implies s[pos + 1 + k] == cw[k] by {
                assert(s.subrange(pos, s.len() as int)[1 + k] == w[1 + k]);
            }
        }
        lemma_parse_serialized(s, pos + 1, c);
        let end = pos + 1 + sc.len() + 1;
        let rw = serialized_children(rest);
        assert(s.subrange(end, s.len() as int) =~= rw) by {
            assert forall|k: int| 0 <= k < rw.len() implies s[end + k] == rw[k] by {
                assert(s.subrange(pos, s.len() as int)[2 + sc.len() + k] == w[2 + sc.len() + k]);
            }
        }
        lemma_parse_children_to_end(s, end, rest, acc.push_child(c), true);
        assert(acc.push_child(c).children + rest =~= acc.children + cs);
    }
}

/// A node written out with `serialized` reads back as that node, whether
/// it is closed by an end token or the input simply ends.
pub proof fn lemma_build_tree_round_trip(n: NodeView)
    ensures
        spec_build_tree(serialized(n) + seq![NODE_END]) == n,
        spec_build_tree(serialized(n)) == n,
{
    let s = serialized(n) + seq![NODE_END];
    assert(s.subrange(0, s.len() as int) =~= s);
    lemma_parse_serialized(s, 0, n);
    let t = serialized(n);
    let e = escaped(n.data);
    assert(t.subrange(0, e.len() as int) =~= e);
    lemma_parse_escaped(t, 0, n.data, NodeView::empty());
    assert(t.subrange(e.len() as int, t.len() as int) =~= serialized_children(n.children));
    assert(Seq::<u8>::empty() + n.data =~= n.data);
    lemma_parse_children_to_end(t, e.len() as int, n.children, NodeView { data: n.data, children: Seq::empty() }, false);
    assert(Seq::<NodeView>::empty() + n.children =~= n.children);
}

/// Builds the node tree from `bytes`: the file from the point where the
/// first `NODE_START` was already consumed.
pub fn build_tree(bytes: &[u8]) -> (t: TreeNode)
    ensures
        t.view_node() == spec_build_tree(bytes@),
{
    let mut cursor = BinaryCursor::new(bytes);
    read_node(&mut cursor)
}

fn read_node(cursor: &mut BinaryCursor) -> (node: TreeNode)
    requires
        old(cursor).wf(),
    ensures
        final(cursor).wf(),
        final(cursor)@.bytes == old(cursor)@.bytes,
        (node.view_node(), final(cursor)@.pos) == parse_node_from(
            old(cursor)@.bytes,
            old(cursor)@.pos,
            false,
            NodeView::empty(),
        ),
    decreases old(cursor)@.remaining(),
{
    let ghost s = cursor@.bytes;
    let ghost start = cursor@.pos;
    let mut node = TreeNode { data: Vec::new(), children: Vec::new() };
    let mut data_locked = false;
    proof {
        lemma_view_nodes_len(node.children@, 0);
        assert(node.view_node() =~= NodeView::empty());
    }
    loop
        invariant_except_break
            parse_node_from(s, cursor@.pos, data_locked, node.view_node()) == parse_node_from(
                s,
                start,
                false,
                NodeView::empty(),
            ),
        invariant
            cursor.wf(),
            cursor@.bytes == s,
            s == old(cursor)@.bytes,
            start == old(cursor)@.pos,
            start <= cursor@.pos,
        ensures
            (node.view_node(), cursor@.pos) == parse_node_from(s, start, false, NodeView::empty()),
        decreases cursor@.remaining(),
    {
        let ghost p = cursor@.pos;
        let ghost acc = node.view_node();
        match cursor.read_u8() {
            Some(b) => {
                if b == ESCAPE_CHAR {
                    match cursor.read_u8() {
                        Some(e) => {
                            if !data_locked {
                                node.data.push(e);
                                assert(node.view_node() == acc.push_data(e));
                            }
                        },
                        None => {
                            break ;
                        },
                    }
                } else if b == NODE_START {
                    proof {
                        lemma_parse_node_from_end(s, p + 1, false, NodeView::empty());
                    }
                    let child = read_node(cursor);
                    let ghost old_children = node.children@;
                    node.children.push(child);
                    proof {
                        lemma_view_nodes_push(old_children, child);
                        assert(node.view_node() == acc.push_child(child.view_node()));
                    }
                    data_locked = true;
                } else if b == NODE_END {
                    break ;
                } else {
                    if !data_locked {
                        node.data.push(b);
                        assert(node.view_node() == acc.push_data(b));
                    }
                }
            },
            None => {
                break ;
            },
        }
    }
    node
}

} // verus!
