//! A minimal reader of the protobuf wire format, enough to read the client's
//! `appearances.dat`: varints, tags, length-delimited payloads and skipping
//! of unknown fields.

use vstd::prelude::*;
use vstd::arithmetic::power2::{pow2, lemma_pow2_adds, lemma_pow2_pos, lemma_pow2_strictly_increases, lemma2_to64, lemma2_to64_rest};
use vstd::bits::{lemma_u64_shl_is_mul, lemma_u64_pow2_no_overflow};
use vstd::slice::slice_subrange;
use crate::binary::CursorView;

verus! {

pub const WT_VARINT: u8 = 0;
pub const WT_FIXED64: u8 = 1;
pub const WT_LEN: u8 = 2;
pub const WT_FIXED32: u8 = 5;

#[derive(Debug, Clone, Copy, PartialEq, Eq)]
pub struct Tag(pub u32);

impl Tag {
    pub open spec fn spec_field(self) -> u32 {
        self.0 / 8
    }

    pub open spec fn spec_wire_type(self) -> u8 {
        (self.0 % 8) as u8
    }

    /// The field number: the tag without its three wire-type bits.
    pub fn field(self) -> (f: u32)
        ensures
            f == self.spec_field(),
    {
        let t = self.0;
        assert(t >> 3u32 == t / 8) by (bit_vector);
        t >> 3
    }

    /// The wire type: the tag's three low bits.
    pub fn wire_type(self) -> (w: u8)
        ensures
            w == self.spec_wire_type(),
    {
        let t = self.0;
        assert(t & 7u32 == t % 8) by (bit_vector);
        (t & 0x7) as u8
    }
}

/// Decoding the varint whose first byte is at `pos`, with `i` bytes already
/// read into `acc`: each byte gives its low 7 bits, least significant group
/// first; a byte below 0x80 ends the varint. The tenth byte may only be 0
/// or 1 (the value must fit in 64 bits). Gives the value (or `None`) and the
/// position after the last byte read.
pub open spec fn varint_from(s: Seq<u8>, pos: int, i: nat, acc: nat) -> (Option<u64>, int)
    decreases 10 - i,
{
    if i > 9 || pos < 0 {
        (None, pos + i)
    } else if pos + i >= s.len() {
        (None, pos + i)
    } else {
        let b = s[pos + i];
        let v = (acc + (b % 128) * pow2(7 * i)) as nat;
        if i == 9 && b > 1 {
            (None, pos + i + 1)
        } else if b < 128 {
            (Some(v as u64), pos + i + 1)
        } else {
            varint_from(s, pos, i + 1, v)
        }
    }
}

pub open spec fn spec_varint(c: CursorView) -> (Option<u64>, CursorView) {
    let (v, end) = varint_from(c.bytes, c.pos, 0, 0);
    (v, CursorView { bytes: c.bytes, pos: end })
}

pub open spec fn spec_tag(c: CursorView) -> (Option<Tag>, CursorView) {
    let (v, c1) = spec_varint(c);
    match v {
        Some(raw) => if raw <= u32::MAX {
            (Some(Tag(raw as u32)), c1)
        } else {
            (None, c1)
        },
        None => (None, c1),
    }
}

/// Taking `len` bytes: on success they are handed out and the position moves
/// past them; on failure nothing moves.
pub open spec fn spec_bytes(c: CursorView, len: int) -> (Option<Seq<u8>>, CursorView) {
    if 0 <= len && c.pos + len <= c.bytes.len() {
        (Some(c.bytes.subrange(c.pos, c.pos + len)), CursorView { bytes: c.bytes, pos: c.pos + len })
    } else {
        (None, c)
    }
}

/// A length-delimited payload: a varint length, then that many bytes.
pub open spec fn spec_len_payload(c: CursorView) -> (Option<Seq<u8>>, CursorView) {
    let (len, c1) = spec_varint(c);
    match len {
        Some(n) => if n <= usize::MAX {
            spec_bytes(c1, n as int)
        } else {
            (None, c1)
        },
        None => (None, c1),
    }
}

/// Skipping one value of wire type `wt`; unknown wire types fail.
pub open spec fn spec_skip(c: CursorView, wt: u8) -> (bool, CursorView) {
    if wt == WT_VARINT {
        let (v, c1) = spec_varint(c);
        (v is Some, c1)
    } else if wt == WT_FIXED64 {
        let (v, c1) = spec_bytes(c, 8);
        (v is Some, c1)
    } else if wt == WT_LEN {
        let (v, c1) = spec_len_payload(c);
        (v is Some, c1)
    } else if wt == WT_FIXED32 {
        let (v, c1) = spec_bytes(c, 4);
        (v is Some, c1)
    } else {
        (false, c)
    }
}

#[derive(Debug, Clone, Copy)]
pub struct Reader<'a> {
    buf: &'a [u8],
    pos: usize,
}

impl<'a> View for Reader<'a> {
    type V = CursorView;

    closed spec fn view(&self) -> CursorView {
        CursorView { bytes: self.buf@, pos: self.pos as int }
    }
}

proof fn lemma_varint_step(acc: nat, i: nat, b: u8)
    requires
        i <= 9,
        acc < pow2(7 * i),
        i == 9 ==> b <= 1,
    ensures
        acc + (b % 128) * pow2(7 * i) < pow2(7 * (i + 1)),
        acc + (b % 128) * pow2(7 * i) <= u64::MAX,
{
    lemma_pow2_adds(7 * i, 7);
    lemma2_to64();
    lemma2_to64_rest();
    assert((b % 128) * pow2(7 * i) <= 127 * pow2(7 * i)) by (nonlinear_arith)
        requires
            b % 128 <= 127,
    ;
    if i < 9 {
        lemma_pow2_strictly_increases(7 * (i + 1), 64);
    }
}

/// The bytes that write `v` as a varint: its 7-bit groups, least
/// significant first, each but the last with its high bit set.
pub open spec fn varint_bytes(v: nat) -> Seq<u8>
    decreases v,
{
    if v < 128 {
        seq![v as u8]
    } else {
        seq![(v % 128 + 128) as u8] + varint_bytes(v / 128)
    }
}

proof fn lemma_varint_reads_bytes(data: Seq<u8>, pos: int, i: nat, acc: nat, w: nat)
    requires
        pos >= 0,
        i <= 9,
        pos + i + varint_bytes(w).len() <= data.len(),
        data.subrange(pos + i, pos + i + varint_bytes(w).len()) == varint_bytes(w),
        acc < pow2(7 * i),
        acc + w * pow2(7 * i) < pow2(64),
    ensures
        varint_from(data, pos, i, acc) == (Some((acc + w * pow2(7 * i)) as u64), pos + i + varint_bytes(w).len()),
    decreases w,
{
    let e = varint_bytes(w);
    assert(data[pos + i] == e[0]);
    lemma_pow2_pos(7 * i);
    lemma2_to64();
    lemma2_to64_rest();
    if i == 9 {
        assert(w <= 1) by (nonlinear_arith)
            requires
                acc + w * pow2(63) < pow2(64),
                pow2(64) == 2 * pow2(63),
                pow2(63) > 0,
                acc >= 0,
        ;
    }
    if w >= 128 {
        let w2 = w / 128;
        let acc2 = (acc + (w % 128) * pow2(7 * i)) as nat;
        lemma_pow2_adds(7 * i, 7);
        assert(7 * (i + 1) == 7 * i + 7);
        assert(acc2 < pow2(7 * (i + 1)) && acc2 + w2 * pow2(7 * (i + 1)) == acc + w * pow2(7 * i)) by (nonlinear_arith)
            requires
                acc < pow2(7 * i),
                acc2 == acc + (w % 128) * pow2(7 * i),
                w2 == w / 128,
                pow2(7 * (i + 1)) == pow2(7 * i) * 128,
                w >= 0,
        ;
        assert(data.subrange(pos + i + 1, pos + i + 1 + varint_bytes(w2).len()) =~= varint_bytes(w2)) by {
            assert forall|k: int| 0 <= k < varint_bytes(w2).len() implies data[pos + i + 1 + k] == varint_bytes(w2)[k] by {
                assert(data.subrange(pos + i, pos + i + e.len())[k + 1] == e[k + 1]);
            }
        }
        lemma_varint_reads_bytes(data, pos, i + 1, acc2, w2);
    }
}

/// A varint written by `varint_bytes` reads back as its value, and the
/// reading stops right after it, whatever follows.
pub proof fn lemma_varint_round_trip(v: u64, rest: Seq<u8>)
    ensures
        spec_varint(CursorView { bytes: varint_bytes(v as nat) + rest, pos: 0 }) == (
            Some(v),
            CursorView { bytes: varint_bytes(v as nat) + rest, pos: varint_bytes(v as nat).len() as int },
        ),
{
    let e = varint_bytes(v as nat);
    let data = e + rest;
    assert(data.subrange(0, e.len() as int) =~= e);
    lemma2_to64();
    lemma2_to64_rest();
    lemma_varint_reads_bytes(data, 0, 0, 0, v as nat);
}

impl<'a> Reader<'a> {
    /// The position lies within the bytes.
    pub open spec fn wf(&self) -> bool {
        self@.wf()
    }

    pub fn new(buf: &'a [u8]) -> (r: Self)
        ensures
            r.wf(),
            r@ == (CursorView { bytes: buf@, pos: 0 }),
    {
        Reader { buf, pos: 0 }
    }

    pub fn is_done(&self) -> (b: bool)
        ensures
            b == (self@.pos >= self@.bytes.len()),
    {
        self.pos >= self.buf.len()
    }

    pub fn varint(&mut self) -> (r: Option<u64>)
        requires
            old(self).wf(),
        ensures
            (r, final(self)@) == spec_varint(old(self)@),
            final(self).wf(),
            r is Some ==> old(self)@.pos < final(self)@.pos,
    {
        let ghost s = self@.bytes;
        let ghost p0 = self@.pos;
        proof {
            lemma_varint_advances(s, p0, 0, 0);
        }
        let mut result: u64 = 0;
        let mut shift: u32 = 0;
        let ghost mut i: nat = 0;
        proof {
            lemma_pow2_pos(0);
        }
        loop
            invariant
                self@.bytes == s,
                s == old(self)@.bytes,
                p0 == old(self)@.pos,
                0 <= p0 <= s.len(),
                i <= 9,
                shift == 7 * i,
                self.pos == p0 + i,
                p0 + i <= s.len(),
                result < pow2(7 * i),
                varint_from(s, p0, i, result as nat) == varint_from(s, p0, 0, 0),
            decreases 10 - i,
        {
            if self.pos >= self.buf.len() {
                return None;
            }
            let byte = self.buf[self.pos];
            self.pos += 1;
            if shift == 63 && byte > 1 {
                return None;
            }
            let low = byte & 0x7f;
            assert(byte & 0x7fu8 == byte % 128) by (bit_vector);
            proof {
                lemma_varint_step(result as nat, i, byte);
                lemma_u64_pow2_no_overflow(7 * i);
                lemma_u64_shl_is_mul(low as u64, shift as u64);
                lemma_u64_shl_is_mul(1u64, shift as u64);
            }
            let part = (low as u64) << (shift as u64);
            let r0 = result;
            let sh = shift as u64;
            assert(r0 < (1u64 << sh) && sh < 64 ==> (r0 | part) == r0 + part) by (bit_vector)
                requires
                    part == (low as u64) << sh,
            ;
            result = result | part;
            if byte & 0x80 == 0 {
                assert(byte & 0x80u8 == 0 ==> byte < 128) by (bit_vector);
                return Some(result);
            }
            assert(byte & 0x80u8 != 0 ==> byte >= 128) by (bit_vector);
            shift += 7;
            if shift >= 64 {
                return None;
            }
            proof {
                i = i + 1;
            }
        }
    }

    pub fn tag(&mut self) -> (r: Option<Tag>)
        requires
            old(self).wf(),
        ensures
            (r, final(self)@) == spec_tag(old(self)@),
            final(self).wf(),
            r is Some ==> old(self)@.pos < final(self)@.pos,
    {
        let raw = match self.varint() {
            Some(v) => v,
            None => return None,
        };
        if raw > u32::MAX as u64 {
            return None;
        }
        Some(Tag(raw as u32))
    }

    pub fn bytes(&mut self, len: usize) -> (r: Option<&'a [u8]>)
        requires
            old(self).wf(),
        ensures
            final(self).wf(),
            final(self)@ == spec_bytes(old(self)@, len as int).1,
            r matches Some(b) ==> spec_bytes(old(self)@, len as int).0 == Some(b@),
            r is None ==> spec_bytes(old(self)@, len as int).0 is None,
            old(self)@.pos <= final(self)@.pos,
    {
        let start = self.pos;
        assert(self.buf@.len() == self.buf.len());
        let end = match self.pos.checked_add(len) {
            Some(e) => e,
            None => return None,
        };
        if end > self.buf.len() {
            return None;
        }
        let slice = slice_subrange(self.buf, start, end);
        self.pos = end;
        Some(slice)
    }

    pub fn len_payload(&mut self) -> (r: Option<&'a [u8]>)
        requires
            old(self).wf(),
        ensures
            final(self)@ == spec_len_payload(old(self)@).1,
            r matches Some(b) ==> spec_len_payload(old(self)@).0 == Some(b@),
            r is None ==> spec_len_payload(old(self)@).0 is None,
            final(self).wf(),
            r is Some ==> old(self)@.pos < final(self)@.pos,
    {
        let len = match self.varint() {
            Some(v) => v,
            None => return None,
        };
        if len > usize::MAX as u64 {
            return None;
        }
        self.bytes(len as usize)
    }

    pub fn skip(&mut self, wire_type: u8) -> (r: Option<()>)
        requires
            old(self).wf(),
        ensures
            r is Some == spec_skip(old(self)@, wire_type).0,
            final(self)@ == spec_skip(old(self)@, wire_type).1,
            final(self).wf(),
            r is Some ==> old(self)@.pos < final(self)@.pos,
    {
        if wire_type == WT_VARINT {
            match self.varint() {
                Some(_) => Some(()),
                None => None,
            }
        } else if wire_type == WT_FIXED64 {
            match self.bytes(8) {
                Some(_) => Some(()),
                None => None,
            }
        } else if wire_type == WT_LEN {
            match self.len_payload() {
                Some(_) => Some(()),
                None => None,
            }
        } else if wire_type == WT_FIXED32 {
            match self.bytes(4) {
                Some(_) => Some(()),
                None => None,
            }
        } else {
            None
        }
    }
}

/// Whether the bytes of `s` from `pos` on are a sequence of well-formed
/// fields: each a tag followed by a value of a known wire type.
pub open spec fn fields_well_formed(s: Seq<u8>, pos: int) -> bool
    decreases s.len() - pos,
{
    if pos < 0 || pos >= s.len() {
        true
    } else {
        let (t, c1) = spec_tag(CursorView { bytes: s, pos });
        match t {
            Some(tag) => {
                let (ok, c2) = spec_skip(c1, tag.spec_wire_type());
                ok && pos < c2.pos <= s.len() && fields_well_formed(s, c2.pos)
            },
            None => false,
        }
    }
}


/// The fields of a message read from `c` on: each field's tag is read, then
/// `step` reads the field's value into the accumulated message `acc` and
/// gives the reader after it. Unknown fields are the step's business
/// (usually skipped). Fails when a tag or a value cannot be read.
pub open spec fn message_fields<A>(
    c: CursorView,
    acc: A,
    step: spec_fn(A, Tag, CursorView) -> Option<(A, CursorView)>,
) -> Option<A>
    decreases c.bytes.len() - c.pos,
{
    if c.pos < 0 || c.pos >= c.bytes.len() {
        Some(acc)
    } else {
        let (t, c1) = spec_tag(c);
        match t {
            Some(tag) => match step(acc, tag, c1) {
                Some((a2, c2)) => if c2.bytes == c.bytes && c.pos < c2.pos <= c.bytes.len() {
                    message_fields(c2, a2, step)
                } else {
                    None
                },
                None => None,
            },
            None => None,
        }
    }
}

/// Reading a varint value and handing it to `k`.
pub open spec fn varint_then<A>(c: CursorView, k: spec_fn(u64) -> A) -> Option<(A, CursorView)> {
    let (v, c2) = spec_varint(c);
    match v {
        Some(x) => Some((k(x), c2)),
        None => None,
    }
}

/// Reading a length-delimited payload and handing it to `k`.
pub open spec fn payload_then<A>(c: CursorView, k: spec_fn(Seq<u8>) -> Option<A>) -> Option<(A, CursorView)> {
    let (p, c2) = spec_len_payload(c);
    match p {
        Some(b) => match k(b) {
            Some(a) => Some((a, c2)),
            None => None,
        },
        None => None,
    }
}

/// Skipping a value of wire type `wt`, keeping `acc`.
pub open spec fn skip_then<A>(c: CursorView, wt: u8, acc: A) -> Option<(A, CursorView)> {
    let (ok, c2) = spec_skip(c, wt);
    if ok {
        Some((acc, c2))
    } else {
        None
    }
}

proof fn lemma_varint_advances(s: Seq<u8>, pos: int, i: nat, acc: nat)
    requires
        0 <= pos,
    ensures
        varint_from(s, pos, i, acc).0 is Some ==> varint_from(s, pos, i, acc).1 > pos + i,
        varint_from(s, pos, i, acc).0 is Some ==> varint_from(s, pos, i, acc).1 <= s.len(),
    decreases 10 - i,
{
    if i <= 9 && pos + i < s.len() {
        let b = s[pos + i];
        let v = (acc + (b % 128) * pow2(7 * i)) as nat;
        if !(i == 9 && b > 1) && b >= 128 {
            lemma_varint_advances(s, pos, i + 1, v);
        }
    }
}

proof fn lemma_skip_advances(c: CursorView, wt: u8)
    requires
        0 <= c.pos,
        c.pos <= c.bytes.len(),
    ensures
        spec_skip(c, wt).0 ==> c.pos <= spec_skip(c, wt).1.pos <= c.bytes.len(),
{
    lemma_varint_advances(c.bytes, c.pos, 0, 0);
    let (len, c1) = spec_varint(c);
    if len is Some {
        lemma_varint_advances(c1.bytes, c1.pos, 0, 0);
    }
}

/// The calls that decoding the fields of `s` from `pos` on makes: for each
/// field, the position of its value and its number. A field whose tag
/// reads is handed over even when its value then cannot be skipped, which
/// ends the decoding.
pub open spec fn field_calls(s: Seq<u8>, pos: int) -> Seq<(int, u32)>
    decreases s.len() - pos,
{
    if pos < 0 || pos >= s.len() {
        Seq::empty()
    } else {
        let (t, c1) = spec_tag(CursorView { bytes: s, pos });
        match t {
            Some(tag) => {
                let (ok, c2) = spec_skip(c1, tag.spec_wire_type());
                if ok && pos < c2.pos <= s.len() {
                    seq![(c1.pos, tag.spec_field())] + field_calls(s, c2.pos)
                } else {
                    seq![(c1.pos, tag.spec_field())]
                }
            },
            None => Seq::empty(),
        }
    }
}

/// Call `i` of `fs` and `rds` handed the reader at `calls[i]`'s value
/// position and its field number to the callback, in the state `fs[i]`.
pub open spec fn calls_made<'a, F: FnMut(Reader<'a>, u32)>(
    s: Seq<u8>,
    calls: Seq<(int, u32)>,
    fs: Seq<F>,
    rds: Seq<Reader<'a>>,
) -> bool {
    &&& fs.len() == calls.len()
    &&& rds.len() == calls.len()
    &&& forall|i: int|
        0 <= i < calls.len() ==> (#[trigger] rds[i])@ == (CursorView { bytes: s, pos: calls[i].0 })
            && call_ensures(fs[i], (rds[i], calls[i].1), ())
}

/// Decodes `payload` as a sequence of protobuf fields, calling `f` with a
/// copy of the reader (positioned on the field's value) and the field number
/// for each field, in order, then skipping the value. Gives `Some(())` when
/// the whole payload decoded without truncation.
pub fn for_each_field<'a, F>(payload: &'a [u8], mut f: F) -> (r: Option<()>)
    where
        F: FnMut(Reader<'a>, u32),
    requires
        forall|rd: Reader<'a>, field: u32| f.requires((rd, field)),
    ensures
        r is Some <==> fields_well_formed(payload@, 0),
        exists|fs: Seq<F>, rds: Seq<Reader<'a>>| #[trigger] calls_made(payload@, field_calls(payload@, 0), fs, rds),
{
    let mut r = Reader::new(payload);
    let ghost mut done: Seq<(int, u32)> = Seq::empty();
    let ghost mut fs: Seq<F> = Seq::empty();
    let ghost mut rds: Seq<Reader<'a>> = Seq::empty();
    while !r.is_done()
        invariant
            r.wf(),
            r@.bytes == payload@,
            forall|rd: Reader<'a>, field: u32| f.requires((rd, field)),
            fields_well_formed(payload@, r@.pos) == fields_well_formed(payload@, 0),
            field_calls(payload@, 0) == done + field_calls(payload@, r@.pos),
            calls_made(payload@, done, fs, rds),
        decreases payload@.len() - r@.pos,
    {
        let ghost c = r@;
        let tag = match r.tag() {
            Some(t) => t,
            None => {
                assert(field_calls(payload@, 0) =~= done);
                return None;
            },
        };
        let wt = tag.wire_type();
        let field = tag.field();
        let ghost f0 = f;
        let ghost rd = r;
        f(r, field);
        proof {
            done = done.push((rd@.pos, field));
            fs = fs.push(f0);
            rds = rds.push(rd);
            assert(calls_made(payload@, done, fs, rds)) by {
                assert forall|i: int| 0 <= i < done.len() implies (#[trigger] rds[i])@ == (CursorView {
                    bytes: payload@,
                    pos: done[i].0,
                }) && call_ensures(fs[i], (rds[i], done[i].1), ()) by {
                    if i < done.len() - 1 {
                    }
                }
            }
        }
        let ghost c1 = r@;
        proof {
            lemma_varint_advances(c.bytes, c.pos, 0, 0);
            lemma_skip_advances(c1, wt);
        }
        match r.skip(wt) {
            Some(_) => {
                assert(field_calls(payload@, 0) =~= done + field_calls(payload@, r@.pos));
            },
            None => {
                assert(field_calls(payload@, 0) =~= done);
                return None;
            },
        }
    }
    assert(field_calls(payload@, 0) =~= done);
    Some(())
}

} // verus!
