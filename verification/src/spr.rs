//! Sprites of the older `.spr` files: a table of offsets, one per sprite
//! id, and for each sprite a run-length encoded 32x32 image. Reading the
//! file is the caller's; what its bytes mean is decided here.

use vstd::prelude::*;
use crate::binary::le_u16;

verus! {

#[verifier::external_type_specification]
#[verifier::external_body]
pub struct ExIoError(std::io::Error);

#[derive(Debug)]
pub enum SprError {
    Io(std::io::Error),
}

/// Bytes of a decoded sprite: 32x32 pixels, RGBA.
pub const SPRITE_BYTES: usize = 4096;

/// Pixels in a sprite.
pub const SPRITE_PIXELS: usize = 1024;

/// Where the data of sprite `id` (counted from 1) starts, if it has any:
/// ids out of the table and offset 0 have none.
pub open spec fn spec_sprite_offset(offsets: Seq<u32>, id: u32) -> Option<u32> {
    if id == 0 || id > offsets.len() || offsets[id - 1] == 0 {
        None
    } else {
        Some(offsets[id - 1])
    }
}

pub fn sprite_offset(offsets: &[u32], id: u32) -> (r: Option<u32>)
    ensures
        r == spec_sprite_offset(offsets@, id),
{
    let idx = id as usize;
    if idx == 0 || idx > offsets.len() {
        return None;
    }
    let offset = offsets[idx - 1];
    if offset == 0 {
        None
    } else {
        Some(offset)
    }
}

/// A transparent sprite.
pub open spec fn blank_sprite() -> Seq<u8> {
    Seq::new(SPRITE_BYTES as nat, |i: int| 0u8)
}

pub open spec fn bytes_per_pixel(has_alpha: bool) -> int {
    if has_alpha {
        4
    } else {
        3
    }
}

/// `out` with pixel `pixel` set to the colour at `cursor` (opaque when the
/// file has no alpha).
pub open spec fn put_pixel(d: Seq<u8>, has_alpha: bool, cursor: int, pixel: int, out: Seq<u8>) -> Seq<u8> {
    let o = pixel * 4;
    out.update(o, d[cursor]).update(o + 1, d[cursor + 1]).update(o + 2, d[cursor + 2]).update(
        o + 3,
        if has_alpha {
            d[cursor + 3]
        } else {
            255u8
        },
    )
}

/// Up to `k` coloured pixels from `cursor` on, stopping at the last pixel
/// or when the data ends; gives the cursor, the pixel and the image after.
pub open spec fn colored_run(d: Seq<u8>, has_alpha: bool, cursor: int, pixel: int, out: Seq<u8>, k: nat) -> (
    int,
    int,
    Seq<u8>,
)
    decreases k,
{
    if k == 0 || pixel >= SPRITE_PIXELS || cursor + bytes_per_pixel(has_alpha) > d.len() {
        (cursor, pixel, out)
    } else {
        colored_run(
            d,
            has_alpha,
            cursor + bytes_per_pixel(has_alpha),
            pixel + 1,
            put_pixel(d, has_alpha, cursor, pixel, out),
            (k - 1) as nat,
        )
    }
}

pub proof fn lemma_colored_run(d: Seq<u8>, has_alpha: bool, cursor: int, pixel: int, out: Seq<u8>, k: nat)
    requires
        0 <= cursor,
        0 <= pixel,
    ensures
        cursor <= colored_run(d, has_alpha, cursor, pixel, out, k).0,
        cursor <= d.len() ==> colored_run(d, has_alpha, cursor, pixel, out, k).0 <= d.len(),
        pixel <= colored_run(d, has_alpha, cursor, pixel, out, k).1,
        out.len() == SPRITE_BYTES ==> colored_run(d, has_alpha, cursor, pixel, out, k).2.len() == SPRITE_BYTES,
    decreases k,
{
    if !(k == 0 || pixel >= SPRITE_PIXELS || cursor + bytes_per_pixel(has_alpha) > d.len()) {
        lemma_colored_run(
            d,
            has_alpha,
            cursor + bytes_per_pixel(has_alpha),
            pixel + 1,
            put_pixel(d, has_alpha, cursor, pixel, out),
            (k - 1) as nat,
        );
    }
}

/// The runs of a sprite from `cursor` on: each a count of transparent
/// pixels to skip and a count of coloured pixels that follow, until the
/// data ends or the image is full.
pub open spec fn sprite_runs(d: Seq<u8>, has_alpha: bool, cursor: int, pixel: int, out: Seq<u8>) -> Seq<u8>
    decreases d.len() - cursor,
{
    if cursor < 0 || pixel < 0 || cursor + 4 > d.len() || pixel >= SPRITE_PIXELS {
        out
    } else {
        let transparent = le_u16(d, cursor);
        let colored = le_u16(d, cursor + 2);
        let (c2, p2, o2) = colored_run(d, has_alpha, cursor + 4, pixel + transparent, out, colored as nat);
        proof {
            lemma_colored_run(d, has_alpha, cursor + 4, pixel + transparent, out, colored as nat);
        }
        sprite_runs(d, has_alpha, c2, p2, o2)
    }
}

/// Where the colour of the `j`-th pixel of a run starts, counted from the
/// run's first colour: `j` pixels of 4 or 3 bytes.
pub open spec fn run_offset(has_alpha: bool, j: int) -> int {
    if has_alpha {
        4 * j
    } else {
        3 * j
    }
}

/// Byte `m` (red, green, blue, alpha) of pixel `q` of an RGBA image.
pub open spec fn pixel_byte(img: Seq<u8>, q: int, m: int) -> u8 {
    img[q * 4 + m]
}

/// A run of `k` coloured pixels whose colours are all there and which ends
/// within the image paints pixels `pixel .. pixel + k` with the colours
/// from `cursor` on, in order, and leaves every other byte alone.
proof fn lemma_colored_run_paints(d: Seq<u8>, has_alpha: bool, cursor: int, pixel: int, out: Seq<u8>, k: nat)
    requires
        0 <= cursor,
        0 <= pixel,
        pixel + k <= SPRITE_PIXELS,
        cursor + run_offset(has_alpha, k as int) <= d.len(),
        out.len() == SPRITE_BYTES,
    ensures
        ({
            let r = colored_run(d, has_alpha, cursor, pixel, out, k);
            &&& r.0 == cursor + run_offset(has_alpha, k as int)
            &&& r.1 == pixel + k
            &&& r.2.len() == SPRITE_BYTES
            &&& forall|i: int|
                0 <= i < SPRITE_BYTES && (i < pixel * 4 || (pixel + k) * 4 <= i) ==> #[trigger] r.2[i] == out[i]
            &&& forall|q: int, m: int|
                pixel <= q < pixel + k && 0 <= m < 3 ==> #[trigger] pixel_byte(r.2, q, m) == d[cursor
                    + run_offset(has_alpha, q - pixel) + m]
            &&& forall|q: int|
                pixel <= q < pixel + k ==> #[trigger] pixel_byte(r.2, q, 3) == if has_alpha {
                    d[cursor + run_offset(has_alpha, q - pixel) + 3]
                } else {
                    255u8
                }
        }),
    decreases k,
{
    if k > 0 {
        let bpp = bytes_per_pixel(has_alpha);
        let out1 = put_pixel(d, has_alpha, cursor, pixel, out);
        let o = pixel * 4;
        assert(out1.len() == SPRITE_BYTES);
        lemma_colored_run_paints(d, has_alpha, cursor + bpp, pixel + 1, out1, (k - 1) as nat);
        let r = colored_run(d, has_alpha, cursor, pixel, out, k);
        assert(r == colored_run(d, has_alpha, cursor + bpp, pixel + 1, out1, (k - 1) as nat));
        assert forall|i: int|
            0 <= i < SPRITE_BYTES && (i < pixel * 4 || (pixel + k) * 4 <= i) implies #[trigger] r.2[i] == out[i] by {
            assert(r.2[i] == out1[i]);
        }
        assert(r.2[o] == out1[o] && r.2[o + 1] == out1[o + 1] && r.2[o + 2] == out1[o + 2] && r.2[o + 3] == out1[o
            + 3]);
        assert forall|q: int, m: int|
            pixel <= q < pixel + k && 0 <= m < 3 implies #[trigger] pixel_byte(r.2, q, m) == d[cursor + run_offset(
                has_alpha,
                q - pixel,
            ) + m] by {
            if q == pixel {
                assert(pixel_byte(r.2, q, m) == r.2[o + m]);
            } else {
                assert(pixel_byte(r.2, q, m) == d[cursor + bpp + run_offset(has_alpha, q - (pixel + 1)) + m]);
            }
        }
        assert forall|q: int| pixel <= q < pixel + k implies #[trigger] pixel_byte(r.2, q, 3) == if has_alpha {
            d[cursor + run_offset(has_alpha, q - pixel) + 3]
        } else {
            255u8
        } by {
            if q == pixel {
                assert(pixel_byte(r.2, q, 3) == r.2[o + 3]);
            } else {
                assert(pixel_byte(r.2, q, 3) == pixel_byte(r.2, q, 3));
            }
        }
    }
}

/// Whatever the run, the bytes of the pixels before `pixel` stay as they
/// were.
proof fn lemma_colored_run_keeps_before(d: Seq<u8>, has_alpha: bool, cursor: int, pixel: int, out: Seq<u8>, k: nat)
    requires
        0 <= pixel,
        out.len() == SPRITE_BYTES,
    ensures
        colored_run(d, has_alpha, cursor, pixel, out, k).2.len() == SPRITE_BYTES,
        pixel <= colored_run(d, has_alpha, cursor, pixel, out, k).1,
        forall|i: int|
            0 <= i < pixel * 4 && i < SPRITE_BYTES ==> #[trigger] colored_run(d, has_alpha, cursor, pixel, out, k).2[i]
                == out[i],
    decreases k,
{
    if !(k == 0 || pixel >= SPRITE_PIXELS || cursor + bytes_per_pixel(has_alpha) > d.len()) {
        let out1 = put_pixel(d, has_alpha, cursor, pixel, out);
        lemma_colored_run_keeps_before(
            d,
            has_alpha,
            cursor + bytes_per_pixel(has_alpha),
            pixel + 1,
            out1,
            (k - 1) as nat,
        );
        let r = colored_run(d, has_alpha, cursor, pixel, out, k);
        assert forall|i: int| 0 <= i < pixel * 4 && i < SPRITE_BYTES implies #[trigger] r.2[i] == out[i] by {
            assert(r.2[i] == out1[i]);
        }
    }
}

/// Decoding from pixel `pixel` on leaves the bytes of the pixels before it
/// as they were.
proof fn lemma_sprite_runs_keep_before(d: Seq<u8>, has_alpha: bool, cursor: int, pixel: int, out: Seq<u8>)
    requires
        out.len() == SPRITE_BYTES,
    ensures
        sprite_runs(d, has_alpha, cursor, pixel, out).len() == SPRITE_BYTES,
        forall|i: int|
            0 <= i < pixel * 4 && i < SPRITE_BYTES ==> #[trigger] sprite_runs(d, has_alpha, cursor, pixel, out)[i]
                == out[i],
    decreases d.len() - cursor,
{
    if !(cursor < 0 || pixel < 0 || cursor + 4 > d.len() || pixel >= SPRITE_PIXELS) {
        let transparent = le_u16(d, cursor);
        let colored = le_u16(d, cursor + 2);
        let (c2, p2, o2) = colored_run(d, has_alpha, cursor + 4, pixel + transparent, out, colored as nat);
        lemma_colored_run(d, has_alpha, cursor + 4, pixel + transparent, out, colored as nat);
        lemma_colored_run_keeps_before(d, has_alpha, cursor + 4, pixel + transparent, out, colored as nat);
        lemma_sprite_runs_keep_before(d, has_alpha, c2, p2, o2);
        let r = sprite_runs(d, has_alpha, cursor, pixel, out);
        assert forall|i: int| 0 <= i < pixel * 4 && i < SPRITE_BYTES implies #[trigger] r[i] == out[i] by {
            assert(r[i] == o2[i]);
        }
    }
}

/// One run of a sprite's data, read at `cursor` when decoding has reached
/// pixel `p`: its header gives `t` transparent and `c` coloured pixels.
/// When its colours are all there and it ends within the image, the skip
/// counts from `p`: every byte before pixel `p + t` stays as it was,
/// coloured pixel `q` for `p + t <= q < p + t + c` gets the colour of the
/// run's pixel `q - (p + t)` (opaque when the data has no alpha), and
/// decoding goes on with the next run at pixel `p + t + c`, right after
/// this run's last pixel.
pub proof fn lemma_sprite_run(d: Seq<u8>, has_alpha: bool, cursor: int, p: int, out: Seq<u8>)
    requires
        0 <= cursor,
        cursor + 4 <= d.len(),
        0 <= p < SPRITE_PIXELS,
        out.len() == SPRITE_BYTES,
        p + le_u16(d, cursor) + le_u16(d, cursor + 2) <= SPRITE_PIXELS,
        cursor + 4 + run_offset(has_alpha, le_u16(d, cursor + 2)) <= d.len(),
    ensures
        ({
            let t = le_u16(d, cursor);
            let c = le_u16(d, cursor + 2);
            let r = sprite_runs(d, has_alpha, cursor, p, out);
            &&& r.len() == SPRITE_BYTES
            &&& forall|i: int| 0 <= i < (p + t) * 4 ==> #[trigger] r[i] == out[i]
            &&& forall|q: int, m: int|
                p + t <= q < p + t + c && 0 <= m < 3 ==> #[trigger] pixel_byte(r, q, m) == d[cursor + 4 + run_offset(
                    has_alpha,
                    q - (p + t),
                ) + m]
            &&& forall|q: int|
                p + t <= q < p + t + c ==> #[trigger] pixel_byte(r, q, 3) == if has_alpha {
                    d[cursor + 4 + run_offset(has_alpha, q - (p + t)) + 3]
                } else {
                    255u8
                }
            &&& r == sprite_runs(
                d,
                has_alpha,
                cursor + 4 + run_offset(has_alpha, c),
                p + t + c,
                colored_run(d, has_alpha, cursor + 4, p + t, out, c as nat).2,
            )
        }),
{
    let t = le_u16(d, cursor);
    let c = le_u16(d, cursor + 2);
    assert(0 <= t && 0 <= c);
    let (c2, p2, o2) = colored_run(d, has_alpha, cursor + 4, p + t, out, c as nat);
    lemma_colored_run_paints(d, has_alpha, cursor + 4, p + t, out, c as nat);
    lemma_sprite_runs_keep_before(d, has_alpha, c2, p2, o2);
    let r = sprite_runs(d, has_alpha, cursor, p, out);
    assert(r == sprite_runs(d, has_alpha, c2, p2, o2));
    assert forall|i: int| 0 <= i < (p + t) * 4 implies #[trigger] r[i] == out[i] by {
        assert(r[i] == o2[i]);
    }
    assert forall|q: int, m: int| p + t <= q < p + t + c && 0 <= m < 4 implies #[trigger] pixel_byte(r, q, m)
        == pixel_byte(o2, q, m) by {
        assert(r[q * 4 + m] == o2[q * 4 + m]);
    }
}

/// The image that a sprite's data encodes.
pub open spec fn spec_decode_sprite(d: Seq<u8>, has_alpha: bool) -> Seq<u8> {
    sprite_runs(d, has_alpha, 0, 0, blank_sprite())
}

/// Decodes a sprite's run-length encoded data into a 32x32 RGBA image.
pub fn decode_sprite(data: &[u8], has_alpha: bool) -> (out: Vec<u8>)
    ensures
        out@ == spec_decode_sprite(data@, has_alpha),
        out@.len() == SPRITE_BYTES,
{
    let mut out: Vec<u8> = Vec::new();
    let mut i: usize = 0;
    while i < SPRITE_BYTES
        invariant
            i <= SPRITE_BYTES,
            out@.len() == i,
            forall|k: int| 0 <= k < i ==> #[trigger] out@[k] == 0u8,
        decreases SPRITE_BYTES - i,
    {
        out.push(0u8);
        i += 1;
    }
    assert(out@ =~= blank_sprite());
    let bpp: usize = if has_alpha {
        4
    } else {
        3
    };
    let len = data.len();
    let mut cursor: usize = 0;
    let mut pixel: usize = 0;
    while len - cursor >= 4 && pixel < SPRITE_PIXELS
        invariant
            len == data@.len(),
            cursor <= len,
            bpp == bytes_per_pixel(has_alpha),
            out@.len() == SPRITE_BYTES,
            pixel < SPRITE_PIXELS + 0x1_0000,
            sprite_runs(data@, has_alpha, cursor as int, pixel as int, out@) == spec_decode_sprite(data@, has_alpha),
        decreases len - cursor,
    {
        let transparent = (data[cursor] as usize) + 256 * (data[cursor + 1] as usize);
        let colored = (data[cursor + 2] as usize) + 256 * (data[cursor + 3] as usize);
        cursor += 4;
        pixel += transparent;
        let ghost c0 = cursor as int;
        let ghost p0 = pixel as int;
        let ghost o0 = out@;
        let mut k: usize = 0;
        while k < colored
            invariant_except_break
                colored_run(data@, has_alpha, c0, p0, o0, colored as nat) == colored_run(
                    data@,
                    has_alpha,
                    cursor as int,
                    pixel as int,
                    out@,
                    (colored - k) as nat,
                ),
            invariant
                len == data@.len(),
                k <= colored,
                cursor <= len,
                c0 <= cursor,
                bpp == bytes_per_pixel(has_alpha),
                out@.len() == SPRITE_BYTES,
                pixel < SPRITE_PIXELS + 0x1_0000,
            ensures
                colored_run(data@, has_alpha, c0, p0, o0, colored as nat) == (cursor as int, pixel as int, out@),
            decreases colored - k,
        {
            if pixel >= SPRITE_PIXELS || len - cursor < bpp {
                break;
            }
            let r = data[cursor];
            let g = data[cursor + 1];
            let b = data[cursor + 2];
            let a = if has_alpha {
                data[cursor + 3]
            } else {
                255
            };
            cursor += bpp;
            let o = pixel * 4;
            out.set(o, r);
            out.set(o + 1, g);
            out.set(o + 2, b);
            out.set(o + 3, a);
            pixel += 1;
            k += 1;
        }
    }
    out
}

} // verus!
