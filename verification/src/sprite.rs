//! Decoding of the client's `sprites-*.bmp.lzma` sheets.
//!
//! A sheet file starts with a header: zero padding, a magic sequence whose
//! first byte ends the padding, a 7-bit encoded size, the `lclppb` byte of
//! the LZMA properties, the dictionary size (`u32`, little-endian) and
//! eight bytes of compressed size; raw LZMA data follows. Decompressed, it
//! is a 384x384 BGRA bitmap stored bottom-up, which is flipped so that the
//! top-left corner comes first.

use vstd::prelude::*;
use vstd::slice::slice_subrange;
use crate::binary::le_u32;

verus! {

/// Width and height of a sheet, in pixels.
pub const SHEET_SIZE: u32 = 384;

/// Bytes of pixels in a sheet (384 * 384 * 4).
pub const SHEET_BYTES: usize = 589824;

/// Bytes in a row of a sheet (384 * 4).
pub const ROW_BYTES: usize = 1536;

/// The size of a decompressed sheet: the bitmap and its 122 header bytes.
pub const UNCOMPRESSED_SIZE: usize = 589946;

#[verifier::external_type_specification]
#[verifier::external_body]
pub struct ExLzmaError(lzma_rs::error::Error);

#[derive(Debug)]
pub enum SheetError {
    TruncatedHeader,
    BadMagic,
    Lzma(lzma_rs::error::Error),
    TruncatedOutput,
}

/// What the header of a sheet file gives.
#[derive(Debug, Clone, Copy, PartialEq, Eq, Structural)]
pub struct SheetHeader {
    /// The LZMA properties byte: `lc + 9 * (lp + 5 * pb)`.
    pub lclppb: u8,
    pub dict_size: u32,
    /// Where the LZMA data starts.
    pub data_start: usize,
}

/// The index of the first non-zero byte from `i` on.
pub open spec fn first_nonzero(s: Seq<u8>, i: int) -> Option<int>
    decreases s.len() - i,
{
    if i < 0 || i >= s.len() {
        None
    } else if s[i] != 0 {
        Some(i)
    } else {
        first_nonzero(s, i + 1)
    }
}

/// The index just after the first byte from `i` on whose high bit is clear.
pub open spec fn varint_end(s: Seq<u8>, i: int) -> Option<int>
    decreases s.len() - i,
{
    if i < 0 || i >= s.len() {
        None
    } else if s[i] < 0x80 {
        Some(i + 1)
    } else {
        varint_end(s, i + 1)
    }
}

/// The header of a sheet file, or `None` when the file ends inside it.
pub open spec fn spec_sheet_header(s: Seq<u8>) -> Option<SheetHeader> {
    match first_nonzero(s, 0) {
        None => None,
        Some(m) => match varint_end(s, m + 5) {
            None => None,
            Some(p) => if p + 5 <= s.len() && p + 13 <= s.len() {
                Some(SheetHeader { lclppb: s[p], dict_size: le_u32(s, p + 1) as u32, data_start: (p + 13) as usize })
            } else {
                None
            },
        },
    }
}

/// Reads the header of a sheet file.
pub fn parse_sheet_header(data: &[u8]) -> (r: Result<SheetHeader, SheetError>)
    ensures
        match r {
            Ok(h) => spec_sheet_header(data@) == Some(h) && h.data_start <= data@.len(),
            Err(e) => spec_sheet_header(data@) is None && e is TruncatedHeader,
        },
{
    let mut pos: usize = 0;
    loop
        invariant_except_break
            first_nonzero(data@, 0) == first_nonzero(data@, pos as int),
        invariant
            pos <= data@.len(),
        ensures
            pos >= 1,
            first_nonzero(data@, 0) == Some(pos - 1),
        decreases data@.len() - pos,
    {
        if pos >= data.len() {
            return Err(SheetError::TruncatedHeader);
        }
        let b = data[pos];
        pos += 1;
        if b != 0 {
            break;
        }
    }
    if data.len() - pos <= 4 {
        return Err(SheetError::TruncatedHeader);
    }
    pos += 4;
    let ghost m = pos - 5;
    loop
        invariant_except_break
            varint_end(data@, m + 5) == varint_end(data@, pos as int),
        invariant
            pos <= data@.len(),
            first_nonzero(data@, 0) == Some(m),
        ensures
            varint_end(data@, m + 5) == Some(pos as int),
            pos <= data@.len(),
            first_nonzero(data@, 0) == Some(m),
        decreases data@.len() - pos,
    {
        if pos >= data.len() {
            return Err(SheetError::TruncatedHeader);
        }
        let b = data[pos];
        pos += 1;
        assert(b & 0x80 == 0 <==> b < 0x80) by (bit_vector);
        if b & 0x80 == 0 {
            break;
        }
    }
    if data.len() - pos < 13 {
        return Err(SheetError::TruncatedHeader);
    }
    let lclppb = data[pos];
    let dict_size = (data[pos + 1] as u32) | ((data[pos + 2] as u32) << 8u32) | ((data[pos + 3] as u32) << 16u32)
        | ((data[pos + 4] as u32) << 24u32);
    let (b0, b1, b2, b3) = (data[pos + 1], data[pos + 2], data[pos + 3], data[pos + 4]);
    assert(dict_size == b0 + 256 * b1 + 65536 * (b2 + 256 * b3)) by (bit_vector)
        requires
            dict_size == (b0 as u32) | ((b1 as u32) << 8u32) | ((b2 as u32) << 16u32) | ((b3 as u32) << 24u32),
    ;
    Ok(SheetHeader { lclppb, dict_size, data_start: pos + 13 })
}

/// The output of the raw LZMA decoder of `lzma_rs`, with properties `lc`,
/// `lp`, `pb` and the given dictionary size, on `input`; `None` when it
/// fails.
pub uninterp spec fn lzma_raw_output(lc: u32, lp: u32, pb: u32, dict_size: u32, input: Seq<u8>) -> Option<Seq<u8>>;

/// `lzma_rs::decompress::raw::LzmaDecoder::decompress`, run by a decoder
/// made by `LzmaDecoder::new` (no memory limit) from `LzmaParams::new` with
/// the properties and dictionary size and no unpacked size: what it writes,
/// or its error. The decoder asserts `lc <= 8`, `lp <= 4`, `pb <= 4`, and
/// its dictionary buffer divides by the dictionary size, which must not
/// be 0.
#[verifier::external_body]
fn lzma_raw_decompress(lc: u32, lp: u32, pb: u32, dict_size: u32, input: &[u8]) -> (r: Result<Vec<u8>, lzma_rs::error::Error>)
    requires
        lc <= 8,
        lp <= 4,
        pb <= 4,
        dict_size >= 1,
    ensures
        match r {
            Ok(v) => lzma_raw_output(lc, lp, pb, dict_size, input@) == Some(v@),
            Err(_) => lzma_raw_output(lc, lp, pb, dict_size, input@) is None,
        },
{
    let props = lzma_rs::decompress::raw::LzmaProperties { lc, lp, pb };
    let params = lzma_rs::decompress::raw::LzmaParams::new(props, dict_size, None);
    let mut output = Vec::with_capacity(UNCOMPRESSED_SIZE);
    let mut decoder = lzma_rs::decompress::raw::LzmaDecoder::new(params, None)?;
    decoder.decompress(&mut std::io::Cursor::new(input), &mut output)?;
    Ok(output)
}

/// The rows of a bottom-up bitmap in top-down order.
pub open spec fn flip_rows(p: Seq<u8>) -> Seq<u8> {
    Seq::new(SHEET_BYTES as nat, |i: int| p[(383 - i / 1536) * 1536 + i % 1536])
}

/// The sheet that a decompressed bitmap holds: its pixels start at the
/// offset stored at byte 10; a bitmap too short for them is refused.
pub open spec fn spec_sheet_pixels(out: Seq<u8>) -> Option<Seq<u8>> {
    if out.len() < SHEET_BYTES + 11 {
        None
    } else {
        let off = le_u32(out, 10);
        if off + SHEET_BYTES > out.len() {
            None
        } else {
            Some(flip_rows(out.subrange(off, off + SHEET_BYTES)))
        }
    }
}

proof fn lemma_row_index(r: int, c: int)
    requires
        0 <= r,
        0 <= c < 1536,
    ensures
        (r * 1536 + c) / 1536 == r,
        (r * 1536 + c) % 1536 == c,
{
    assert((r * 1536 + c) / 1536 == r && (r * 1536 + c) % 1536 == c) by (nonlinear_arith)
        requires
            0 <= r,
            0 <= c < 1536,
    ;
}

/// The sheet in a decompressed bitmap, rows flipped.
pub fn sheet_from_output(output: &[u8]) -> (r: Result<Vec<u8>, SheetError>)
    ensures
        match r {
            Ok(v) => spec_sheet_pixels(output@) == Some(v@),
            Err(e) => spec_sheet_pixels(output@) is None && e is TruncatedOutput,
        },
{
    if output.len() < SHEET_BYTES + 11 {
        return Err(SheetError::TruncatedOutput);
    }
    let (b0, b1, b2, b3) = (output[10], output[11], output[12], output[13]);
    let off32 = (b0 as u32) | ((b1 as u32) << 8u32) | ((b2 as u32) << 16u32) | ((b3 as u32) << 24u32);
    assert(off32 == b0 + 256 * b1 + 65536 * (b2 + 256 * b3)) by (bit_vector)
        requires
            off32 == (b0 as u32) | ((b1 as u32) << 8u32) | ((b2 as u32) << 16u32) | ((b3 as u32) << 24u32),
    ;
    let off = off32 as usize;
    if off > output.len() || output.len() - off < SHEET_BYTES {
        return Err(SheetError::TruncatedOutput);
    }
    let ghost pixels = output@.subrange(off as int, off + SHEET_BYTES);
    let total = output.len();
    let mut sheet: Vec<u8> = Vec::new();
    let mut row: usize = 0;
    while row < 384
        invariant
            row <= 384,
            off + SHEET_BYTES <= output@.len(),
            output@.len() == total,
            pixels == output@.subrange(off as int, off + SHEET_BYTES),
            sheet@.len() == row * 1536,
            forall|k: int| 0 <= k < sheet@.len() ==> #[trigger] sheet@[k] == flip_rows(pixels)[k],
        decreases 384 - row,
    {
        assert((383 - row) * 1536 <= 588288) by (nonlinear_arith)
            requires
                row < 384,
        ;
        let base = off + (383 - row) * ROW_BYTES;
        let mut c: usize = 0;
        while c < ROW_BYTES
            invariant
                row < 384,
                c <= 1536,
                off + SHEET_BYTES <= output@.len(),
                output@.len() == total,
                base == off + (383 - row) * 1536,
                pixels == output@.subrange(off as int, off + SHEET_BYTES),
                sheet@.len() == row * 1536 + c,
                forall|k: int| 0 <= k < sheet@.len() ==> #[trigger] sheet@[k] == flip_rows(pixels)[k],
            decreases 1536 - c,
        {
            proof {
                lemma_row_index(row as int, c as int);
                assert(((383 - row) * 1536 + c) < SHEET_BYTES) by (nonlinear_arith)
                    requires
                        row < 384,
                        c < 1536,
                ;
                assert(pixels[(383 - row) * 1536 + c] == output@[base + c]);
            }
            sheet.push(output[base + c]);
            c += 1;
        }
        row += 1;
    }
    assert(sheet@ =~= flip_rows(pixels));
    Ok(sheet)
}

/// The pixels that a sheet file holds, decoded: its header read, the LZMA
/// data after it decompressed with the properties of its `lclppb` byte,
/// and the bitmap's rows flipped (BGRA, 384x384, top row first).
pub fn decode_sheet(data: &[u8]) -> (r: Result<Vec<u8>, SheetError>)
    requires
        spec_sheet_header(data@) matches Some(h) ==> h.lclppb < 225 && h.dict_size >= 1,
    ensures
        match spec_sheet_header(data@) {
            None => r matches Err(e) && e is TruncatedHeader,
            Some(h) => match lzma_raw_output(
                (h.lclppb % 9) as u32,
                ((h.lclppb / 9) % 5) as u32,
                ((h.lclppb / 9) / 5) as u32,
                h.dict_size,
                data@.subrange(h.data_start as int, data@.len() as int),
            ) {
                None => r matches Err(e) && e is Lzma,
                Some(out) => match spec_sheet_pixels(out) {
                    None => r matches Err(e) && e is TruncatedOutput,
                    Some(p) => r matches Ok(v) && v@ == p,
                },
            },
        },
{
    let h = match parse_sheet_header(data) {
        Ok(h) => h,
        Err(e) => return Err(e),
    };
    let compressed = slice_subrange(data, h.data_start, data.len());
    let lclppb = h.lclppb as u32;
    let lc = lclppb % 9;
    let lp = (lclppb / 9) % 5;
    let pb = (lclppb / 9) / 5;
    match lzma_raw_decompress(lc, lp, pb, h.dict_size, compressed) {
        Err(e) => Err(SheetError::Lzma(e)),
        Ok(output) => sheet_from_output(output.as_slice()),
    }
}

} // verus!
