//! The data the application puts on the clipboard: UTF-16 text, a bottom-up
//! 32-bit bitmap, and a file list in the `DROPFILES` layout.
use vstd::prelude::*;

use vstd::arithmetic::div_mod::lemma_fundamental_div_mod_converse;

use crate::imaging::{decode_image, image_decoding};
use crate::paths::{extension_or_empty, extension_text};
use crate::text::{owned, push_str};

verus! {

/// The UTF-16 code units of one character.
pub open spec fn utf16_of_char(c: char) -> Seq<u16> {
    let u = c as u32;
    if u < 0x10000 {
        seq![u as u16]
    } else {
        let v = u - 0x10000;
        seq![(0xD800 + v / 1024) as u16, (0xDC00 + v % 1024) as u16]
    }
}

/// The UTF-16 encoding of a text.
pub open spec fn utf16_units(s: Seq<char>) -> Seq<u16>
    decreases s.len(),
{
    if s.len() == 0 {
        Seq::empty()
    } else {
        utf16_units(s.drop_last()) + utf16_of_char(s.last())
    }
}

fn push_utf16(out: &mut Vec<u16>, c: char)
    ensures
        final(out)@ == old(out)@ + utf16_of_char(c),
{
    let u = c as u32;
    if u < 0x10000 {
        out.push(u as u16);
    } else {
        let v = u - 0x10000;
        assert(v < 0x100000) by {
            assert(u <= 0x10FFFF);
        }
        out.push((0xD800 + v / 1024) as u16);
        out.push((0xDC00 + v % 1024) as u16);
    }
    assert(final(out)@ =~= old(out)@ + utf16_of_char(c));
}

fn append_utf16(out: &mut Vec<u16>, s: &str)
    ensures
        final(out)@ == old(out)@ + utf16_units(s@),
{
    let cs = crate::text::chars_of(s);
    let ghost start = out@;
    let mut i: usize = 0;
    while i < cs.len()
        invariant
            i <= cs@.len(),
            cs@ == s@,
            out@ == start + utf16_units(cs@.take(i as int)),
        decreases cs.len() - i,
    {
        push_utf16(out, cs[i]);
        proof {
            assert(cs@.take(i + 1).drop_last() =~= cs@.take(i as int));
            assert(out@ =~= start + utf16_units(cs@.take(i + 1)));
        }
        i = i + 1;
    }
    assert(cs@.take(cs@.len() as int) =~= cs@);
}

/// The units of a text as the clipboard stores it: UTF-16 ending in a zero.
pub fn clipboard_text_units(text: &str) -> (r: Vec<u16>)
    ensures
        r@ == utf16_units(text@).push(0u16),
{
    let mut out: Vec<u16> = Vec::new();
    append_utf16(&mut out, text);
    assert(out@ =~= utf16_units(text@));
    out.push(0);
    out
}

/// Little-endian bytes of a 32-bit value.
pub open spec fn le32_bytes(v: u32) -> Seq<u8> {
    seq![(v % 256) as u8, ((v / 256) % 256) as u8, ((v / 65536) % 256) as u8, (v / 16777216) as u8]
}

/// Little-endian bytes of a 16-bit value.
pub open spec fn le16_bytes(v: u16) -> Seq<u8> {
    seq![(v % 256) as u8, (v / 256) as u8]
}

fn push_le32(out: &mut Vec<u8>, v: u32)
    ensures
        final(out)@ == old(out)@ + le32_bytes(v),
{
    out.push((v % 256) as u8);
    out.push(((v / 256) % 256) as u8);
    out.push(((v / 65536) % 256) as u8);
    out.push((v / 16777216) as u8);
    assert(final(out)@ =~= old(out)@ + le32_bytes(v));
}

fn push_le16(out: &mut Vec<u8>, v: u16)
    ensures
        final(out)@ == old(out)@ + le16_bytes(v),
{
    out.push((v % 256) as u8);
    out.push((v / 256) as u8);
    assert(final(out)@ =~= old(out)@ + le16_bytes(v));
}

/// The size of the `DROPFILES` header.
pub const DROPFILES_SIZE: u32 = 20;

/// Little-endian bytes of 16-bit units.
pub open spec fn units_bytes(u: Seq<u16>) -> Seq<u8>
    decreases u.len(),
{
    if u.len() == 0 {
        Seq::empty()
    } else {
        units_bytes(u.drop_last()) + le16_bytes(u.last())
    }
}

/// The paths one after another, each ending in a zero unit, and a final
/// zero unit.
pub open spec fn path_list_units(paths: Seq<Seq<u16>>) -> Seq<u16>
    decreases paths.len(),
{
    if paths.len() == 0 {
        seq![0u16]
    } else {
        let prev = path_list_units(paths.drop_last());
        prev.take(prev.len() - 1) + paths.last() + seq![0u16, 0u16]
    }
}

/// The `DROPFILES` header: the offset of the path list, a zero point, no
/// non-client flag, and wide characters.
pub open spec fn dropfiles_header() -> Seq<u8> {
    le32_bytes(DROPFILES_SIZE) + le32_bytes(0) + le32_bytes(0) + le32_bytes(0) + le32_bytes(1)
}

/// A file list in the clipboard's `CF_HDROP` format, from the UTF-16 units
/// of the paths; an empty list is refused.
pub fn dropfiles_payload(paths: &Vec<Vec<u16>>) -> (r: Result<Vec<u8>, String>)
    ensures
        r is Err <==> paths@.len() == 0,
        r matches Err(m) ==> m@ == "No files provided"@,
        r matches Ok(b) ==> b@ == dropfiles_header() + units_bytes(path_list_units(paths@.map_values(|p: Vec<u16>| p@))),
{
    if paths.len() == 0 {
        return Err(owned("No files provided"));
    }
    let ghost ps = paths@.map_values(|p: Vec<u16>| p@);
    let mut units: Vec<u16> = Vec::new();
    units.push(0);
    assert(units@ =~= path_list_units(ps.take(0)));
    let mut i: usize = 0;
    while i < paths.len()
        invariant
            i <= paths@.len(),
            ps == paths@.map_values(|p: Vec<u16>| p@),
            units@ == path_list_units(ps.take(i as int)),
            units@.len() >= 1,
        decreases paths.len() - i,
    {
        let ghost prev = units@;
        let _ = units.pop();
        let p = &paths[i];
        let mut j: usize = 0;
        let ghost base = units@;
        while j < p.len()
            invariant
                j <= p@.len(),
                units@ == base + p@.take(j as int),
            decreases p.len() - j,
        {
            units.push(p[j]);
            assert(units@ =~= base + p@.take(j + 1));
            j = j + 1;
        }
        units.push(0);
        units.push(0);
        proof {
            assert(ps.take(i + 1).drop_last() =~= ps.take(i as int));
            assert(p@.take(p@.len() as int) =~= p@);
            assert(base =~= prev.take(prev.len() - 1));
            assert(units@ =~= path_list_units(ps.take(i + 1)));
        }
        i = i + 1;
    }
    assert(ps.take(paths@.len() as int) =~= ps);
    let mut out: Vec<u8> = Vec::new();
    push_le32(&mut out, DROPFILES_SIZE);
    assert(out@ =~= le32_bytes(DROPFILES_SIZE));
    push_le32(&mut out, 0);
    push_le32(&mut out, 0);
    push_le32(&mut out, 0);
    push_le32(&mut out, 1);
    let ghost head = out@;
    let mut k: usize = 0;
    while k < units.len()
        invariant
            k <= units@.len(),
            out@ == head + units_bytes(units@.take(k as int)),
        decreases units.len() - k,
    {
        push_le16(&mut out, units[k]);
        proof {
            assert(units@.take(k + 1).drop_last() =~= units@.take(k as int));
            assert(out@ =~= head + units_bytes(units@.take(k + 1)));
        }
        k = k + 1;
    }
    assert(units@.take(units@.len() as int) =~= units@);
    Ok(out)
}


/// The `BITMAPINFOHEADER` the application writes: 40 bytes, the size,
/// a positive height (rows bottom up), one plane, 32 bits per pixel, no
/// compression, the image size, 3780 pixels per metre both ways, no palette.
pub open spec fn dib_header_bytes(w: u32, h: u32) -> Seq<u8> {
    le32_bytes(40) + le32_bytes(w) + le32_bytes(h) + le16_bytes(1) + le16_bytes(32) + le32_bytes(0)
        + le32_bytes((4 * w * h) as u32) + le32_bytes(3780) + le32_bytes(3780) + le32_bytes(0) + le32_bytes(0)
}

/// Byte `j` of the pixel rows: the bottom image row first, each pixel as
/// blue, green, red, alpha.
pub open spec fn dib_pixel_byte(w: u32, h: u32, rgba: Seq<u8>, j: int) -> u8 {
    let row = j / (4 * w as int);
    let x = (j % (4 * w as int)) / 4;
    let c = j % 4;
    let src = ((h - 1 - row) * w + x) * 4;
    if c == 0 {
        rgba[src + 2]
    } else if c == 1 {
        rgba[src + 1]
    } else if c == 2 {
        rgba[src]
    } else {
        rgba[src + 3]
    }
}

/// The bitmap the application puts on the clipboard for an RGBA image.
pub open spec fn dib_encoding(w: u32, h: u32, rgba: Seq<u8>) -> Seq<u8> {
    dib_header_bytes(w, h) + Seq::new((4 * w * h) as nat, |j: int| dib_pixel_byte(w, h, rgba, j))
}

/// The sides of an image the clipboard bitmap accepts.
pub open spec fn dib_sides_ok(w: u32, h: u32) -> bool {
    1 <= w <= 32768 && 1 <= h <= 32768
}

pub(crate) proof fn lemma_pixel_position(w: int, y: int, x: int, c: int)
    requires
        w > 0,
        0 <= y,
        0 <= x < w,
        0 <= c < 4,
    ensures
        ({
            let j = 4 * (y * w + x) + c;
            &&& j / (4 * w) == y
            &&& (j % (4 * w)) / 4 == x
            &&& j % 4 == c
        }),
{
    let j = 4 * (y * w + x) + c;
    assert(4 * (y * w + x) + c == y * (4 * w) + (4 * x + c)) by (nonlinear_arith);
    lemma_fundamental_div_mod_converse(j, 4 * w, y, 4 * x + c);
    lemma_fundamental_div_mod_converse(4 * x + c, 4, x, c);
    lemma_fundamental_div_mod_converse(j, 4, y * w + x, c);
}

/// Encodes an RGBA image as the clipboard bitmap. Refused: a side that is
/// zero or beyond 32768, and sizes that do not fit in memory.
pub fn encode_clipboard_dib(w: u32, h: u32, rgba: &Vec<u8>) -> (r: Result<Vec<u8>, String>)
    requires
        rgba@.len() == 4 * w * h,
    ensures
        !dib_sides_ok(w, h) ==> (r matches Err(m) && m@ == "Invalid image dimensions"@),
        dib_sides_ok(w, h) && 40 + 4 * w * h <= usize::MAX ==> (r matches Ok(b) && b@ == dib_encoding(w, h, rgba@)),
        dib_sides_ok(w, h) && 4 * w * h > usize::MAX ==> (r matches Err(m) && m@ == "Image size overflow"@),
        dib_sides_ok(w, h) && 4 * w * h <= usize::MAX < 40 + 4 * w * h ==> (r matches Err(m) && m@ == "Total size overflow"@),
{
    if w == 0 || h == 0 || w > 32768 || h > 32768 {
        return Err(owned("Invalid image dimensions"));
    }
    let row_stride: usize = (w as usize) * 4;
    assert((w as int) * 4 * (h as int) == 4 * w * h) by (nonlinear_arith);
    assert(4 * w * h <= 4 * 32768 * 32768) by (nonlinear_arith)
        requires w <= 32768, h <= 32768;
    let data_size: usize = match row_stride.checked_mul(h as usize) {
        Some(v) => v,
        None => return Err(owned("Image size overflow")),
    };
    if data_size > usize::MAX - 40 {
        return Err(owned("Total size overflow"));
    }
    let mut out: Vec<u8> = Vec::new();
    push_le32(&mut out, 40);
    assert(out@ =~= le32_bytes(40));
    push_le32(&mut out, w);
    push_le32(&mut out, h);
    push_le16(&mut out, 1);
    push_le16(&mut out, 32);
    push_le32(&mut out, 0);
    push_le32(&mut out, data_size as u32);
    push_le32(&mut out, 3780);
    push_le32(&mut out, 3780);
    push_le32(&mut out, 0);
    push_le32(&mut out, 0);
    let ghost header = out@;
    assert(header == dib_header_bytes(w, h));
    let mut y: u32 = 0;
    while y < h
        invariant
            1 <= w <= 32768,
            1 <= h <= 32768,
            rgba@.len() == 4 * w * h,
            data_size == 4 * w * h,
            y <= h,
            out@.len() == 40 + 4 * (y * w),
            out@.subrange(0, 40) == header,
            forall|j: int| 0 <= j < 4 * (y * w) ==> #[trigger] out@[40 + j] == dib_pixel_byte(w, h, rgba@, j),
        decreases h - y,
    {
        let src_y = h - 1 - y;
        let mut x: u32 = 0;
        while x < w
            invariant
                1 <= w <= 32768,
                1 <= h <= 32768,
                rgba@.len() == 4 * w * h,
                data_size == 4 * w * h,
                y < h,
                src_y == h - 1 - y,
                x <= w,
                out@.len() == 40 + 4 * (y * w + x),
                out@.subrange(0, 40) == header,
                forall|j: int| 0 <= j < 4 * (y * w + x) ==> #[trigger] out@[40 + j] == dib_pixel_byte(w, h, rgba@, j),
            decreases w - x,
        {
            assert((src_y as int) * (w as int) + (x as int) < (h as int) * (w as int)) by (nonlinear_arith)
                requires src_y < h, x < w;
            assert((h as int) * (w as int) == w * h) by (nonlinear_arith);
            assert(((src_y as int) * (w as int) + (x as int)) * 4 + 4 <= 4 * w * h) by (nonlinear_arith)
                requires src_y < h, x < w, (src_y as int) * (w as int) + (x as int) < (h as int) * (w as int), (h as int) * (w as int) == w * h;
            let s: usize = ((src_y as usize) * (w as usize) + (x as usize)) * 4;
            let ghost before = out@;
            out.push(rgba[s + 2]);
            out.push(rgba[s + 1]);
            out.push(rgba[s]);
            out.push(rgba[s + 3]);
            proof {
                assert(out@.subrange(0, 40) =~= before.subrange(0, 40));
                assert((y as int) * (w as int) + (x as int) + 1 <= (h as int) * (w as int)) by (nonlinear_arith)
                    requires y < h, x < w;
                assert forall|j: int| 0 <= j < 4 * (y * w + x + 1) implies #[trigger] out@[40 + j] == dib_pixel_byte(w, h, rgba@, j) by {
                    if j >= 4 * (y * w + x) {
                        let c = j - 4 * (y * w + x);
                        lemma_pixel_position(w as int, y as int, x as int, c);
                        assert((((h as int) - 1 - (y as int)) * (w as int) + (x as int)) * 4 == s);
                    } else {
                        assert(out@[40 + j] == before[40 + j]);
                    }
                }
            }
            x = x + 1;
        }
        proof {
            assert((y as int) * (w as int) + (w as int) == ((y + 1) as int) * (w as int)) by (nonlinear_arith);
        }
        y = y + 1;
    }
    proof {
        let full = dib_encoding(w, h, rgba@);
        assert((h as int) * (w as int) == w * h) by (nonlinear_arith);
        assert(4 * ((h as int) * (w as int)) == 4 * w * h) by (nonlinear_arith);
        assert(full.len() == 40 + 4 * w * h);
        assert(out@.len() == full.len());
        assert forall|k: int| 0 <= k < out@.len() implies out@[k] == full[k] by {
            if k < 40 {
                assert(out@[k] == out@.subrange(0, 40)[k]);
            } else {
                assert(out@[40 + (k - 40)] == dib_pixel_byte(w, h, rgba@, k - 40));
            }
        }
        assert(out@ =~= full);
    }
    Ok(out)
}

/// Encodes an image file, decoded by its extension, as the clipboard bitmap.
/// A file that does not decode is refused with the decoder's error; the
/// bitmap's own refusals are those of `encode_clipboard_dib`.
pub fn clipboard_dib_of_image(bytes: &[u8], path: &str) -> (r: Result<Vec<u8>, String>)
    ensures
        match image_decoding(bytes@, extension_or_empty(path@)) {
            Err(e) => r matches Err(m) && m@ == "open image: "@ + e,
            Ok(img) => {
                &&& !dib_sides_ok(img.0, img.1) ==> (r matches Err(m) && m@ == "Invalid image dimensions"@)
                &&& dib_sides_ok(img.0, img.1) && 40 + 4 * img.0 * img.1 <= usize::MAX ==> (r matches Ok(b)
                    && b@ == dib_encoding(img.0, img.1, img.2))
                &&& dib_sides_ok(img.0, img.1) && 4 * img.0 * img.1 > usize::MAX ==> (r matches Err(m)
                    && m@ == "Image size overflow"@)
                &&& dib_sides_ok(img.0, img.1) && 4 * img.0 * img.1 <= usize::MAX < 40 + 4 * img.0 * img.1 ==> (
                r matches Err(m) && m@ == "Total size overflow"@)
            },
        },
{
    let ext = extension_text(path);
    match decode_image(bytes, ext.as_str()) {
        Ok((w, h, px)) => encode_clipboard_dib(w, h, &px),
        Err(e) => {
            let mut m = owned("open image: ");
            push_str(&mut m, e.as_str());
            Err(m)
        },
    }
}

} // verus!
