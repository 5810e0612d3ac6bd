//! Decoding of device-independent bitmaps (the clipboard's `CF_DIB` and
//! `CF_DIBV5` payloads) into top-down RGBA pixels.
use vstd::prelude::*;

use vstd::arithmetic::div_mod::{lemma_fundamental_div_mod, lemma_fundamental_div_mod_converse};
use vstd::std_specs::bits::{axiom_u32_trailing_zeros, u32_trailing_zeros};

verus! {

/// Uncompressed pixel rows.
pub const BI_RGB: u32 = 0;

/// Pixel rows with explicit colour masks.
pub const BI_BITFIELDS: u32 = 3;

/// The largest accepted width and height.
pub const MAX_DIB_SIDE: u32 = 32768;

/// The largest accepted number of pixels (64 megapixels).
pub const MAX_DIB_PIXELS: u64 = 67108864;

/// Little-endian 16-bit value at `at`.
pub open spec fn le16(d: Seq<u8>, at: int) -> u16 {
    (d[at] + 256 * d[at + 1]) as u16
}

/// Little-endian 32-bit value at `at`.
pub open spec fn le32(d: Seq<u8>, at: int) -> u32 {
    (d[at] + 256 * d[at + 1] + 65536 * d[at + 2] + 16777216 * d[at + 3]) as u32
}

/// A 32-bit field read as a two's complement signed value.
pub open spec fn signed32(v: u32) -> int {
    if v < 0x8000_0000 { v as int } else { v - 0x1_0000_0000 }
}

/// How the pixel rows of a bitmap are laid out after its header.
#[derive(Debug, Clone, Copy, PartialEq, Eq)]
pub struct DibLayout {
    pub width: u32,
    pub height: u32,
    /// Rows are stored bottom row first (positive height in the header).
    pub bottom_up: bool,
    pub bit_count: u16,
    /// Where the first pixel row starts.
    pub offset: usize,
    /// Bytes per stored row, padded to a multiple of four.
    pub stride: usize,
    pub r_mask: u32,
    pub g_mask: u32,
    pub b_mask: u32,
    pub a_mask: u32,
}

/// The layout of the bitmap in `d`, or `None` where the header is refused:
/// too short, not one plane, a width outside `1..=32768`, a zero height or one
/// beyond 32768 rows either way, more than 64 megapixels, a depth other than
/// 24 or 32 bits, a compression other than plain or bit fields, colour masks
/// that are zero or overlap, or fewer pixel bytes than the rows need.
pub open spec fn dib_layout(d: Seq<u8>) -> Option<DibLayout> {
    if d.len() < 40 {
        None
    } else {
        let bi_size = le32(d, 0);
        let width = signed32(le32(d, 4));
        let height = signed32(le32(d, 8));
        let planes = le16(d, 12);
        let bits = le16(d, 14);
        let comp = le32(d, 16);
        let h: int = if height < 0 { -height } else { height };
        if bi_size < 40 || d.len() < bi_size {
            None
        } else if planes != 1 || width <= 0 || height == 0 || width > 32768 || h > 32768 {
            None
        } else if bits != 24 && bits != 32 {
            None
        } else if comp != BI_RGB && comp != BI_BITFIELDS {
            None
        } else if width * h > MAX_DIB_PIXELS {
            None
        } else {
            let fields = comp == BI_BITFIELDS;
            // Masks that follow a plain 40-byte header.
            let trailing = fields && bi_size == 40;
            let listed = fields && (bi_size == 40 || bi_size >= 108);
            let r: u32 = if listed { le32(d, 40) } else { 0x00FF_0000 };
            let g: u32 = if listed { le32(d, 44) } else { 0x0000_FF00 };
            let b: u32 = if listed { le32(d, 48) } else { 0x0000_00FF };
            let a: u32 = if fields && bi_size >= 120 { le32(d, 52) } else { 0xFF00_0000 };
            let offset: int = if trailing { bi_size + 12 } else { bi_size as int };
            let stride: int = (width * bits + 31) / 32 * 4;
            if trailing && d.len() < 52 {
                None
            } else if fields && (r == 0 || g == 0 || b == 0) {
                None
            } else if fields && ((r & g) != 0 || (r & b) != 0 || (g & b) != 0) {
                None
            } else if offset > d.len() || d.len() - offset < stride * h {
                None
            } else {
                Some(DibLayout {
                    width: width as u32,
                    height: h as u32,
                    bottom_up: height > 0,
                    bit_count: bits,
                    offset: offset as usize,
                    stride: stride as usize,
                    r_mask: r,
                    g_mask: g,
                    b_mask: b,
                    a_mask: a,
                })
            }
        }
    }
}

/// What an accepted layout guarantees about the buffer.
pub open spec fn layout_fits(d: Seq<u8>, l: DibLayout) -> bool {
    &&& 1 <= l.width <= MAX_DIB_SIDE
    &&& 1 <= l.height <= MAX_DIB_SIDE
    &&& l.width * l.height <= MAX_DIB_PIXELS
    &&& l.bit_count == 24 || l.bit_count == 32
    &&& l.stride == (l.width * l.bit_count + 31) / 32 * 4
    &&& l.offset + l.stride * l.height <= d.len()
    &&& l.r_mask != 0 && l.g_mask != 0 && l.b_mask != 0
}

/// A colour channel: the masked bits shifted down to bit 0, kept to 8 bits.
pub open spec fn channel(v: u32, mask: u32) -> u8 {
    ((v & mask) >> u32_trailing_zeros(mask)) as u8
}

/// The stored row that holds image row `y` (rows counted from the top).
pub open spec fn source_row(l: DibLayout, y: int) -> int {
    if l.bottom_up { l.height - 1 - y } else { y }
}

/// The pixel at image row `y`, column `x`, as stored: red, green, blue, alpha.
pub open spec fn stored_pixel(d: Seq<u8>, l: DibLayout, y: int, x: int) -> (u8, u8, u8, u8) {
    let base = l.offset + source_row(l, y) * l.stride;
    if l.bit_count == 32 {
        let v = le32(d, base + 4 * x);
        (
            channel(v, l.r_mask),
            channel(v, l.g_mask),
            channel(v, l.b_mask),
            if l.a_mask != 0 { channel(v, l.a_mask) } else { 255u8 },
        )
    } else {
        (d[base + 3 * x + 2], d[base + 3 * x + 1], d[base + 3 * x], 255u8)
    }
}

/// The stored pixel with index `p` in row-major order.
pub open spec fn stored_at(d: Seq<u8>, l: DibLayout, p: int) -> (u8, u8, u8, u8) {
    stored_pixel(d, l, p / (l.width as int), p % (l.width as int))
}

/// Some pixel of a 32-bit bitmap carries a nonzero alpha.
pub open spec fn has_visible_alpha(d: Seq<u8>, l: DibLayout) -> bool {
    exists|p: int| 0 <= p < l.width * l.height && (#[trigger] stored_at(d, l, p)).3 > 0
}

/// A 32-bit bitmap whose alpha is zero everywhere is taken as opaque.
pub open spec fn decoded_at(d: Seq<u8>, l: DibLayout, p: int) -> (u8, u8, u8, u8) {
    let px = stored_at(d, l, p);
    if l.bit_count == 32 && !has_visible_alpha(d, l) { (px.0, px.1, px.2, 255u8) } else { px }
}

/// Byte `c` (0 red, 1 green, 2 blue, 3 alpha) of a pixel.
pub open spec fn component(px: (u8, u8, u8, u8), c: int) -> u8 {
    if c == 0 { px.0 } else if c == 1 { px.1 } else if c == 2 { px.2 } else { px.3 }
}

/// Byte `k` of the row-major RGBA buffer, before the opacity rule.
pub open spec fn stored_byte(d: Seq<u8>, l: DibLayout, k: int) -> u8 {
    component(stored_at(d, l, k / 4), k % 4)
}

/// The decoded image: row-major, top row first, four bytes per pixel.
pub open spec fn decoded_rgba(d: Seq<u8>, l: DibLayout) -> Seq<u8> {
    Seq::new((4 * l.width * l.height) as nat, |k: int| component(decoded_at(d, l, k / 4), k % 4))
}

/// Byte `j` of the buffer once the alpha bytes of the first `p` pixels are set opaque.
pub open spec fn opaque_fill(v: u8, j: int, p: int) -> u8 {
    if j % 4 == 3 && j / 4 < p { 255u8 } else { v }
}

/// A decoded bitmap: width, height and its RGBA bytes.
#[derive(Debug, Clone)]
pub struct DibImage {
    pub width: u32,
    pub height: u32,
    pub rgba: Vec<u8>,
}

fn le16_at(data: &[u8], at: usize) -> (r: u16)
    requires
        at + 2 <= data@.len(),
    ensures
        r == le16(data@, at as int),
{
    (data[at] as u16) + (data[at + 1] as u16) * 256
}

fn le32_at(data: &[u8], at: usize) -> (r: u32)
    requires
        at + 4 <= data@.len(),
    ensures
        r == le32(data@, at as int),
{
    (data[at] as u32) + (data[at + 1] as u32) * 256 + (data[at + 2] as u32) * 65536 + (data[at + 3] as u32) * 16777216
}

proof fn lemma_layout_fits(d: Seq<u8>)
    requires
        dib_layout(d) is Some,
    ensures
        layout_fits(d, dib_layout(d)->0),
{
    let l = dib_layout(d)->0;
    let w = l.width as int;
    let bc = l.bit_count as int;
    assert(w * bc <= 32768 * 32) by (nonlinear_arith)
        requires 1 <= w <= 32768, bc <= 32;
}

/// An accepted bitmap has at least one pixel, and its decoded buffer holds
/// four bytes for each.
pub proof fn lemma_decoded_len(d: Seq<u8>)
    requires
        dib_layout(d) is Some,
    ensures
        ({
            let l = dib_layout(d)->0;
            &&& l.width >= 1 && l.height >= 1
            &&& decoded_rgba(d, l).len() == 4 * l.width * l.height
        }),
{
    lemma_layout_fits(d);
    let l = dib_layout(d)->0;
    assert(4 * l.width * l.height >= 0) by (nonlinear_arith)
        requires l.width >= 1, l.height >= 1;
}

/// Reads the header of the bitmap in `data`.
pub fn parse_dib_layout(data: &[u8]) -> (r: Option<DibLayout>)
    ensures
        r == dib_layout(data@),
{
    let len = data.len();
    if len < 40 {
        return None;
    }
    let bi_size = le32_at(data, 0);
    let wv = le32_at(data, 4);
    let hv = le32_at(data, 8);
    let planes = le16_at(data, 12);
    let bits = le16_at(data, 14);
    let comp = le32_at(data, 16);
    if bi_size < 40 || (len as u64) < (bi_size as u64) {
        return None;
    }
    let h: u32 = if hv < 0x8000_0000 { hv } else { (0xFFFF_FFFFu32 - hv) + 1 };
    if planes != 1 || wv == 0 || wv > MAX_DIB_SIDE || hv == 0 || h > MAX_DIB_SIDE {
        return None;
    }
    if bits != 24 && bits != 32 {
        return None;
    }
    if comp != BI_RGB && comp != BI_BITFIELDS {
        return None;
    }
    assert((wv as int) * (h as int) <= 32768 * 32768) by (nonlinear_arith)
        requires wv <= 32768, h <= 32768;
    if (wv as u64) * (h as u64) > MAX_DIB_PIXELS {
        return None;
    }
    let fields = comp == BI_BITFIELDS;
    let trailing = fields && bi_size == 40;
    let listed = fields && (bi_size == 40 || bi_size >= 108);
    if trailing && len < 52 {
        return None;
    }
    let r: u32 = if listed { le32_at(data, 40) } else { 0x00FF_0000 };
    let g: u32 = if listed { le32_at(data, 44) } else { 0x0000_FF00 };
    let b: u32 = if listed { le32_at(data, 48) } else { 0x0000_00FF };
    let a: u32 = if fields && bi_size >= 120 { le32_at(data, 52) } else { 0xFF00_0000 };
    if fields && (r == 0 || g == 0 || b == 0) {
        return None;
    }
    if fields && ((r & g) != 0 || (r & b) != 0 || (g & b) != 0) {
        return None;
    }
    let offset: usize = if trailing { bi_size as usize + 12 } else { bi_size as usize };
    if offset > len {
        return None;
    }
    assert((wv as int) * (bits as int) <= 32768 * 32) by (nonlinear_arith)
        requires wv <= 32768, bits <= 32;
    let row_bits: usize = (wv as usize) * (bits as usize);
    let stride: usize = (row_bits + 31) / 32 * 4;
    assert(stride <= 4 * (wv as int));
    assert((stride as int) * (h as int) <= 4 * ((wv as int) * (h as int))) by (nonlinear_arith)
        requires stride <= 4 * (wv as int), 0 <= h;
    let needed: usize = stride * (h as usize);
    if len - offset < needed {
        return None;
    }
    Some(DibLayout {
        width: wv,
        height: h,
        bottom_up: hv < 0x8000_0000,
        bit_count: bits,
        offset,
        stride,
        r_mask: r,
        g_mask: g,
        b_mask: b,
        a_mask: a,
    })
}


proof fn lemma_pixel_index(w: int, y: int, x: int)
    requires
        w > 0,
        0 <= x < w,
        0 <= y,
    ensures
        (y * w + x) / w == y,
        (y * w + x) % w == x,
        forall|c: int| 0 <= c < 4 ==> #[trigger] ((4 * (y * w + x) + c) / 4) == y * w + x && (4 * (y * w + x) + c) % 4 == c,
{
    lemma_fundamental_div_mod_converse(y * w + x, w, y, x);
    assert forall|c: int| 0 <= c < 4 implies #[trigger] ((4 * (y * w + x) + c) / 4) == y * w + x && (4 * (y * w + x) + c) % 4 == c by {
        lemma_fundamental_div_mod_converse(4 * (y * w + x) + c, 4, y * w + x, c);
    }
}

proof fn lemma_index_bound(w: int, h: int, y: int, x: int)
    requires
        0 <= y < h,
        0 <= x < w,
    ensures
        y * w + x < h * w,
        y * w + x + 1 <= h * w,
        (y + 1) * w == y * w + w,
{
    assert(y * w + x < h * w) by (nonlinear_arith)
        requires 0 <= y < h, 0 <= x < w;
    assert((y + 1) * w == y * w + w) by (nonlinear_arith);
}

/// Reads the stored pixel at image row `y`, column `x`.
fn read_pixel(data: &[u8], l: &DibLayout, y: u32, x: u32) -> (px: (u8, u8, u8, u8))
    requires
        layout_fits(data@, *l),
        y < l.height,
        x < l.width,
    ensures
        px == stored_pixel(data@, *l, y as int, x as int),
{
    let len = data.len();
    let sr: u32 = if l.bottom_up { l.height - 1 - y } else { y };
    assert(sr as int == source_row(*l, y as int));
    let ghost w = l.width as int;
    let ghost stride = l.stride as int;
    assert((sr as int) * stride + stride <= (l.height as int) * stride) by (nonlinear_arith)
        requires sr < l.height, stride >= 0;
    assert(stride * (l.height as int) == (l.height as int) * stride) by (nonlinear_arith);
    assert(l.offset + (sr as int) * stride + stride <= len);
    let base: usize = l.offset + (sr as usize) * l.stride;
    if l.bit_count == 32 {
        assert(stride == 4 * w);
        let v = le32_at(data, base + 4 * (x as usize));
        proof {
            axiom_u32_trailing_zeros(l.r_mask);
            axiom_u32_trailing_zeros(l.g_mask);
            axiom_u32_trailing_zeros(l.b_mask);
            axiom_u32_trailing_zeros(l.a_mask);
        }
        let r = ((v & l.r_mask) >> l.r_mask.trailing_zeros()) as u8;
        let g = ((v & l.g_mask) >> l.g_mask.trailing_zeros()) as u8;
        let b = ((v & l.b_mask) >> l.b_mask.trailing_zeros()) as u8;
        let a: u8 = if l.a_mask != 0 { ((v & l.a_mask) >> l.a_mask.trailing_zeros()) as u8 } else { 255 };
        (r, g, b, a)
    } else {
        assert(3 * w <= stride);
        let i: usize = base + 3 * (x as usize);
        (data[i + 2], data[i + 1], data[i], 255)
    }
}

/// Decodes a device-independent bitmap into top-down RGBA bytes. The header
/// decides acceptance (`dib_layout`); a 32-bit bitmap whose alpha channel is
/// zero everywhere is decoded as opaque.
pub fn parse_dib_to_rgba(data: &[u8]) -> (r: Option<DibImage>)
    ensures
        r is Some <==> dib_layout(data@) is Some,
        r matches Some(img) ==> {
            let l = dib_layout(data@)->0;
            &&& img.width == l.width
            &&& img.height == l.height
            &&& img.rgba@ == decoded_rgba(data@, l)
        },
{
    let l = match parse_dib_layout(data) {
        Some(l) => l,
        None => return None,
    };
    proof {
        lemma_layout_fits(data@);
    }
    let w = l.width;
    let h = l.height;
    let ghost d = data@;
    let mut out: Vec<u8> = Vec::new();
    let mut visible = false;
    let mut y: u32 = 0;
    while y < h
        invariant
            layout_fits(d, l),
            d == data@,
            w == l.width,
            h == l.height,
            y <= h,
            out@.len() == 4 * (y * w),
            forall|k: int| 0 <= k < out@.len() ==> out@[k] == #[trigger] stored_byte(d, l, k),
            visible <==> exists|p: int| 0 <= p < y * w && (#[trigger] stored_at(d, l, p)).3 > 0,
        decreases h - y,
    {
        let mut x: u32 = 0;
        while x < w
            invariant
                layout_fits(d, l),
                d == data@,
                w == l.width,
                h == l.height,
                y < h,
                x <= w,
                out@.len() == 4 * (y * w + x),
                forall|k: int| 0 <= k < out@.len() ==> out@[k] == #[trigger] stored_byte(d, l, k),
                visible <==> exists|p: int| 0 <= p < y * w + x && (#[trigger] stored_at(d, l, p)).3 > 0,
            decreases w - x,
        {
            let px = read_pixel(data, &l, y, x);
            let ghost p: int = y * w + x;
            proof {
                lemma_pixel_index(w as int, y as int, x as int);
                lemma_index_bound(w as int, h as int, y as int, x as int);
                assert(p * 4 + 4 <= 4 * (w * h)) by (nonlinear_arith)
                    requires p + 1 <= h * w;
                assert(stored_at(d, l, p) == px);
            }
            let ghost before = out@;
            out.push(px.0);
            out.push(px.1);
            out.push(px.2);
            out.push(px.3);
            proof {
                assert forall|k: int| 0 <= k < out@.len() implies out@[k] == #[trigger] stored_byte(d, l, k) by {
                    if k < before.len() {
                        assert(out@[k] == before[k]);
                    } else {
                        let c = k - 4 * p;
                        assert(k == 4 * p + c);
                        assert((4 * p + c) / 4 == p && (4 * p + c) % 4 == c);
                    }
                }
                if px.3 > 0 {
                    assert(stored_at(d, l, p).3 > 0);
                }
            }
            if px.3 > 0 {
                visible = true;
            }
            x = x + 1;
        }
        proof {
            lemma_index_bound(w as int, h as int, y as int, 0);
        }
        y = y + 1;
    }
    assert(h * w == w * h) by (nonlinear_arith);
    let n = out.len();
    if l.bit_count == 32 && !visible {
        let total: usize = n / 4;
        let mut p: usize = 0;
        while p < total
            invariant
                n == out@.len(),
                n == 4 * (w * h),
                total == w * h,
                p <= total,
                forall|j: int| 0 <= j < n ==> #[trigger] out@[j] == opaque_fill(stored_byte(d, l, j), j, p as int),
            decreases total - p,
        {
            let ghost before = out@;
            out.set(4 * p + 3, 255);
            proof {
                assert forall|j: int| 0 <= j < n implies #[trigger] out@[j] == opaque_fill(stored_byte(d, l, j), j, p + 1) by {
                    lemma_fundamental_div_mod(j, 4);
                    assert(before[j] == opaque_fill(stored_byte(d, l, j), j, p as int));
                    if j == 4 * p + 3 {
                        lemma_fundamental_div_mod_converse(j, 4, p as int, 3);
                    } else {
                        assert(out@[j] == before[j]);
                    }
                }
            }
            p = p + 1;
        }
    }
    proof {
        let full = decoded_rgba(d, l);
        assert(4 * l.width * l.height == 4 * (w * h)) by (nonlinear_arith)
            requires w == l.width, h == l.height;
        assert(!visible <==> !has_visible_alpha(d, l));
        assert forall|j: int| 0 <= j < n implies out@[j] == #[trigger] full[j] by {
            assert(stored_byte(d, l, j) == component(stored_at(d, l, j / 4), j % 4));
        }
        assert(out@ =~= full);
    }
    Some(DibImage { width: w, height: h, rgba: out })
}


/// Where each decoded pixel comes from. Image rows are counted from the top;
/// a positive height in the header means the rows are stored bottom row
/// first, so image row `y` is stored row `height - 1 - y`, and a negative
/// height means they are stored top row first. This holds at both depths:
/// a 24-bit pixel is its blue, green and red bytes, made opaque; a 32-bit
/// pixel is the little-endian word at its place, split by the colour masks.
pub proof fn lemma_decoded_pixel_source(d: Seq<u8>, y: int, x: int)
    requires
        dib_layout(d) is Some,
        0 <= y < dib_layout(d)->0.height,
        0 <= x < dib_layout(d)->0.width,
    ensures
        ({
            let l = dib_layout(d)->0;
            let row = if signed32(le32(d, 8)) > 0 { l.height - 1 - y } else { y };
            let at = l.offset + row * l.stride;
            let out = decoded_rgba(d, l);
            let k = 4 * (y * l.width + x);
            &&& k + 4 <= out.len()
            &&& l.bit_count == 24 ==> {
                &&& out[k] == d[at + 3 * x + 2]
                &&& out[k + 1] == d[at + 3 * x + 1]
                &&& out[k + 2] == d[at + 3 * x]
                &&& out[k + 3] == 255
            }
            &&& l.bit_count == 32 ==> {
                &&& out[k] == channel(le32(d, at + 4 * x), l.r_mask)
                &&& out[k + 1] == channel(le32(d, at + 4 * x), l.g_mask)
                &&& out[k + 2] == channel(le32(d, at + 4 * x), l.b_mask)
            }
        }),
{
    let l = dib_layout(d)->0;
    lemma_layout_fits(d);
    let w = l.width as int;
    let h = l.height as int;
    lemma_pixel_index(w, y, x);
    lemma_index_bound(w, h, y, x);
    assert(4 * (y * w + x) + 4 <= 4 * (w * h)) by (nonlinear_arith)
        requires y * w + x + 1 <= h * w;
    assert(4 * l.width * l.height == 4 * (w * h)) by (nonlinear_arith)
        requires w == l.width, h == l.height;
    let p = y * w + x;
    let k = 4 * p;
    assert(k / 4 == p && k % 4 == 0);
    assert((k + 1) / 4 == p && (k + 1) % 4 == 1);
    assert((k + 2) / 4 == p && (k + 2) % 4 == 2);
    assert((k + 3) / 4 == p && (k + 3) % 4 == 3);
    assert(stored_at(d, l, p) == stored_pixel(d, l, y, x));
}


/// The alpha of a decoded 32-bit pixel: the alpha bits of its stored word
/// where the header gives an alpha mask and some stored pixel has nonzero
/// alpha; fully opaque where there is no alpha mask, or where every stored
/// pixel's alpha is zero (such a bitmap is taken as having no alpha).
pub proof fn lemma_decoded_alpha(d: Seq<u8>, y: int, x: int)
    requires
        dib_layout(d) is Some,
        dib_layout(d)->0.bit_count == 32,
        0 <= y < dib_layout(d)->0.height,
        0 <= x < dib_layout(d)->0.width,
    ensures
        ({
            let l = dib_layout(d)->0;
            let row = if signed32(le32(d, 8)) > 0 { l.height - 1 - y } else { y };
            let v = le32(d, l.offset + row * l.stride + 4 * x);
            let out = decoded_rgba(d, l);
            let k = 4 * (y * l.width + x) + 3;
            let all_clear = forall|sy: int, sx: int|
                0 <= sy < l.height && 0 <= sx < l.width
                    ==> #[trigger] channel(le32(d, l.offset + sy * l.stride + 4 * sx), l.a_mask) == 0;
            &&& l.a_mask == 0 ==> out[k] == 255
            &&& all_clear ==> out[k] == 255
            &&& l.a_mask != 0 && !all_clear ==> out[k] == channel(v, l.a_mask)
        }),
{
    let l = dib_layout(d)->0;
    lemma_decoded_pixel_source(d, y, x);
    lemma_layout_fits(d);
    let w = l.width as int;
    let h = l.height as int;
    lemma_pixel_index(w, y, x);
    let p = y * w + x;
    assert((4 * p + 3) / 4 == p && (4 * p + 3) % 4 == 3);
    assert(stored_at(d, l, p) == stored_pixel(d, l, y, x));
    let all_clear = forall|sy: int, sx: int|
        0 <= sy < l.height && 0 <= sx < l.width
            ==> #[trigger] channel(le32(d, l.offset + sy * l.stride + 4 * sx), l.a_mask) == 0;
    if all_clear && l.a_mask != 0 {
        assert(!has_visible_alpha(d, l)) by {
            assert forall|q: int| 0 <= q < l.width * l.height implies (#[trigger] stored_at(d, l, q)).3 == 0 by {
                let qy = q / w;
                let qx = q % w;
                vstd::arithmetic::div_mod::lemma_fundamental_div_mod(q, w);
                assert(0 <= qy < h) by (nonlinear_arith)
                    requires q == w * qy + qx, 0 <= qx < w, 0 <= q < w * h, w > 0;
                let sr = source_row(l, qy);
                assert(channel(le32(d, l.offset + sr * l.stride + 4 * qx), l.a_mask) == 0);
            }
        }
    }
    if l.a_mask != 0 && !all_clear {
        let (sy, sx) = choose|sy: int, sx: int|
            0 <= sy < l.height && 0 <= sx < l.width
                && #[trigger] channel(le32(d, l.offset + sy * l.stride + 4 * sx), l.a_mask) != 0;
        let iy = if l.bottom_up { h - 1 - sy } else { sy };
        let q = iy * w + sx;
        lemma_pixel_index(w, iy, sx);
        lemma_index_bound(w, h, iy, sx);
        assert(q < l.width * l.height) by (nonlinear_arith)
            requires q < h * w, w == l.width, h == l.height;
        assert(source_row(l, iy) == sy);
        assert(stored_at(d, l, q).3 > 0);
        assert(has_visible_alpha(d, l));
    }
}

} // verus!
