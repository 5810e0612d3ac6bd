//! The bitmap the application writes to the clipboard reads back as the
//! image it was made from.
use vstd::prelude::*;

use vstd::arithmetic::div_mod::lemma_fundamental_div_mod;
use vstd::std_specs::bits::{axiom_u32_trailing_zeros, u32_trailing_zeros};

use crate::clipboard::dib::{
    channel, decoded_at, decoded_rgba, dib_layout, has_visible_alpha, le16, le32, stored_at, stored_pixel,
    DibLayout,
};
use crate::clipboard::payloads::{dib_encoding, dib_header_bytes, dib_pixel_byte, le16_bytes, le32_bytes};

verus! {

proof fn lemma_trailing_zeros_at(m: u32, t: u32)
    requires
        t < 32,
        (m >> t) & 1u32 == 1u32,
        forall|j: u32| j < t ==> #[trigger] ((m >> j) & 1u32) == 0u32,
    ensures
        u32_trailing_zeros(m) == t,
{
    axiom_u32_trailing_zeros(m);
    let z = u32_trailing_zeros(m);
    if z < t {
        assert(((m >> z) & 1u32) == 0u32);
    } else if z > t {
        assert(((m >> t) & 1u32) == 0u32);
    }
}

proof fn lemma_default_masks()
    ensures
        u32_trailing_zeros(0x00FF_0000u32) == 16,
        u32_trailing_zeros(0x0000_FF00u32) == 8,
        u32_trailing_zeros(0x0000_00FFu32) == 0,
        u32_trailing_zeros(0xFF00_0000u32) == 24,
{
    assert forall|j: u32| j < 16 implies #[trigger] ((0x00FF_0000u32 >> j) & 1u32) == 0u32 by {
        assert(((0x00FF_0000u32 >> j) & 1u32) == 0u32) by (bit_vector)
            requires
                j < 16,
        ;
    }
    assert(((0x00FF_0000u32 >> 16u32) & 1u32) == 1u32) by (bit_vector);
    lemma_trailing_zeros_at(0x00FF_0000u32, 16);
    assert forall|j: u32| j < 8 implies #[trigger] ((0x0000_FF00u32 >> j) & 1u32) == 0u32 by {
        assert(((0x0000_FF00u32 >> j) & 1u32) == 0u32) by (bit_vector)
            requires
                j < 8,
        ;
    }
    assert(((0x0000_FF00u32 >> 8u32) & 1u32) == 1u32) by (bit_vector);
    lemma_trailing_zeros_at(0x0000_FF00u32, 8);
    assert(((0x0000_00FFu32 >> 0u32) & 1u32) == 1u32) by (bit_vector);
    lemma_trailing_zeros_at(0x0000_00FFu32, 0);
    assert forall|j: u32| j < 24 implies #[trigger] ((0xFF00_0000u32 >> j) & 1u32) == 0u32 by {
        assert(((0xFF00_0000u32 >> j) & 1u32) == 0u32) by (bit_vector)
            requires
                j < 24,
        ;
    }
    assert(((0xFF00_0000u32 >> 24u32) & 1u32) == 1u32) by (bit_vector);
    lemma_trailing_zeros_at(0xFF00_0000u32, 24);
}

/// The channels of a 32-bit pixel under the default masks are its bytes.
proof fn lemma_default_channels(b0: u8, b1: u8, b2: u8, b3: u8)
    ensures
        ({
            let v = ((b0 as int) + 256 * (b1 as int) + 65536 * (b2 as int) + 16777216 * (b3 as int)) as u32;
            &&& channel(v, 0x00FF_0000u32) == b2
            &&& channel(v, 0x0000_FF00u32) == b1
            &&& channel(v, 0x0000_00FFu32) == b0
            &&& channel(v, 0xFF00_0000u32) == b3
        }),
{
    lemma_default_masks();
    let v = ((b0 as int) + 256 * (b1 as int) + 65536 * (b2 as int) + 16777216 * (b3 as int)) as u32;
    let x0 = b0 as u32;
    let x1 = b1 as u32;
    let x2 = b2 as u32;
    let x3 = b3 as u32;
    assert(v == x0 + x1 * 256 + x2 * 65536 + x3 * 16777216);
    assert((((v & 0x00FF_0000u32) >> 16u32) as u8) == b2 && (((v & 0x0000_FF00u32) >> 8u32) as u8) == b1
        && (((v & 0x0000_00FFu32) >> 0u32) as u8) == b0 && (((v & 0xFF00_0000u32) >> 24u32) as u8) == b3) by (bit_vector)
        requires
            v == x0 + x1 * 256 + x2 * 65536 + x3 * 16777216,
            x0 == b0 as u32,
            x1 == b1 as u32,
            x2 == b2 as u32,
            x3 == b3 as u32,
    ;
}

proof fn lemma_le_bytes(v: u32, s: u16)
    ensures
        le32(le32_bytes(v), 0) == v,
        le16(le16_bytes(s), 0) == s,
{
    assert((v % 256) + 256 * ((v / 256) % 256) + 65536 * ((v / 65536) % 256) + 16777216 * (v / 16777216) == v) by (bit_vector);
    assert((s % 256) + 256 * (s / 256) == s) by (bit_vector);
}

/// The layout of the bitmap the application writes for a `w` x `h` image.
pub open spec fn written_layout(w: u32, h: u32) -> DibLayout {
    DibLayout {
        width: w,
        height: h,
        bottom_up: true,
        bit_count: 32,
        offset: 40,
        stride: (4 * w) as usize,
        r_mask: 0x00FF_0000,
        g_mask: 0x0000_FF00,
        b_mask: 0x0000_00FF,
        a_mask: 0xFF00_0000,
    }
}

proof fn lemma_header_fields(w: u32, h: u32, rgba: Seq<u8>)
    requires
        1 <= w <= 32768,
        1 <= h <= 32768,
    ensures
        ({
            let d = dib_encoding(w, h, rgba);
            &&& le32(d, 0) == 40
            &&& le32(d, 4) == w
            &&& le32(d, 8) == h
            &&& le16(d, 12) == 1
            &&& le16(d, 14) == 32
            &&& le32(d, 16) == 0
        }),
{
    let d = dib_encoding(w, h, rgba);
    let hd = dib_header_bytes(w, h);
    assert(hd.len() == 40);
    lemma_le_bytes(40, 1);
    lemma_le_bytes(w, 32);
    lemma_le_bytes(h, 32);
    lemma_le_bytes(0, 32);
    let a = le32_bytes(40);
    let b = le32_bytes(w);
    let c = le32_bytes(h);
    let e = le16_bytes(1);
    let f = le16_bytes(32);
    let g = le32_bytes(0);
    assert(forall|i: int| 0 <= i < 4 ==> d[i] == #[trigger] a[i]);
    assert(forall|i: int| 0 <= i < 4 ==> d[4 + i] == #[trigger] b[i]);
    assert(forall|i: int| 0 <= i < 4 ==> d[8 + i] == #[trigger] c[i]);
    assert(forall|i: int| 0 <= i < 2 ==> d[12 + i] == #[trigger] e[i]);
    assert(forall|i: int| 0 <= i < 2 ==> d[14 + i] == #[trigger] f[i]);
    assert(forall|i: int| 0 <= i < 4 ==> d[16 + i] == #[trigger] g[i]);
    assert(le32(d, 0) == le32(a, 0));
    assert(le32(d, 4) == le32(b, 0));
    assert(le32(d, 8) == le32(c, 0));
    assert(le16(d, 12) == le16(e, 0));
    assert(le16(d, 14) == le16(f, 0));
    assert(le32(d, 16) == le32(g, 0));
}

proof fn lemma_written_layout(w: u32, h: u32, rgba: Seq<u8>)
    requires
        1 <= w <= 32768,
        1 <= h <= 32768,
        w * h <= 67108864,
    ensures
        dib_layout(dib_encoding(w, h, rgba)) == Some(written_layout(w, h)),
{
    let d = dib_encoding(w, h, rgba);
    lemma_header_fields(w, h, rgba);
    assert(d.len() == 40 + 4 * w * h);
    assert((w * 32 + 31) / 32 * 4 == 4 * w);
    assert((4 * w) * h == 4 * w * h) by (nonlinear_arith);
}

/// The bytes of the stored pixel at image row `y`, column `x`.
proof fn lemma_written_pixel(w: u32, h: u32, rgba: Seq<u8>, y: int, x: int)
    requires
        1 <= w <= 32768,
        1 <= h <= 32768,
        w * h <= 67108864,
        rgba.len() == 4 * w * h,
        0 <= y < h,
        0 <= x < w,
    ensures
        ({
            let q = 4 * (y * w + x);
            stored_pixel(dib_encoding(w, h, rgba), written_layout(w, h), y, x) == (rgba[q], rgba[q + 1], rgba[q + 2], rgba[q + 3])
        }),
{
    let d = dib_encoding(w, h, rgba);
    let l = written_layout(w, h);
    let wi = w as int;
    let hi = h as int;
    let sr = hi - 1 - y;
    let base = 40 + sr * (4 * wi);
    let q = 4 * (y * wi + x);
    assert(0 <= y * wi + x < hi * wi) by (nonlinear_arith)
        requires 0 <= y < hi, 0 <= x < wi;
    assert(hi * wi == w * h) by (nonlinear_arith)
        requires hi == h, wi == w;
    assert(4 * w * h == 4 * (w * h)) by (nonlinear_arith);
    assert(0 <= sr * wi + x < hi * wi) by (nonlinear_arith)
        requires 0 <= sr < hi, 0 <= x < wi;
    assert forall|c: int| 0 <= c < 4 implies #[trigger] d[base + 4 * x + c] == dib_pixel_byte(w, h, rgba, 4 * (sr * wi + x) + c) by {
        assert(base + 4 * x + c == 40 + (4 * (sr * wi + x) + c)) by (nonlinear_arith)
            requires base == 40 + sr * (4 * wi);
        assert(4 * (sr * wi + x) + c < 4 * w * h);
    }
    crate::clipboard::payloads::lemma_pixel_position(wi, sr, x, 0);
    crate::clipboard::payloads::lemma_pixel_position(wi, sr, x, 1);
    crate::clipboard::payloads::lemma_pixel_position(wi, sr, x, 2);
    crate::clipboard::payloads::lemma_pixel_position(wi, sr, x, 3);
    assert(((hi - 1 - sr) * wi + x) * 4 == q);
    let b0 = d[base + 4 * x];
    let b1 = d[base + 4 * x + 1];
    let b2 = d[base + 4 * x + 2];
    let b3 = d[base + 4 * x + 3];
    assert(b0 == rgba[q + 2] && b1 == rgba[q + 1] && b2 == rgba[q] && b3 == rgba[q + 3]) by {
        assert(d[base + 4 * x + 0] == dib_pixel_byte(w, h, rgba, 4 * (sr * wi + x) + 0));
        assert(d[base + 4 * x + 1] == dib_pixel_byte(w, h, rgba, 4 * (sr * wi + x) + 1));
        assert(d[base + 4 * x + 2] == dib_pixel_byte(w, h, rgba, 4 * (sr * wi + x) + 2));
        assert(d[base + 4 * x + 3] == dib_pixel_byte(w, h, rgba, 4 * (sr * wi + x) + 3));
    }
    assert(l.offset + (if l.bottom_up { l.height - 1 - y } else { y }) * l.stride == base);
    lemma_default_channels(b0, b1, b2, b3);
}

/// What the application writes to the clipboard for an RGBA image reads
/// back as that image: same size, same bytes. This holds for every image
/// the reader accepts (at most 64 megapixels) in which some pixel is not
/// fully transparent; an image transparent everywhere reads back opaque.
pub proof fn lemma_clipboard_bitmap_round_trip(w: u32, h: u32, rgba: Seq<u8>)
    requires
        1 <= w <= 32768,
        1 <= h <= 32768,
        w * h <= 67108864,
        rgba.len() == 4 * w * h,
        exists|k: int| 0 <= k < rgba.len() && k % 4 == 3 && rgba[k] > 0,
    ensures
        dib_layout(dib_encoding(w, h, rgba)) matches Some(l) && l.width == w && l.height == h
            && decoded_rgba(dib_encoding(w, h, rgba), l) == rgba,
{
    let d = dib_encoding(w, h, rgba);
    lemma_written_layout(w, h, rgba);
    let l = written_layout(w, h);
    let wi = w as int;
    assert(4 * w * h == 4 * (w * h)) by (nonlinear_arith);
    assert(wi * h == w * h) by (nonlinear_arith)
        requires wi == w;
    assert forall|p: int| 0 <= p < w * h implies #[trigger] stored_at(d, l, p) == (rgba[4 * p], rgba[4 * p + 1], rgba[4 * p + 2], rgba[4 * p + 3]) by {
        lemma_fundamental_div_mod(p, wi);
        let y = p / wi;
        let x = p % wi;
        assert(0 <= y < h) by (nonlinear_arith)
            requires 0 <= p < wi * h, y == p / wi, wi > 0, p == wi * (p / wi) + p % wi, 0 <= p % wi < wi;
        assert(y * wi + x == p) by (nonlinear_arith)
            requires p == wi * y + x;
        lemma_written_pixel(w, h, rgba, y, x);
    }
    let k = choose|k: int| 0 <= k < rgba.len() && k % 4 == 3 && rgba[k] > 0;
    lemma_fundamental_div_mod(k, 4);
    assert(4 * (k / 4) + 3 == k);
    assert(0 <= k / 4 < w * h);
    assert(stored_at(d, l, k / 4).3 == rgba[k]);
    assert(has_visible_alpha(d, l));
    let full = decoded_rgba(d, l);
    assert(full.len() == rgba.len());
    assert forall|j: int| 0 <= j < rgba.len() implies #[trigger] full[j] == rgba[j] by {
        lemma_fundamental_div_mod(j, 4);
        assert(decoded_at(d, l, j / 4) == stored_at(d, l, j / 4));
    }
    assert(full =~= rgba);
}

} // verus!
