//! Image encodings the library hands out: PNG through the `image` crate,
//! base64 text through the `base64` crate, and `data:` URLs built from them.
use image::error::ImageFormatHint;
use image::ImageError;
use vstd::prelude::*;

use base64::Engine;

use crate::text::push_str;

verus! {

/// What encoding an RGBA8 image of `width` x `height` as PNG yields: whether
/// the encoder reported success, and the bytes it wrote either way.
pub uninterp spec fn png_encoding(width: u32, height: u32, rgba: Seq<u8>) -> (bool, Seq<u8>);

/// `DynamicImage::write_to` with `ImageFormat::Png` into an in-memory
/// buffer, on the image that `RgbaImage::from_raw` builds from `rgba`. The
/// contract names the outcome and does not describe the PNG encoder.
#[verifier::external_body]
pub(crate) fn encode_png(width: u32, height: u32, rgba: &Vec<u8>) -> (r: (bool, Vec<u8>))
    requires
        rgba@.len() == 4 * width * height,
    ensures
        (r.0, r.1@) == png_encoding(width, height, rgba@),
{
    let mut out = Vec::new();
    let ok = match image::RgbaImage::from_raw(width, height, rgba.clone()) {
        Some(img) => image::DynamicImage::ImageRgba8(img)
            .write_to(&mut std::io::Cursor::new(&mut out), image::ImageFormat::Png)
            .is_ok(),
        None => false,
    };
    (ok, out)
}

/// What `DynamicImage::resize` with the Lanczos3 filter makes of an RGBA8
/// image: the new width, height and RGBA bytes.
pub uninterp spec fn lanczos_resize(width: u32, height: u32, rgba: Seq<u8>, max_w: u32, max_h: u32) -> (u32, u32, Seq<u8>);

/// `DynamicImage::resize(max_w, max_h, FilterType::Lanczos3)`: the image
/// scaled to fit within `max_w` x `max_h`, aspect ratio kept. The contract
/// names the result and states only that the buffer holds four bytes per
/// pixel, as an `RgbaImage` does.
#[verifier::external_body]
pub(crate) fn resize_within(width: u32, height: u32, rgba: &Vec<u8>, max_w: u32, max_h: u32) -> (r: (u32, u32, Vec<u8>))
    requires
        rgba@.len() == 4 * width * height,
        width >= 1,
        height >= 1,
        max_w >= 1,
        max_h >= 1,
    ensures
        (r.0, r.1, r.2@) == lanczos_resize(width, height, rgba@, max_w, max_h),
        r.2@.len() == 4 * r.0 * r.1,
{
    match image::RgbaImage::from_raw(width, height, rgba.clone()) {
        Some(img) => {
            let out = image::DynamicImage::ImageRgba8(img)
                .resize(max_w, max_h, image::imageops::FilterType::Lanczos3)
                .into_rgba8();
            (out.width(), out.height(), out.into_raw())
        },
        None => (0, 0, Vec::new()),
    }
}

/// What decoding `bytes` as an image file with extension `ext` gives: the
/// width, height and RGBA8 bytes, or the decoder's error text.
pub uninterp spec fn image_decoding(bytes: Seq<u8>, ext: Seq<char>) -> Result<(u32, u32, Seq<u8>), Seq<char>>;

/// Decodes an image file's bytes as `image::open` does with a path: an
/// `ImageReader` whose format is `ImageFormat::from_extension(ext)`, then
/// `decode` and `to_rgba8`. With an empty extension the reader has no format;
/// with one that names no format it fails with the same unsupported-extension
/// error that `image::open` gives. An error is rendered with `Display`. The
/// contract names the outcome; the buffer of an `RgbaImage` holds four bytes
/// per pixel.
#[verifier::external_body]
pub(crate) fn decode_image(bytes: &[u8], ext: &str) -> (r: Result<(u32, u32, Vec<u8>), String>)
    ensures
        match r {
            Ok(v) => image_decoding(bytes@, ext@) == Ok::<(u32, u32, Seq<u8>), Seq<char>>((v.0, v.1, v.2@))
                && v.2@.len() == 4 * v.0 * v.1,
            Err(e) => image_decoding(bytes@, ext@) == Err::<(u32, u32, Seq<u8>), Seq<char>>(e@),
        },
{
    let cursor = std::io::Cursor::new(bytes);
    let reader = match image::ImageFormat::from_extension(ext) {
        Some(format) => image::ImageReader::with_format(cursor, format),
        None if ext.is_empty() => image::ImageReader::new(cursor),
        None => return Err(ImageError::Unsupported(ImageFormatHint::PathExtension(ext.into()).into()).to_string()),
    };
    match reader.decode() {
        Ok(img) => { let rgba = img.to_rgba8(); Ok((rgba.width(), rgba.height(), rgba.into_raw())) },
        Err(e) => Err(e.to_string()),
    }
}

/// What reading the size from the header of an image file's bytes gives.
pub uninterp spec fn image_size_of(bytes: Seq<u8>, ext: Seq<char>) -> Option<(u32, u32)>;

/// `ImageReader::into_dimensions` over the bytes, with the format taken from
/// the extension as `decode_image` takes it. The contract names the result.
#[verifier::external_body]
pub(crate) fn read_image_size(bytes: &[u8], ext: &str) -> (r: Option<(u32, u32)>)
    ensures
        r == image_size_of(bytes@, ext@),
{
    let cursor = std::io::Cursor::new(bytes);
    let reader = match image::ImageFormat::from_extension(ext) {
        Some(format) => image::ImageReader::with_format(cursor, format),
        None => image::ImageReader::new(cursor),
    };
    reader.into_dimensions().ok()
}

/// What `DynamicImage::resize_to_fill` with the Lanczos3 filter makes of an
/// RGBA8 image: the new width, height and RGBA bytes.
pub uninterp spec fn lanczos_fill(width: u32, height: u32, rgba: Seq<u8>, fill_w: u32, fill_h: u32) -> (u32, u32, Seq<u8>);

/// `DynamicImage::resize_to_fill(fill_w, fill_h, FilterType::Lanczos3)`: the
/// image scaled to cover `fill_w` x `fill_h` and cropped to it around the
/// centre. The contract names the result and states only that the buffer
/// holds four bytes per pixel.
#[verifier::external_body]
pub(crate) fn resize_fill(width: u32, height: u32, rgba: &Vec<u8>, fill_w: u32, fill_h: u32) -> (r: (u32, u32, Vec<u8>))
    requires
        rgba@.len() == 4 * width * height,
        width >= 1,
        height >= 1,
    ensures
        (r.0, r.1, r.2@) == lanczos_fill(width, height, rgba@, fill_w, fill_h),
        r.2@.len() == 4 * r.0 * r.1,
{
    match image::RgbaImage::from_raw(width, height, rgba.clone()) {
        Some(img) => {
            let out = image::DynamicImage::ImageRgba8(img)
                .resize_to_fill(fill_w, fill_h, image::imageops::FilterType::Lanczos3)
                .into_rgba8();
            (out.width(), out.height(), out.into_raw())
        },
        None => (0, 0, Vec::new()),
    }
}

/// The base64 digit for a six-bit value.
pub open spec fn b64_digit(v: int) -> char {
    if v < 26 {
        (65 + v) as char
    } else if v < 52 {
        (97 + v - 26) as char
    } else if v < 62 {
        (48 + v - 52) as char
    } else if v == 62 {
        '+'
    } else {
        '/'
    }
}

/// Base64 with the standard alphabet and `=` padding (RFC 4648, section 4):
/// each group of three bytes becomes four digits.
pub open spec fn base64_standard(s: Seq<u8>) -> Seq<char>
    decreases s.len(),
{
    if s.len() == 0 {
        Seq::empty()
    } else if s.len() == 1 {
        seq![b64_digit(s[0] as int / 4), b64_digit((s[0] % 4) * 16), '=', '=']
    } else if s.len() == 2 {
        seq![b64_digit(s[0] as int / 4), b64_digit((s[0] % 4) * 16 + s[1] / 16), b64_digit((s[1] % 16) * 4), '=']
    } else {
        seq![
            b64_digit(s[0] as int / 4),
            b64_digit((s[0] % 4) * 16 + s[1] / 16),
            b64_digit((s[1] % 16) * 4 + s[2] / 64),
            b64_digit(s[2] as int % 64),
        ] + base64_standard(s.skip(3))
    }
}

/// `base64::engine::general_purpose::STANDARD.encode`: the standard alphabet
/// with padding, as `base64_standard` states it.
#[verifier::external_body]
pub(crate) fn encode_base64(bytes: &[u8]) -> (r: String)
    ensures
        r@ == base64_standard(bytes@),
{
    base64::engine::general_purpose::STANDARD.encode(bytes)
}

/// A `data:` URL for PNG bytes.
pub open spec fn png_data_url(png: Seq<u8>) -> Seq<char> {
    "data:image/png;base64,"@ + base64_standard(png)
}

/// Builds the `data:` URL of PNG bytes.
pub fn png_data_url_of(png: &[u8]) -> (r: String)
    ensures
        r@ == png_data_url(png@),
{
    let mut r = crate::text::owned("data:image/png;base64,");
    let b = encode_base64(png);
    push_str(&mut r, b.as_str());
    r
}


/// Some pixel of a 32-bit BGRA buffer has a nonzero alpha byte.
pub open spec fn bgra_has_alpha(px: Seq<u8>) -> bool {
    exists|k: int| 0 <= k < px.len() && k % 4 == 3 && #[trigger] px[k] > 0
}

/// Byte `k` of the RGBA buffer made from BGRA pixels: blue and red trade
/// places, and a buffer whose alpha is zero everywhere becomes opaque.
pub open spec fn rgba_from_bgra_at(px: Seq<u8>, k: int) -> u8 {
    let c = k % 4;
    if c == 0 {
        px[k + 2]
    } else if c == 1 {
        px[k]
    } else if c == 2 {
        px[k - 2]
    } else if bgra_has_alpha(px) {
        px[k]
    } else {
        255u8
    }
}

/// Converts top-down BGRA pixels into RGBA.
pub fn rgba_from_bgra(px: &Vec<u8>) -> (r: Vec<u8>)
    requires
        px@.len() % 4 == 0,
    ensures
        r@.len() == px@.len(),
        forall|k: int| 0 <= k < r@.len() ==> #[trigger] r@[k] == rgba_from_bgra_at(px@, k),
{
    let n = px.len();
    let mut any = false;
    let mut k: usize = 3;
    while k < n
        invariant
            n == px@.len(),
            n % 4 == 0,
            k % 4 == 3,
            k <= n + 3,
            any <==> exists|j: int| 0 <= j < k && j < n && j % 4 == 3 && #[trigger] px@[j] > 0,
        decreases n + 3 - k,
    {
        if px[k] > 0 {
            any = true;
        }
        proof {
            assert forall|j: int| 0 <= j < k + 4 && j < n && j % 4 == 3 && #[trigger] px@[j] > 0 implies j < k || j == k by {}
        }
        k = k + 4;
    }
    assert(any == bgra_has_alpha(px@));
    let mut out: Vec<u8> = Vec::new();
    let mut p: usize = 0;
    while p < n
        invariant
            n == px@.len(),
            n % 4 == 0,
            p % 4 == 0,
            p <= n,
            any == bgra_has_alpha(px@),
            out@.len() == p,
            forall|j: int| 0 <= j < p ==> #[trigger] out@[j] == rgba_from_bgra_at(px@, j),
        decreases n - p,
    {
        out.push(px[p + 2]);
        out.push(px[p + 1]);
        out.push(px[p]);
        out.push(if any { px[p + 3] } else { 255 });
        proof {
            assert forall|j: int| 0 <= j < p + 4 implies #[trigger] out@[j] == rgba_from_bgra_at(px@, j) by {
                if j >= p {
                    assert(j % 4 == j - p);
                }
            }
        }
        p = p + 4;
    }
    out
}

/// A shell bitmap is converted only when both sides are between 1 and 4096.
pub open spec fn shell_bitmap_size_ok(width: u32, height: u32) -> bool {
    1 <= width <= 4096 && 1 <= height <= 4096
}

/// The `data:` URL of a shell thumbnail from its top-down BGRA pixels:
/// converted to RGBA, encoded as PNG (whatever the encoder wrote).
pub open spec fn shell_thumbnail_url(width: u32, height: u32, px: Seq<u8>) -> Seq<char> {
    png_data_url(png_encoding(width, height, Seq::new(px.len(), |k: int| rgba_from_bgra_at(px, k))).1)
}

/// Builds the `data:` URL of a shell thumbnail; `None` for a bitmap whose
/// size is refused.
pub fn bitmap_data_url(width: u32, height: u32, px: &Vec<u8>) -> (r: Option<String>)
    requires
        px@.len() == 4 * width * height,
    ensures
        r is Some <==> shell_bitmap_size_ok(width, height),
        r matches Some(u) ==> u@ == shell_thumbnail_url(width, height, px@),
{
    if width == 0 || height == 0 || width > 4096 || height > 4096 {
        return None;
    }
    proof {
        assert((width * height) * 4 == 4 * width * height) by (nonlinear_arith);
        vstd::arithmetic::div_mod::lemma_fundamental_div_mod_converse(px@.len() as int, 4, width * height, 0);
    }
    let rgba = rgba_from_bgra(px);
    assert(rgba@ =~= Seq::new(px@.len(), |k: int| rgba_from_bgra_at(px@, k)));
    let (_, png) = encode_png(width, height, &rgba);
    Some(png_data_url_of(png.as_slice()))
}

} // verus!
