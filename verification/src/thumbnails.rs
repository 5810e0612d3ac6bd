//! Thumbnail cache decisions: which wallpapers are accepted, under which
//! name a thumbnail is cached, and how much of the cache is evicted.
use vstd::prelude::*;

use crate::brightness::hardware::{blake3_hex, blake3_hex_of};
use crate::imaging::{decode_image, encode_png, image_decoding, lanczos_fill, lanczos_resize, png_encoding, resize_fill, resize_within};
use crate::paths::{extension_of, extension_or_empty, extension_text, path_extension};
use crate::text::{dec, decimal, lowercase, owned, push_str, str_eq, to_lowercase};

verus! {

/// The lowercased extension of a wallpaper path, empty when it has none.
pub open spec fn wallpaper_extension(path: Seq<char>) -> Seq<char> {
    match path_extension(path) {
        Some(e) => lowercase(e),
        None => Seq::empty(),
    }
}

/// A wallpaper must be a JPEG, PNG or WebP file by its extension.
pub open spec fn wallpaper_accepted(path: Seq<char>) -> bool {
    let e = wallpaper_extension(path);
    e == "jpg"@ || e == "jpeg"@ || e == "png"@ || e == "webp"@
}

/// Checks the extension of a wallpaper; the error names the extension.
pub fn check_wallpaper_extension(path: &str) -> (r: Result<(), String>)
    ensures
        r is Ok <==> wallpaper_accepted(path@),
        r matches Err(m) ==> m@ == "Unsupported image extension: "@ + wallpaper_extension(path@),
{
    let ext = match extension_of(path) {
        Some(e) => to_lowercase(e.as_str()),
        None => String::new(),
    };
    if str_eq(ext.as_str(), "jpg") || str_eq(ext.as_str(), "jpeg") || str_eq(ext.as_str(), "png") || str_eq(ext.as_str(), "webp") {
        Ok(())
    } else {
        let mut m = owned("Unsupported image extension: ");
        push_str(&mut m, ext.as_str());
        Err(m)
    }
}

/// The text a wallpaper thumbnail is keyed by: the canonical path, the
/// modification time in seconds, the file size and the requested size.
pub open spec fn wallpaper_key(canonical: Seq<char>, mtime: u64, size: u64, w: u32, h: u32) -> Seq<char> {
    "wp_v3:"@ + canonical + ":"@ + dec(mtime as nat) + ":"@ + dec(size as nat) + ":"@ + dec(w as nat) + ":"@ + dec(h as nat)
}

/// The cache file name of a wallpaper thumbnail: the digest of its key and
/// `.png`.
pub fn wallpaper_cache_name(canonical: &str, mtime: u64, size: u64, w: u32, h: u32) -> (r: String)
    ensures
        r@ == blake3_hex(vstd::utf8::encode_utf8(wallpaper_key(canonical@, mtime, size, w, h))) + ".png"@,
{
    let mut key = owned("wp_v3:");
    push_str(&mut key, canonical);
    push_str(&mut key, ":");
    let a = decimal(mtime);
    push_str(&mut key, a.as_str());
    push_str(&mut key, ":");
    let b = decimal(size);
    push_str(&mut key, b.as_str());
    push_str(&mut key, ":");
    let c = decimal(w as u64);
    push_str(&mut key, c.as_str());
    push_str(&mut key, ":");
    let d = decimal(h as u64);
    push_str(&mut key, d.as_str());
    let mut r = blake3_hex_of(key.as_str().as_bytes());
    push_str(&mut r, ".png");
    r
}

/// A physical thumbnail side: kept between 32 and 1920 pixels.
pub open spec fn physical_side(v: u32) -> u32 {
    if v < 32 {
        32
    } else if v > 1920 {
        1920
    } else {
        v
    }
}

fn physical_side_exec(v: u32) -> (r: u32)
    ensures
        r == physical_side(v),
{
    if v < 32 {
        32
    } else if v > 1920 {
        1920
    } else {
        v
    }
}

/// The text a preview thumbnail is keyed by: the source path, its
/// modification time in seconds, the physical size and the pixel ratio as
/// the interface printed it.
pub open spec fn thumbnail_key(source: Seq<char>, mtime: u64, phys_w: u32, phys_h: u32, ratio_text: Seq<char>) -> Seq<char> {
    source + ":"@ + dec(mtime as nat) + ":"@ + dec(physical_side(phys_w) as nat) + ":"@ + dec(
        physical_side(phys_h) as nat,
    ) + ":"@ + ratio_text
}

/// The cache file name of a preview thumbnail: the digest of its key and
/// `.png`. The physical sides are kept between 32 and 1920.
pub fn thumbnail_cache_name(source: &str, mtime: u64, phys_w: u32, phys_h: u32, ratio_text: &str) -> (r: String)
    ensures
        r@ == blake3_hex(vstd::utf8::encode_utf8(thumbnail_key(source@, mtime, phys_w, phys_h, ratio_text@))) + ".png"@,
{
    let mut key = owned(source);
    push_str(&mut key, ":");
    let a = decimal(mtime);
    push_str(&mut key, a.as_str());
    push_str(&mut key, ":");
    let b = decimal(physical_side_exec(phys_w) as u64);
    push_str(&mut key, b.as_str());
    push_str(&mut key, ":");
    let c = decimal(physical_side_exec(phys_h) as u64);
    push_str(&mut key, c.as_str());
    push_str(&mut key, ":");
    push_str(&mut key, ratio_text);
    let mut r = blake3_hex_of(key.as_str().as_bytes());
    push_str(&mut r, ".png");
    r
}

/// The preview thumbnail of an image file: decoded by its extension, scaled
/// to fit the physical size (kept between 32 and 1920, never enlarging the
/// image), and encoded as PNG.
pub open spec fn thumbnail_of(bytes: Seq<u8>, path: Seq<char>, phys_w: u32, phys_h: u32) -> Result<Seq<u8>, Seq<char>> {
    match image_decoding(bytes, extension_or_empty(path)) {
        Err(e) => Err("Failed to open image: "@ + e),
        Ok(img) => if img.0 == 0 || img.1 == 0 {
            Err("Invalid image dimensions"@)
        } else {
            let fw = if img.0 < physical_side(phys_w) { img.0 } else { physical_side(phys_w) };
            let fh = if img.1 < physical_side(phys_h) { img.1 } else { physical_side(phys_h) };
            let t = lanczos_resize(img.0, img.1, img.2, fw, fh);
            let p = png_encoding(t.0, t.1, t.2);
            if p.0 {
                Ok(p.1)
            } else {
                Err("Failed to encode thumbnail"@)
            }
        },
    }
}

/// Makes the preview thumbnail of an image file from its bytes.
pub fn thumbnail_png(bytes: &[u8], path: &str, phys_w: u32, phys_h: u32) -> (r: Result<Vec<u8>, String>)
    ensures
        match r {
            Ok(p) => thumbnail_of(bytes@, path@, phys_w, phys_h) == Ok::<Seq<u8>, Seq<char>>(p@),
            Err(e) => thumbnail_of(bytes@, path@, phys_w, phys_h) == Err::<Seq<u8>, Seq<char>>(e@),
        },
{
    let ext = extension_text(path);
    let (w, h, px) = match decode_image(bytes, ext.as_str()) {
        Ok(v) => v,
        Err(e) => {
            let mut m = owned("Failed to open image: ");
            push_str(&mut m, e.as_str());
            return Err(m);
        },
    };
    if w == 0 || h == 0 {
        return Err(owned("Invalid image dimensions"));
    }
    let pw = physical_side_exec(phys_w);
    let ph = physical_side_exec(phys_h);
    let fw = if w < pw { w } else { pw };
    let fh = if h < ph { h } else { ph };
    let (tw, th, tpx) = resize_within(w, h, &px, fw, fh);
    let (ok, png) = encode_png(tw, th, &tpx);
    if ok {
        Ok(png)
    } else {
        Err(owned("Failed to encode thumbnail"))
    }
}

/// The thumbnail of a wallpaper file: decoded by its extension, scaled to
/// cover `w` x `h` and cropped to it, and encoded as PNG.
pub open spec fn wallpaper_thumbnail_of(bytes: Seq<u8>, path: Seq<char>, w: u32, h: u32) -> Result<Seq<u8>, Seq<char>> {
    match image_decoding(bytes, extension_or_empty(path)) {
        Err(e) => Err("Ошибка открытия изображения: "@ + e),
        Ok(img) => if img.0 == 0 || img.1 == 0 {
            Err("Неверные размеры изображения"@)
        } else {
            let t = lanczos_fill(img.0, img.1, img.2, w, h);
            let p = png_encoding(t.0, t.1, t.2);
            if p.0 {
                Ok(p.1)
            } else {
                Err("Ошибка кодирования thumbnail"@)
            }
        },
    }
}

/// Makes the thumbnail of a wallpaper file from its bytes.
pub fn wallpaper_thumbnail_png(bytes: &[u8], path: &str, w: u32, h: u32) -> (r: Result<Vec<u8>, String>)
    ensures
        match r {
            Ok(p) => wallpaper_thumbnail_of(bytes@, path@, w, h) == Ok::<Seq<u8>, Seq<char>>(p@),
            Err(e) => wallpaper_thumbnail_of(bytes@, path@, w, h) == Err::<Seq<u8>, Seq<char>>(e@),
        },
{
    let ext = extension_text(path);
    let (iw, ih, px) = match decode_image(bytes, ext.as_str()) {
        Ok(v) => v,
        Err(e) => {
            let mut m = owned("Ошибка открытия изображения: ");
            push_str(&mut m, e.as_str());
            return Err(m);
        },
    };
    if iw == 0 || ih == 0 {
        return Err(owned("Неверные размеры изображения"));
    }
    let (tw, th, tpx) = resize_fill(iw, ih, &px, w, h);
    let (ok, png) = encode_png(tw, th, &tpx);
    if ok {
        Ok(png)
    } else {
        Err(owned("Ошибка кодирования thumbnail"))
    }
}

/// The sum of the first `n` sizes.
pub open spec fn size_sum(sizes: Seq<u64>, n: int) -> int
    decreases n,
{
    if n <= 0 {
        0
    } else {
        size_sum(sizes, n - 1) + sizes[n - 1]
    }
}

/// How many of the cached files, oldest first, are deleted: none while the
/// cache is within its budget; otherwise files are deleted until the rest
/// is within three quarters of the budget, or none is left.
pub open spec fn evicted_count(sizes: Seq<u64>, max_bytes: u64) -> int {
    let total = size_sum(sizes, sizes.len() as int);
    if total <= max_bytes {
        0
    } else {
        evicted_until(sizes, total, max_bytes * 3 / 4, 0)
    }
}

/// Files are deleted from index `k` on until the remaining total is at
/// most `target`.
pub open spec fn evicted_until(sizes: Seq<u64>, remaining: int, target: int, k: int) -> int
    decreases sizes.len() - k,
{
    if k >= sizes.len() || k < 0 {
        k
    } else {
        let left = if remaining >= sizes[k] { remaining - sizes[k] } else { 0 };
        if left <= target {
            k + 1
        } else {
            evicted_until(sizes, left, target, k + 1)
        }
    }
}

/// Decides how many cached files to delete, given their sizes oldest first.
pub fn eviction_count(sizes: &Vec<u64>, max_bytes: u64) -> (n: usize)
    requires
        size_sum(sizes@, sizes@.len() as int) <= u64::MAX,
        max_bytes <= u64::MAX / 3,
    ensures
        n == evicted_count(sizes@, max_bytes),
{
    let mut total: u64 = 0;
    let mut i: usize = 0;
    while i < sizes.len()
        invariant
            i <= sizes@.len(),
            total == size_sum(sizes@, i as int),
            size_sum(sizes@, sizes@.len() as int) <= u64::MAX,
        decreases sizes.len() - i,
    {
        proof {
            lemma_size_sum_monotone(sizes@, i + 1, sizes@.len() as int);
        }
        total = total + sizes[i];
        i = i + 1;
    }
    assert(total == size_sum(sizes@, sizes@.len() as int));
    if total <= max_bytes {
        return 0;
    }
    let target = max_bytes * 3 / 4;
    assert(evicted_count(sizes@, max_bytes) == evicted_until(sizes@, total as int, target as int, 0));
    let mut remaining = total;
    let mut k: usize = 0;
    while k < sizes.len()
        invariant
            k <= sizes@.len(),
            evicted_count(sizes@, max_bytes) == evicted_until(sizes@, total as int, target as int, 0),
            evicted_until(sizes@, total as int, target as int, 0) == evicted_until(sizes@, remaining as int, target as int, k as int),
        decreases sizes.len() - k,
    {
        let ghost before = remaining;
        remaining = if remaining >= sizes[k] { remaining - sizes[k] } else { 0 };
        assert(evicted_until(sizes@, before as int, target as int, k as int) == if remaining <= target {
            k + 1
        } else {
            evicted_until(sizes@, remaining as int, target as int, k + 1)
        });
        if remaining <= target {
            return k + 1;
        }
        k = k + 1;
    }
    k
}

proof fn lemma_size_sum_monotone(sizes: Seq<u64>, a: int, b: int)
    requires
        0 <= a <= b <= sizes.len(),
    ensures
        size_sum(sizes, a) <= size_sum(sizes, b),
    decreases b - a,
{
    if a < b {
        lemma_size_sum_monotone(sizes, a, b - 1);
    }
}

} // verus!
