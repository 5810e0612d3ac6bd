//! The decisions of the history store: which rows a listing filters to,
//! how a view mode falls back, how deletions are batched, and how a new
//! image or screenshot capture is merged with the one it duplicates.
use vstd::prelude::*;

use crate::brightness::hardware::{blake3_hex, blake3_hex_of};
use crate::imaging::{decode_image, image_decoding};
use crate::paths::{extension_or_empty, extension_text};

use crate::text::{
    chars_of, contains, decimal, dec, has_infix, owned, push_str, str_eq, trim,
    trimmed_chars, string_of,
};

verus! {

/// The clipboard rows a listing shows.
#[derive(Debug, Clone, Copy, PartialEq, Eq, Structural)]
pub enum ClipboardFilter {
    All,
    /// Plain text, links and code.
    Texts,
    /// Images and screenshots.
    Images,
    Pinned,
}

/// What a clipboard filter name selects; an unknown name, `all` and the
/// empty name select everything.
pub open spec fn clipboard_filter_of(name: Option<Seq<char>>) -> ClipboardFilter {
    match name {
        None => ClipboardFilter::All,
        Some(f) => if f == "text"@ {
            ClipboardFilter::Texts
        } else if f == "images"@ || f == "image"@ || f == "screenshots"@ || f == "screenshot"@ {
            ClipboardFilter::Images
        } else if f == "favorites"@ || f == "pinned"@ {
            ClipboardFilter::Pinned
        } else {
            ClipboardFilter::All
        },
    }
}

/// Reads a clipboard filter name.
pub fn clipboard_filter(name: Option<&str>) -> (r: ClipboardFilter)
    ensures
        r == clipboard_filter_of(
            match name {
                Some(f) => Some(f@),
                None => None,
            },
        ),
{
    match name {
        None => ClipboardFilter::All,
        Some(f) => if str_eq(f, "text") {
            ClipboardFilter::Texts
        } else if str_eq(f, "images") || str_eq(f, "image") || str_eq(f, "screenshots") || str_eq(f, "screenshot") {
            ClipboardFilter::Images
        } else if str_eq(f, "favorites") || str_eq(f, "pinned") {
            ClipboardFilter::Pinned
        } else {
            ClipboardFilter::All
        },
    }
}

/// The recent rows a listing shows.
#[derive(Debug, Clone, Copy, PartialEq, Eq, Structural)]
pub enum RecentFilter {
    All,
    Files,
    Folders,
    Pinned,
}

/// What a recent-items filter name selects.
pub open spec fn recent_filter_of(name: Option<Seq<char>>) -> RecentFilter {
    match name {
        None => RecentFilter::All,
        Some(f) => if f == "files"@ {
            RecentFilter::Files
        } else if f == "folders"@ {
            RecentFilter::Folders
        } else if f == "favorites"@ || f == "pinned"@ {
            RecentFilter::Pinned
        } else {
            RecentFilter::All
        },
    }
}

/// Reads a recent-items filter name.
pub fn recent_filter(name: Option<&str>) -> (r: RecentFilter)
    ensures
        r == recent_filter_of(
            match name {
                Some(f) => Some(f@),
                None => None,
            },
        ),
{
    match name {
        None => RecentFilter::All,
        Some(f) => if str_eq(f, "files") {
            RecentFilter::Files
        } else if str_eq(f, "folders") {
            RecentFilter::Folders
        } else if str_eq(f, "favorites") || str_eq(f, "pinned") {
            RecentFilter::Pinned
        } else {
            RecentFilter::All
        },
    }
}

/// The `LIKE` pattern a search uses: the trimmed query between `%` signs,
/// or none for a query that is empty or only white space.
pub open spec fn search_pattern_of(query: Option<Seq<char>>) -> Option<Seq<char>> {
    match query {
        None => None,
        Some(q) => if trim(q).len() == 0 {
            None
        } else {
            Some("%"@ + trim(q) + "%"@)
        },
    }
}

/// Builds the `LIKE` pattern of a search query.
pub fn search_pattern(query: Option<&str>) -> (r: Option<String>)
    ensures
        match r {
            Some(p) => search_pattern_of(
                match query {
                    Some(q) => Some(q@),
                    None => None,
                },
            ) == Some(p@),
            None => search_pattern_of(
                match query {
                    Some(q) => Some(q@),
                    None => None,
                },
            ) is None,
        },
{
    match query {
        None => None,
        Some(q) => {
            let t = trimmed_chars(q);
            if t.len() == 0 {
                None
            } else {
                let mut p = owned("%");
                let ts = string_of(&t);
                push_str(&mut p, ts.as_str());
                push_str(&mut p, "%");
                Some(p)
            }
        },
    }
}

/// The view mode a tab shows: the stored one, with the retired `list`
/// shown as `details`; without a stored one, `grid` for image and
/// screenshot tabs and `details` for the others.
pub open spec fn view_mode_of(tab_id: Seq<char>, stored: Option<Seq<char>>) -> Seq<char> {
    let fallback = if has_infix(tab_id, "image"@) || has_infix(tab_id, "screenshot"@) {
        "grid"@
    } else {
        "details"@
    };
    let m = match stored {
        Some(s) => s,
        None => fallback,
    };
    if m == "list"@ {
        "details"@
    } else {
        m
    }
}

/// Resolves the view mode of a tab from what is stored for it.
pub fn resolve_view_mode(tab_id: &str, stored: Option<String>) -> (r: String)
    ensures
        r@ == view_mode_of(
            tab_id@,
            match stored {
                Some(s) => Some(s@),
                None => None,
            },
        ),
{
    let t = chars_of(tab_id);
    let m = match stored {
        Some(s) => s,
        None => if contains(&t, "image") || contains(&t, "screenshot") {
            owned("grid")
        } else {
            owned("details")
        },
    };
    if str_eq(m.as_str(), "list") {
        owned("details")
    } else {
        m
    }
}

/// How many ids one deletion statement binds at most.
pub const DELETE_CHUNK: usize = 400;

/// The `?1,?2,...,?n` parameter list of an `IN` clause.
pub open spec fn placeholders_of(n: nat) -> Seq<char>
    decreases n,
{
    if n == 0 {
        Seq::empty()
    } else if n == 1 {
        "?1"@
    } else {
        placeholders_of((n - 1) as nat) + ",?"@ + dec(n)
    }
}

/// Builds the parameter list of an `IN` clause with `n` parameters.
pub fn in_placeholders(n: usize) -> (r: String)
    ensures
        r@ == placeholders_of(n as nat),
{
    let mut r = String::new();
    let mut i: usize = 0;
    while i < n
        invariant
            i <= n,
            r@ == placeholders_of(i as nat),
        decreases n - i,
    {
        let d = decimal((i + 1) as u64);
        if i == 0 {
            push_str(&mut r, "?");
            push_str(&mut r, d.as_str());
            proof {
                reveal_strlit("?");
                reveal_strlit("?1");
                assert(dec(1) =~= seq!['1']) by {
                    reveal_with_fuel(dec, 2);
                }
                assert(r@ =~= "?1"@);
            }
        } else {
            push_str(&mut r, ",?");
            push_str(&mut r, d.as_str());
        }
        i = i + 1;
    }
    r
}

/// The batches in which `len` ids are deleted: consecutive ranges of at
/// most 400, covering `0..len` in order.
pub open spec fn chunk_ranges(len: nat) -> Seq<(int, int)>
    decreases len,
{
    if len == 0 {
        Seq::empty()
    } else {
        let last_start = ((len - 1) / 400) * 400;
        chunk_ranges(last_start as nat).push((last_start, len as int))
    }
}

/// Splits `len` ids into deletion batches.
pub fn delete_chunks(len: usize) -> (r: Vec<(usize, usize)>)
    ensures
        r@.len() == chunk_ranges(len as nat).len(),
        forall|i: int| 0 <= i < r@.len() ==> (r@[i].0 as int, r@[i].1 as int) == #[trigger] chunk_ranges(len as nat)[i],
{
    let mut r: Vec<(usize, usize)> = Vec::new();
    let mut start: usize = 0;
    while start < len
        invariant
            start <= len,
            start % 400 == 0 || start == len,
            r@.len() == chunk_ranges(start as nat).len(),
            forall|i: int| 0 <= i < r@.len() ==> (r@[i].0 as int, r@[i].1 as int) == #[trigger] chunk_ranges(start as nat)[i],
        decreases len - start,
    {
        let end: usize = if len - start > DELETE_CHUNK { start + DELETE_CHUNK } else { len };
        let ghost before = r@;
        r.push((start, end));
        proof {
            assert(((end - 1) / 400) * 400 == start as int) by {
                assert(start <= end - 1 < start + 400);
                vstd::arithmetic::div_mod::lemma_fundamental_div_mod_converse(end - 1, 400, (start / 400) as int, (end - 1 - start) as int);
                vstd::arithmetic::div_mod::lemma_fundamental_div_mod(start as int, 400);
            }
            assert(chunk_ranges(end as nat) == chunk_ranges(start as nat).push((start as int, end as int)));
        }
        start = end;
    }
    r
}

/// The stored taskbar baseline: `1` and `true` mean hidden.
pub open spec fn taskbar_flag_of(stored: Seq<char>) -> bool {
    stored == "1"@ || stored == "true"@
}

/// Reads the stored taskbar baseline.
pub fn taskbar_baseline_flag(stored: &str) -> (r: bool)
    ensures
        r == taskbar_flag_of(stored@),
{
    str_eq(stored, "1") || str_eq(stored, "true")
}

/// The pin flag a toggle stores: 1 for an unpinned row, 0 for a pinned one.
pub fn toggled_pin(current: i64) -> (next: i64)
    ensures
        next == (if current == 0 { 1i64 } else { 0i64 }),
{
    if current == 0 { 1 } else { 0 }
}


/// The kind of an image row that a capture may duplicate.
#[derive(Debug, Clone, Copy, PartialEq, Eq, Structural)]
pub enum CaptureKind {
    Image,
    Screenshot,
}

/// A capture about to be recorded, as far as merging with an earlier row
/// is concerned.
#[derive(Debug, Clone)]
pub struct CaptureRequest {
    pub content_type: String,
    pub image_path: Option<String>,
    pub has_thumbnail: bool,
    pub width: Option<u32>,
    pub height: Option<u32>,
}

/// What merging has learned so far; `None` for what was not asked yet.
#[derive(Debug, Clone)]
pub struct MergeFacts {
    /// The row that already records this screenshot file.
    pub path_match: Option<Option<i64>>,
    /// The newest row of the other kind with the same size, made within the
    /// last 15 seconds, with its image path.
    pub candidate: Option<Option<(i64, String)>>,
    /// Whether the two image files hold the same pixels.
    pub same_pixels: Option<bool>,
    /// Whether the candidate row still exists.
    pub still_exists: Option<bool>,
}

/// The next step of recording a capture.
#[derive(Debug, Clone)]
pub enum MergeStep {
    /// Look up the row whose image path is this file.
    FindPath(String),
    /// Look up the newest recent row of this kind and size.
    FindCandidate { kind: CaptureKind, width: u32, height: u32 },
    /// Compare the pixels of the candidate's image with the new one; a path
    /// flagged as owned lies in the application's image directory.
    ComparePixels { existing: String, existing_owned: bool, new: Option<String>, new_owned: bool },
    /// Check that the candidate row still exists.
    CheckExists(i64),
    /// Done: the screenshot is recorded already; its thumbnail is refreshed
    /// when the capture brings one.
    ReuseRow { id: i64, refresh_thumbnail: bool },
    /// Done: the image row becomes this screenshot, and the image file it
    /// owned is no longer needed.
    UpgradeToScreenshot { id: i64, orphaned: String },
    /// Done: the screenshot row stays, gets the thumbnail if it has none, and
    /// the newly stored image file is no longer needed.
    KeepScreenshot { id: i64, fill_thumbnail: bool, orphaned_new: Option<String> },
    /// Done: insert the capture, or update the row with the same digest.
    Insert,
}

/// The next step of recording a capture, given what is known. A screenshot
/// whose file is recorded already reuses that row. A screenshot and an image
/// of the same size captured within 15 seconds of each other, with the same
/// pixels, are one row: the screenshot's.
pub open spec fn merge_step(req: CaptureRequest, f: MergeFacts) -> MergeStep {
    let shot = req.content_type@ == "screenshot"@;
    let img = req.content_type@ == "image"@;
    if shot && req.image_path is Some && f.path_match is None {
        MergeStep::FindPath(req.image_path->0)
    } else if shot && req.image_path is Some && f.path_match matches Some(Some(_)) {
        MergeStep::ReuseRow { id: f.path_match->0->0, refresh_thumbnail: req.has_thumbnail }
    } else if (shot || img) && req.width is Some && req.height is Some {
        match f.candidate {
            None => MergeStep::FindCandidate {
                kind: if shot { CaptureKind::Image } else { CaptureKind::Screenshot },
                width: req.width->0,
                height: req.height->0,
            },
            Some(None) => MergeStep::Insert,
            Some(Some((id, path))) => match f.same_pixels {
                None => MergeStep::ComparePixels { existing: path, existing_owned: shot, new: req.image_path, new_owned: img },
                Some(false) => MergeStep::Insert,
                Some(true) => match f.still_exists {
                    None => MergeStep::CheckExists(id),
                    Some(false) => MergeStep::Insert,
                    Some(true) => if shot {
                        MergeStep::UpgradeToScreenshot { id, orphaned: path }
                    } else {
                        MergeStep::KeepScreenshot { id, fill_thumbnail: req.has_thumbnail, orphaned_new: req.image_path }
                    },
                },
            },
        }
    } else {
        MergeStep::Insert
    }
}

/// Decides the next step of recording a capture.
pub fn next_merge_step(req: &CaptureRequest, facts: &MergeFacts) -> (r: MergeStep)
    ensures
        r == merge_step(*req, *facts),
{
    let shot = str_eq(req.content_type.as_str(), "screenshot");
    let img = str_eq(req.content_type.as_str(), "image");
    if shot {
        if let Some(p) = &req.image_path {
            match facts.path_match {
                None => return MergeStep::FindPath(p.clone()),
                Some(Some(id)) => return MergeStep::ReuseRow { id, refresh_thumbnail: req.has_thumbnail },
                Some(None) => {},
            }
        }
    }
    if !(shot || img) {
        return MergeStep::Insert;
    }
    let (w, h) = match (req.width, req.height) {
        (Some(w), Some(h)) => (w, h),
        _ => return MergeStep::Insert,
    };
    match &facts.candidate {
        None => MergeStep::FindCandidate {
            kind: if shot { CaptureKind::Image } else { CaptureKind::Screenshot },
            width: w,
            height: h,
        },
        Some(None) => MergeStep::Insert,
        Some(Some((id, path))) => match facts.same_pixels {
            None => MergeStep::ComparePixels {
                existing: path.clone(),
                existing_owned: shot,
                new: req.image_path.clone(),
                new_owned: img,
            },
            Some(false) => MergeStep::Insert,
            Some(true) => match facts.still_exists {
                None => MergeStep::CheckExists(*id),
                Some(false) => MergeStep::Insert,
                Some(true) => if shot {
                    MergeStep::UpgradeToScreenshot { id: *id, orphaned: path.clone() }
                } else {
                    MergeStep::KeepScreenshot {
                        id: *id,
                        fill_thumbnail: req.has_thumbnail,
                        orphaned_new: req.image_path.clone(),
                    }
                },
            },
        },
    }
}


/// Two decoded images hold the same pixels: their sides are equal and the
/// BLAKE3 digests of their RGBA bytes agree.
pub open spec fn same_pixels_of(w1: u32, h1: u32, rgba1: Seq<u8>, w2: u32, h2: u32, rgba2: Seq<u8>) -> bool {
    w1 == w2 && h1 == h2 && blake3_hex(rgba1) == blake3_hex(rgba2)
}

/// Decides whether a capture and the row it may duplicate hold the same
/// pixels, from their decoded images.
pub fn same_decoded_image(w1: u32, h1: u32, rgba1: &[u8], w2: u32, h2: u32, rgba2: &[u8]) -> (r: bool)
    ensures
        r == same_pixels_of(w1, h1, rgba1@, w2, h2, rgba2@),
{
    if w1 != w2 || h1 != h2 {
        return false;
    }
    let a = blake3_hex_of(rgba1);
    let b = blake3_hex_of(rgba2);
    str_eq(a.as_str(), b.as_str())
}

/// Two image files, each decoded by its extension, hold the same pixels;
/// a file that does not decode matches nothing.
pub open spec fn same_image_files(b1: Seq<u8>, p1: Seq<char>, b2: Seq<u8>, p2: Seq<char>) -> bool {
    match (image_decoding(b1, extension_or_empty(p1)), image_decoding(b2, extension_or_empty(p2))) {
        (Ok(a), Ok(b)) => same_pixels_of(a.0, a.1, a.2, b.0, b.1, b.2),
        _ => false,
    }
}

/// Decides from their bytes whether two image files hold the same pixels.
pub fn same_image_bytes(b1: &[u8], p1: &str, b2: &[u8], p2: &str) -> (r: bool)
    ensures
        r == same_image_files(b1@, p1@, b2@, p2@),
{
    let e1 = extension_text(p1);
    let e2 = extension_text(p2);
    match (decode_image(b1, e1.as_str()), decode_image(b2, e2.as_str())) {
        (Ok((w1, h1, px1)), Ok((w2, h2, px2))) => same_decoded_image(w1, h1, px1.as_slice(), w2, h2, px2.as_slice()),
        _ => false,
    }
}

/// The deletion batches cover every id once and in order: the first starts
/// at 0, each starts where the previous ended, none is empty or larger than
/// 400, and the last ends at `len`.
pub proof fn lemma_chunks_cover(len: nat)
    ensures
        len == 0 ==> chunk_ranges(len).len() == 0,
        len > 0 ==> chunk_ranges(len).len() > 0 && chunk_ranges(len)[0].0 == 0 && chunk_ranges(len).last().1 == len,
        forall|i: int| 0 <= i < chunk_ranges(len).len() ==> 0 < (#[trigger] chunk_ranges(len)[i]).1 - chunk_ranges(len)[i].0 <= 400,
        forall|i: int| 0 < i < chunk_ranges(len).len() ==> (#[trigger] chunk_ranges(len)[i]).0 == chunk_ranges(len)[i - 1].1,
    decreases len,
{
    if len > 0 {
        let s = ((len - 1) / 400) * 400;
        assert(0 <= s <= len - 1) by {
            vstd::arithmetic::div_mod::lemma_fundamental_div_mod(len - 1, 400);
        }
        assert(len - s <= 400) by {
            vstd::arithmetic::div_mod::lemma_fundamental_div_mod(len - 1, 400);
        }
        lemma_chunks_cover(s as nat);
        if s > 0 {
            assert(chunk_ranges(s as nat).last().1 == s);
        }
    }
}

} // verus!
