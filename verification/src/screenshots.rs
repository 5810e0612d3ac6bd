//! Screenshot capture: which files count as images, how directory change
//! notifications are read, and how repeated notifications for one file are
//! collapsed.
use vstd::prelude::*;

use crate::brightness::hardware::{blake3_hex, blake3_hex_of};
use crate::clipboard::dib::{le16, le32};
use crate::imaging::{image_size_of, read_image_size};
use crate::paths::{extension_or_empty, extension_text};
use crate::text::{chars_of, ends_with, has_suffix, lowercase, str_eq, to_lowercase};
use crate::types::ClipboardItem;

verus! {

/// A file name with an image extension, compared without case.
pub open spec fn has_image_extension(name: Seq<char>) -> bool {
    let l = lowercase(name);
    has_suffix(l, ".png"@) || has_suffix(l, ".jpg"@) || has_suffix(l, ".jpeg"@) || has_suffix(l, ".webp"@)
}

/// Decides whether a file name is that of a PNG, JPEG or WebP image.
pub fn is_image_extension(name: &str) -> (r: bool)
    ensures
        r == has_image_extension(name@),
{
    let lower = to_lowercase(name);
    let l = chars_of(lower.as_str());
    ends_with(&l, ".png") || ends_with(&l, ".jpg") || ends_with(&l, ".jpeg") || ends_with(&l, ".webp")
}

/// The 16-bit units of the file name in the notification record at `offset`.
pub open spec fn record_name(buf: Seq<u8>, offset: int, name_bytes: int) -> Seq<u16> {
    Seq::new((name_bytes / 2) as nat, |i: int| le16(buf, offset + 12 + 2 * i))
}

/// The file names of the change notifications in the first `total` bytes of
/// `buf`, from the record at `offset` on. A record holds the offset of the
/// next record, an action, the byte length of the name and the name in
/// UTF-16 (fields little-endian, as on every Windows target). Reading stops
/// at a record that is misaligned, truncated, or has an empty or odd name
/// length, after the last record, and at a next offset that is misaligned or
/// leaves the buffer.
pub open spec fn notify_names(buf: Seq<u8>, total: int, offset: int) -> Seq<Seq<u16>>
    decreases total - offset,
{
    if offset < 0 || offset + 12 > total || offset % 4 != 0 {
        Seq::empty()
    } else {
        let next = le32(buf, offset) as int;
        let name_bytes = le32(buf, offset + 8) as int;
        if name_bytes == 0 || name_bytes % 2 != 0 || offset + 12 + name_bytes > total {
            Seq::empty()
        } else {
            let name = record_name(buf, offset, name_bytes);
            if next == 0 || next % 4 != 0 || offset + next >= total {
                seq![name]
            } else {
                seq![name] + notify_names(buf, total, offset + next)
            }
        }
    }
}

/// A UTF-16 surrogate unit.
pub open spec fn is_surrogate(u: u16) -> bool {
    0xD800 <= u <= 0xDFFF
}

/// A UTF-16 leading (high) surrogate unit.
pub open spec fn is_high_surrogate(u: u16) -> bool {
    0xD800 <= u <= 0xDBFF
}

/// A UTF-16 trailing (low) surrogate unit.
pub open spec fn is_low_surrogate(u: u16) -> bool {
    0xDC00 <= u <= 0xDFFF
}

/// 16-bit units decoded as UTF-16: a high surrogate followed by a low one
/// makes one supplementary character, any other surrogate becomes U+FFFD,
/// and every other unit is the character of that value.
pub open spec fn utf16_lossy(units: Seq<u16>) -> Seq<char>
    decreases units.len(),
{
    if units.len() == 0 {
        Seq::empty()
    } else if units.len() >= 2 && is_high_surrogate(units[0]) && is_low_surrogate(units[1]) {
        let code: int = 0x10000 + (units[0] - 0xD800) * 0x400 + (units[1] - 0xDC00);
        seq![code as char] + utf16_lossy(units.skip(2))
    } else if is_surrogate(units[0]) {
        seq!['\u{FFFD}'] + utf16_lossy(units.drop_first())
    } else {
        seq![units[0] as char] + utf16_lossy(units.drop_first())
    }
}

/// `String::from_utf16_lossy`: the units decoded as UTF-16, each unpaired
/// surrogate replaced by U+FFFD.
#[verifier::external_body]
fn from_utf16_lossy(units: &[u16]) -> (r: String)
    ensures
        r@ == utf16_lossy(units@),
{
    String::from_utf16_lossy(units)
}

fn read_u16(buf: &[u8], at: usize) -> (r: u16)
    requires
        at + 2 <= buf@.len(),
    ensures
        r == le16(buf@, at as int),
{
    (buf[at] as u16) + (buf[at + 1] as u16) * 256
}

fn read_u32(buf: &[u8], at: usize) -> (r: u32)
    requires
        at + 4 <= buf@.len(),
    ensures
        r == le32(buf@, at as int),
{
    (buf[at] as u32) + (buf[at + 1] as u32) * 256 + (buf[at + 2] as u32) * 65536 + (buf[at + 3] as u32) * 16777216
}

/// Reads the file names of a directory change notification buffer.
pub fn notify_file_names(buf: &[u8], total: usize) -> (r: Vec<String>)
    requires
        total <= buf@.len(),
    ensures
        r@.len() == notify_names(buf@, total as int, 0).len(),
        forall|i: int| 0 <= i < r@.len() ==> (#[trigger] r@[i])@ == utf16_lossy(notify_names(buf@, total as int, 0)[i]),
{
    let ghost all = notify_names(buf@, total as int, 0);
    let mut names: Vec<String> = Vec::new();
    let mut offset: usize = 0;
    let mut more = true;
    while more
        invariant
            total <= buf@.len(),
            offset <= total,
            names@.len() <= all.len(),
            forall|i: int| 0 <= i < names@.len() ==> (#[trigger] names@[i])@ == utf16_lossy(all[i]),
            more ==> all.skip(names@.len() as int) == notify_names(buf@, total as int, offset as int),
            !more ==> names@.len() == all.len(),
        decreases 2 * (total - offset) + if more { 1int } else { 0int },
    {
        let ghost rest = notify_names(buf@, total as int, offset as int);
        if total - offset < 12 || offset % 4 != 0 {
            assert(rest.len() == 0);
            more = false;
        } else {
            let next = read_u32(buf, offset);
            let name_bytes = read_u32(buf, offset + 8);
            if name_bytes == 0 || name_bytes % 2 != 0 || (name_bytes as usize) > total - offset - 12 {
                more = false;
            } else {
                let count = (name_bytes / 2) as usize;
                let start = offset + 12;
                let mut units: Vec<u16> = Vec::new();
                let mut i: usize = 0;
                while i < count
                    invariant
                        total <= buf@.len(),
                        start + 2 * count <= total,
                        i <= count,
                        units@ == record_name(buf@, offset as int, name_bytes as int).take(i as int),
                        count == name_bytes / 2,
                        start == offset + 12,
                    decreases count - i,
                {
                    let u = read_u16(buf, start + 2 * i);
                    units.push(u);
                    assert(units@ =~= record_name(buf@, offset as int, name_bytes as int).take(i + 1));
                    i = i + 1;
                }
                assert(units@ =~= record_name(buf@, offset as int, name_bytes as int));
                assert(rest.len() >= 1 && rest[0] == record_name(buf@, offset as int, name_bytes as int));
                let name = from_utf16_lossy(units.as_slice());
                let ghost before = names@;
                names.push(name);
                proof {
                    assert(all.skip(before.len() as int)[0] == record_name(buf@, offset as int, name_bytes as int));
                    assert(names@.len() <= all.len());
                    assert forall|k: int| 0 <= k < names@.len() implies (#[trigger] names@[k])@ == utf16_lossy(all[k]) by {
                        if k < before.len() {
                            assert(names@[k] == before[k]);
                        } else {
                            assert(all[k] == all.skip(before.len() as int)[0]);
                        }
                    }
                }
                if next == 0 || next % 4 != 0 || (next as usize) >= total - offset {
                    more = false;
                } else {
                    proof {
                        assert(all.skip(names@.len() as int) =~= all.skip(before.len() as int).skip(1));
                    }
                    offset = offset + next as usize;
                }
            }
        }
    }
    names
}

/// A notified file is handled again only when its last handling is at
/// least 1.5 s ago.
pub const REPEAT_INTERVAL_NS: u64 = 1_500_000_000;

/// Once more than 100 files are remembered, those handled more than a
/// minute ago are forgotten.
pub const FORGET_AFTER_NS: u64 = 60_000_000_000;

/// The largest number of remembered files before old ones are forgotten.
pub const REMEMBERED_FILES: usize = 100;

/// The remembered handlings that are younger than a minute at `now`.
pub open spec fn within_minute(s: Seq<(Seq<char>, u64)>, now: u64) -> Seq<(Seq<char>, u64)>
    decreases s.len(),
{
    if s.len() == 0 {
        s
    } else {
        let prev = within_minute(s.drop_last(), now);
        if sat_sub(now, s.last().1) < FORGET_AFTER_NS {
            prev.push(s.last())
        } else {
            prev
        }
    }
}

/// Subtraction that stops at zero, as `Instant::duration_since` does.
pub open spec fn sat_sub(a: u64, b: u64) -> int {
    if a >= b { a - b } else { 0 }
}

/// The position of `path` in the remembered handlings.
pub open spec fn remembered_at(s: Seq<(Seq<char>, u64)>, path: Seq<char>, i: int) -> bool {
    0 <= i < s.len() && s[i].0 == path
}

/// A notification for `path` at `now` is dropped: the file was handled less
/// than 1.5 s before.
pub open spec fn repeat_blocked(s: Seq<(Seq<char>, u64)>, path: Seq<char>, now: u64) -> bool {
    exists|i: int| remembered_at(s, path, i) && sat_sub(now, s[i].1) < REPEAT_INTERVAL_NS
}

/// The remembered handlings after `path` is handled at `now`: its entry is
/// updated in place or appended; beyond 100 entries only the last minute's
/// are kept.
pub open spec fn remember(s: Seq<(Seq<char>, u64)>, path: Seq<char>, now: u64) -> Seq<(Seq<char>, u64)> {
    let updated = if exists|i: int| remembered_at(s, path, i) {
        s.update(choose|i: int| remembered_at(s, path, i), (path, now))
    } else {
        s.push((path, now))
    };
    if updated.len() > REMEMBERED_FILES {
        within_minute(updated, now)
    } else {
        updated
    }
}

proof fn lemma_within_minute_keeps(s: Seq<(Seq<char>, u64)>, now: u64, k: int)
    requires
        0 <= k < s.len(),
        sat_sub(now, s[k].1) < FORGET_AFTER_NS,
    ensures
        within_minute(s, now).contains(s[k]),
    decreases s.len(),
{
    if k < s.len() - 1 {
        lemma_within_minute_keeps(s.drop_last(), now, k);
        let w = within_minute(s.drop_last(), now);
        let j = choose|j: int| 0 <= j < w.len() && w[j] == s[k];
        if sat_sub(now, s.last().1) < FORGET_AFTER_NS {
            assert(w.push(s.last())[j] == s[k]);
        }
    } else {
        let w = within_minute(s.drop_last(), now);
        assert(w.push(s.last())[w.len() as int] == s[k]);
    }
}

/// A file just handled is not handled again for 1.5 s: repeated change
/// notifications while a screenshot is being written collapse into one.
pub proof fn lemma_repeat_within_interval_dropped(s: Seq<(Seq<char>, u64)>, path: Seq<char>, t: u64, later: u64)
    requires
        t <= later,
        later - t < REPEAT_INTERVAL_NS,
    ensures
        repeat_blocked(remember(s, path, t), path, later),
{
    let updated = if exists|i: int| remembered_at(s, path, i) {
        s.update(choose|i: int| remembered_at(s, path, i), (path, t))
    } else {
        s.push((path, t))
    };
    let k = if exists|i: int| remembered_at(s, path, i) { choose|i: int| remembered_at(s, path, i) } else { s.len() as int };
    assert(updated[k] == (path, t));
    let r = remember(s, path, t);
    if updated.len() > REMEMBERED_FILES {
        lemma_within_minute_keeps(updated, t, k);
        let j = choose|j: int| 0 <= j < r.len() && r[j] == updated[k];
        assert(remembered_at(r, path, j));
    } else {
        assert(remembered_at(r, path, k));
    }
}

/// When each notified file was last handled, in nanoseconds of a monotonic
/// clock; a file occurs at most once.
pub struct ProcessedFiles {
    entries: Vec<(String, u64)>,
}

impl View for ProcessedFiles {
    type V = Seq<(Seq<char>, u64)>;

    closed spec fn view(&self) -> Seq<(Seq<char>, u64)> {
        self.entries@.map_values(|e: (String, u64)| (e.0@, e.1))
    }
}

/// The keys of the remembered handlings are distinct.
pub open spec fn paths_distinct(s: Seq<(Seq<char>, u64)>) -> bool {
    forall|i: int, j: int| 0 <= i < j < s.len() ==> s[i].0 != s[j].0
}

proof fn lemma_within_minute(s: Seq<(Seq<char>, u64)>, now: u64)
    requires
        paths_distinct(s),
    ensures
        paths_distinct(within_minute(s, now)),
        forall|i: int| 0 <= i < within_minute(s, now).len() ==> exists|k: int| 0 <= k < s.len() && s[k] == #[trigger] within_minute(s, now)[i],
    decreases s.len(),
{
    if s.len() > 0 {
        let d = s.drop_last();
        assert(paths_distinct(d));
        lemma_within_minute(d, now);
        let w = within_minute(d, now);
        assert forall|i: int| 0 <= i < w.len() implies exists|k: int| 0 <= k < s.len() && s[k] == #[trigger] w[i] by {
            let k = choose|k: int| 0 <= k < d.len() && d[k] == w[i];
            assert(s[k] == d[k]);
        }
        if sat_sub(now, s.last().1) < FORGET_AFTER_NS {
            let w2 = w.push(s.last());
            assert forall|i: int| 0 <= i < w2.len() implies exists|k: int| 0 <= k < s.len() && s[k] == #[trigger] w2[i] by {
                if i < w.len() {
                    assert(w2[i] == w[i]);
                    let k = choose|k: int| 0 <= k < d.len() && d[k] == w[i];
                    assert(s[k] == d[k]);
                } else {
                    assert(s[s.len() - 1] == w2[i]);
                }
            }
            assert forall|i: int, j: int| 0 <= i < j < w2.len() implies w2[i].0 != w2[j].0 by {
                if j == w.len() {
                    let k = choose|k: int| 0 <= k < d.len() && d[k] == w[i];
                    assert(s[k] == d[k]);
                    assert(w2[i] == w[i]);
                    assert(w2[j] == s[s.len() - 1]);
                } else {
                    assert(w2[i] == w[i] && w2[j] == w[j]);
                }
            }
        }
    }
}

impl ProcessedFiles {
    #[verifier::type_invariant]
    spec fn distinct_paths(self) -> bool {
        paths_distinct(self@)
    }

    /// Nothing remembered.
    pub fn new() -> (p: Self)
        ensures
            p@ == Seq::<(Seq<char>, u64)>::empty(),
    {
        let p = ProcessedFiles { entries: Vec::new() };
        assert(p@ =~= Seq::<(Seq<char>, u64)>::empty());
        p
    }

    /// Number of remembered files.
    pub fn len(&self) -> (n: usize)
        ensures
            n == self@.len(),
    {
        self.entries.len()
    }

    fn position(&self, path: &str) -> (r: Option<usize>)
        ensures
            r matches Some(k) ==> remembered_at(self@, path@, k as int),
            r is None <==> !exists|i: int| remembered_at(self@, path@, i),
    {
        let mut i: usize = 0;
        while i < self.entries.len()
            invariant
                i <= self@.len(),
                self@.len() == self.entries@.len(),
                forall|j: int| 0 <= j < i ==> !remembered_at(self@, path@, j),
            decreases self.entries.len() - i,
        {
            if str_eq(self.entries[i].0.as_str(), path) {
                assert(remembered_at(self@, path@, i as int));
                return Some(i);
            }
            i = i + 1;
        }
        None
    }

    /// Decides whether a notification for `path` at `now` is handled: not
    /// when the same file was handled less than 1.5 s before. A handled file
    /// is remembered at `now` (updated in place or appended); when that makes
    /// more than 100, only the handlings of the last minute are kept.
    pub fn should_process(&mut self, path: &str, now: u64) -> (handle: bool)
        ensures
            handle == !repeat_blocked(old(self)@, path@, now),
            !handle ==> final(self)@ == old(self)@,
            handle ==> final(self)@ == remember(old(self)@, path@, now),
    {
        proof {
            use_type_invariant(&*self);
        }
        let ghost old_v = self@;
        let pos = self.position(path);
        if let Some(k) = pos {
            let t = self.entries[k].1;
            let elapsed: u64 = if now >= t { now - t } else { 0 };
            if elapsed < REPEAT_INTERVAL_NS {
                return false;
            }
            proof {
                assert forall|i: int| remembered_at(old_v, path@, i) implies i == k by {}
            }
        }
        let mut entries: Vec<(String, u64)> = Vec::new();
        std::mem::swap(&mut entries, &mut self.entries);
        let ghost updated;
        match pos {
            Some(k) => {
                entries.set(k, (crate::text::owned(path), now));
                proof {
                    let c = choose|i: int| remembered_at(old_v, path@, i);
                    assert(remembered_at(old_v, path@, c));
                    assert(c == k);
                    updated = old_v.update(k as int, (path@, now));
                }
            },
            None => {
                entries.push((crate::text::owned(path), now));
                proof {
                    updated = old_v.push((path@, now));
                }
            },
        }
        assert(entries@.map_values(|e: (String, u64)| (e.0@, e.1)) =~= updated);
        assert forall|i: int, j: int| 0 <= i < j < updated.len() implies updated[i].0 != updated[j].0 by {
            if i < old_v.len() && j < old_v.len() {
                assert(updated[i].0 == old_v[i].0 && updated[j].0 == old_v[j].0);
            } else {
                assert(!remembered_at(old_v, path@, i));
            }
        }
        if entries.len() > REMEMBERED_FILES {
            let mut kept: Vec<(String, u64)> = Vec::new();
            let mut i: usize = 0;
            while i < entries.len()
                invariant
                    i <= entries@.len(),
                    entries@.map_values(|e: (String, u64)| (e.0@, e.1)) == updated,
                    kept@.map_values(|e: (String, u64)| (e.0@, e.1)) == within_minute(updated.take(i as int), now),
                decreases entries.len() - i,
            {
                let ghost before = kept@.map_values(|e: (String, u64)| (e.0@, e.1));
                assert(updated.take(i + 1).drop_last() =~= updated.take(i as int));
                assert(updated.take(i + 1).last() == updated[i as int]);
                let t = entries[i].1;
                let elapsed: u64 = if now >= t { now - t } else { 0 };
                if elapsed < FORGET_AFTER_NS {
                    kept.push((entries[i].0.clone(), t));
                    assert(kept@.map_values(|e: (String, u64)| (e.0@, e.1)) =~= before.push(updated[i as int]));
                }
                i = i + 1;
            }
            assert(updated.take(entries@.len() as int) =~= updated);
            proof {
                lemma_within_minute(updated, now);
            }
            self.entries = kept;
        } else {
            self.entries = entries;
        }
        true
    }
}

/// The digest a screenshot is recorded under: that of its path's UTF-8
/// bytes.
pub fn screenshot_hash(path: &str) -> (r: String)
    ensures
        r@ == blake3_hex(vstd::utf8::encode_utf8(path@)),
{
    blake3_hex_of(path.as_bytes())
}

/// The row records a screenshot of this file.
pub open spec fn is_screenshot_of(item: ClipboardItem, path: Seq<char>) -> bool {
    item.content_type@ == "screenshot"@ && match item.image_path {
        Some(p) => p@ == path,
        None => false,
    }
}

/// The history already holds a screenshot row for this file.
pub open spec fn screenshot_known(items: Seq<ClipboardItem>, path: Seq<char>) -> bool {
    exists|i: int| 0 <= i < items.len() && is_screenshot_of(#[trigger] items[i], path)
}

/// Decides whether a screenshot file is recorded already, so that a startup
/// scan does not make it look new again.
pub fn is_known_screenshot(items: &Vec<ClipboardItem>, path: &str) -> (r: bool)
    ensures
        r == screenshot_known(items@, path@),
{
    let mut i: usize = 0;
    while i < items.len()
        invariant
            i <= items@.len(),
            forall|j: int| 0 <= j < i ==> !is_screenshot_of(#[trigger] items@[j], path@),
        decreases items.len() - i,
    {
        let it = &items[i];
        if str_eq(it.content_type.as_str(), "screenshot") {
            if let Some(p) = &it.image_path {
                if str_eq(p.as_str(), path) {
                    assert(is_screenshot_of(items@[i as int], path@));
                    return true;
                }
            }
        }
        i = i + 1;
    }
    false
}

/// How many times a new screenshot file is checked before it is given up.
pub const SCREENSHOT_READ_ATTEMPTS: u32 = 4;

/// The size of an image file from the header of its bytes, read by its
/// extension.
pub fn image_size(bytes: &[u8], path: &str) -> (r: Option<(u32, u32)>)
    ensures
        r == image_size_of(bytes@, extension_or_empty(path@)),
{
    let ext = extension_text(path);
    read_image_size(bytes, ext.as_str())
}

/// A screenshot file is ready to be recorded once it is a file that is not
/// empty and whose image header gives a size.
pub fn screenshot_ready(is_file: bool, len: u64, size: Option<(u32, u32)>) -> (r: bool)
    ensures
        r == (is_file && len > 0 && size is Some),
{
    is_file && len > 0 && size.is_some()
}

/// The pause after a failed check of a new screenshot file, in milliseconds:
/// 50 after the first, growing by 50 with each one.
pub fn screenshot_retry_pause_ms(attempt: u32) -> (r: u64)
    requires
        attempt < SCREENSHOT_READ_ATTEMPTS,
    ensures
        r == 50 * (attempt + 1),
{
    50 * (attempt as u64 + 1)
}

} // verus!
