//! Recent folders: reading the location of an Explorer window and noticing
//! which windows were closed since the last look.
use vstd::prelude::*;

use crate::text::{
    chars_of, contains_char, has_prefix, owned, push_char, push_str, starts_with,
    string_of_range, trim, trimmed_chars,
};

verus! {

/// What `String::from_utf8_lossy` makes of a byte sequence.
pub uninterp spec fn utf8_lossy(bytes: Seq<u8>) -> Seq<char>;

/// `String::from_utf8_lossy(bytes).into_owned()`. Its documentation gives
/// that valid UTF-8 decodes to its characters; what it makes of invalid
/// sequences (one U+FFFD per maximal invalid part) is only named here.
#[verifier::external_body]
fn from_utf8_lossy(bytes: &[u8]) -> (r: String)
    ensures
        r@ == utf8_lossy(bytes@),
        vstd::utf8::valid_utf8(bytes@) ==> r@ == vstd::utf8::decode_utf8(bytes@),
{
    String::from_utf8_lossy(bytes).into_owned()
}

/// The value of an ASCII hexadecimal digit.
pub open spec fn hex_value(b: u8) -> Option<u8> {
    if 48 <= b <= 57 {
        Some((b - 48) as u8)
    } else if 97 <= b <= 102 {
        Some((b - 87) as u8)
    } else if 65 <= b <= 70 {
        Some((b - 55) as u8)
    } else {
        None
    }
}

/// Percent-decoding of bytes: `%` followed by two hexadecimal digits stands
/// for the byte they spell; every other byte stands for itself.
pub open spec fn percent_decoded(b: Seq<u8>) -> Seq<u8>
    decreases b.len(),
{
    if b.len() == 0 {
        Seq::empty()
    } else if b[0] == 37 && b.len() > 2 && hex_value(b[1]) is Some && hex_value(b[2]) is Some {
        seq![(hex_value(b[1])->0 * 16 + hex_value(b[2])->0) as u8] + percent_decoded(b.skip(3))
    } else {
        seq![b[0]] + percent_decoded(b.skip(1))
    }
}

/// A URL component decoded: percent escapes resolved over its UTF-8 bytes,
/// then read back as text.
pub open spec fn url_decoded(s: Seq<char>) -> Seq<char> {
    utf8_lossy(percent_decoded(vstd::utf8::encode_utf8(s)))
}

fn hex_digit(b: u8) -> (r: Option<u8>)
    ensures
        r == hex_value(b),
{
    if 48 <= b && b <= 57 {
        Some(b - 48)
    } else if 97 <= b && b <= 102 {
        Some(b - 87)
    } else if 65 <= b && b <= 70 {
        Some(b - 55)
    } else {
        None
    }
}

/// Decodes percent escapes in a URL component.
pub fn url_decode(input: &str) -> (r: String)
    ensures
        r@ == url_decoded(input@),
{
    let bytes = input.as_bytes();
    let ghost b = bytes@;
    let mut out: Vec<u8> = Vec::new();
    let mut i: usize = 0;
    assert(b.skip(0) =~= b);
    while i < bytes.len()
        invariant
            b == bytes@,
            i <= b.len(),
            percent_decoded(b) == out@ + percent_decoded(b.skip(i as int)),
        decreases b.len() - i,
    {
        let ghost rest = b.skip(i as int);
        if bytes[i] == 37 && bytes.len() - i > 2 {
            let h1 = hex_digit(bytes[i + 1]);
            let h2 = hex_digit(bytes[i + 2]);
            if let (Some(d1), Some(d2)) = (h1, h2) {
                assert(rest[0] == 37 && rest[1] == bytes@[i + 1] && rest[2] == bytes@[i + 2]);
                assert(rest.skip(3) =~= b.skip(i + 3));
                out.push(d1 * 16 + d2);
                assert(percent_decoded(b) == out@ + percent_decoded(b.skip(i + 3)));
                i = i + 3;
                continue;
            }
        }
        assert(rest[0] == bytes@[i as int]);
        assert(rest.skip(1) =~= b.skip(i + 1));
        out.push(bytes[i]);
        assert(percent_decoded(b) == out@ + percent_decoded(b.skip(i + 1)));
        i = i + 1;
    }
    assert(b.skip(b.len() as int) =~= Seq::<u8>::empty());
    assert(out@ =~= percent_decoded(b));
    from_utf8_lossy(out.as_slice())
}

/// Forward slashes turned into backslashes.
pub open spec fn backslashed(s: Seq<char>) -> Seq<char> {
    s.map_values(|c: char| if c == '/' { '\\' } else { c })
}

fn backslash_chars(cs: &Vec<char>, from: usize) -> (r: String)
    requires
        from <= cs@.len(),
    ensures
        r@ == backslashed(cs@.skip(from as int)),
{
    let mut r = String::new();
    let mut i = from;
    while i < cs.len()
        invariant
            from <= i <= cs@.len(),
            r@ == backslashed(cs@.subrange(from as int, i as int)),
        decreases cs.len() - i,
    {
        let c = cs[i];
        push_char(&mut r, if c == '/' { '\\' } else { c });
        assert(cs@.subrange(from as int, i + 1) =~= cs@.subrange(from as int, i as int).push(c));
        assert(backslashed(cs@.subrange(from as int, i + 1)) =~= backslashed(cs@.subrange(from as int, i as int)).push(
            if c == '/' { '\\' } else { c },
        ));
        i = i + 1;
    }
    assert(cs@.subrange(from as int, cs@.len() as int) =~= cs@.skip(from as int));
    r
}

/// Leading copies of `c` removed.
pub open spec fn without_leading(s: Seq<char>, c: char) -> Seq<char>
    decreases s.len(),
{
    if s.len() > 0 && s[0] == c {
        without_leading(s.drop_first(), c)
    } else {
        s
    }
}

fn strip_leading(cs: &Vec<char>, c: char) -> (r: String)
    ensures
        r@ == without_leading(cs@, c),
{
    let mut lo: usize = 0;
    assert(cs@.skip(0) =~= cs@);
    while lo < cs.len() && cs[lo] == c
        invariant
            lo <= cs@.len(),
            without_leading(cs@, c) == without_leading(cs@.skip(lo as int), c),
        decreases cs.len() - lo,
    {
        assert(cs@.skip(lo as int).drop_first() =~= cs@.skip(lo + 1));
        lo = lo + 1;
    }
    assert(cs@.skip(lo as int) =~= cs@.subrange(lo as int, cs@.len() as int));
    string_of_range(cs, lo, cs.len())
}

/// The folder an Explorer window shows, from its location URL and its
/// location name: a `file:` URL decoded into a Windows path (UNC paths keep or
/// gain their leading `\\`), any other URL that is not a web or `shell:`
/// location as it stands, else a name that looks like a path, else empty.
pub open spec fn explorer_path(url: Seq<char>, name: Seq<char>) -> Seq<char> {
    if has_prefix(url, "file:///"@) {
        let d = url_decoded(backslashed(url.skip(8)));
        if has_prefix(d, "\\\\"@) {
            d
        } else if has_prefix(d, "\\"@) && !d.contains(':') {
            "\\"@ + d
        } else {
            d
        }
    } else if has_prefix(url, "file://"@) {
        let d = url_decoded(backslashed(url.skip(7)));
        if has_prefix(d, "\\\\"@) {
            d
        } else {
            "\\\\"@ + without_leading(d, '\\')
        }
    } else if url.len() > 0 && !has_prefix(url, "http"@) && !has_prefix(url, "shell:"@) {
        url
    } else if name.len() > 0 && !has_prefix(name, "shell:"@) && (name.contains('\\') || name.contains(':')) {
        name
    } else {
        Seq::empty()
    }
}

/// Reads the folder of an Explorer window from its location URL and name.
pub fn parse_explorer_url_or_path(url: &str, name: &str) -> (r: String)
    ensures
        r@ == explorer_path(url@, name@),
{
    let u = chars_of(url);
    proof {
        reveal_strlit("file:///");
        reveal_strlit("file://");
    }
    if starts_with(&u, "file:///") {
        let raw = backslash_chars(&u, 8);
        let d = url_decode(raw.as_str());
        let dv = chars_of(d.as_str());
        if starts_with(&dv, "\\\\") {
            d
        } else if starts_with(&dv, "\\") && !contains_char(&dv, ':') {
            let mut r = owned("\\");
            push_str(&mut r, d.as_str());
            r
        } else {
            d
        }
    } else if starts_with(&u, "file://") {
        let raw = backslash_chars(&u, 7);
        let d = url_decode(raw.as_str());
        let dv = chars_of(d.as_str());
        if starts_with(&dv, "\\\\") {
            d
        } else {
            let mut r = owned("\\\\");
            let rest = strip_leading(&dv, '\\');
            push_str(&mut r, rest.as_str());
            r
        }
    } else if u.len() > 0 && !starts_with(&u, "http") && !starts_with(&u, "shell:") {
        owned(url)
    } else {
        let n = chars_of(name);
        if n.len() > 0 && !starts_with(&n, "shell:") && (contains_char(&n, '\\') || contains_char(&n, ':')) {
            owned(name)
        } else {
            String::new()
        }
    }
}

/// A path worth remembering as a recent folder: after trimming, a drive path
/// (`X:` first) or a UNC path (`\\` first).
pub open spec fn valid_folder_path(path: Seq<char>) -> bool {
    let t = trim(path);
    t.len() > 0 && ((t.len() >= 2 && t[1] == ':') || has_prefix(t, "\\\\"@))
}

/// Decides whether a path is a drive or UNC folder path.
pub fn is_valid_folder_path(path: &str) -> (r: bool)
    ensures
        r == valid_folder_path(path@),
{
    let t = trimmed_chars(path);
    if t.len() == 0 {
        return false;
    }
    let is_drive = t.len() >= 2 && t[1] == ':';
    let is_unc = starts_with(&t, "\\\\");
    is_drive || is_unc
}

/// Two entries of a window list never share a key.
pub open spec fn keys_distinct(s: Seq<(Seq<char>, Seq<char>)>) -> bool {
    forall|i: int, j: int| 0 <= i < j < s.len() ==> s[i].0 != s[j].0
}

/// The list has an entry under key `k`.
pub open spec fn has_key(s: Seq<(Seq<char>, Seq<char>)>, k: Seq<char>) -> bool {
    exists|i: int| 0 <= i < s.len() && #[trigger] s[i].0 == k
}

/// Open Explorer windows and tabs: an identity key for each, with the folder
/// it shows, kept in insertion order. A key occurs at most once.
pub struct WindowMap {
    entries: Vec<(String, String)>,
}

impl View for WindowMap {
    type V = Seq<(Seq<char>, Seq<char>)>;

    closed spec fn view(&self) -> Seq<(Seq<char>, Seq<char>)> {
        self.entries@.map_values(|e: (String, String)| (e.0@, e.1@))
    }
}

impl WindowMap {
    #[verifier::type_invariant]
    spec fn distinct_keys(self) -> bool {
        keys_distinct(self@)
    }

    /// No windows.
    pub fn new() -> (m: Self)
        ensures
            m@ == Seq::<(Seq<char>, Seq<char>)>::empty(),
    {
        let m = WindowMap { entries: Vec::new() };
        assert(m@ =~= Seq::<(Seq<char>, Seq<char>)>::empty());
        m
    }

    fn position(&self, key: &str) -> (r: Option<usize>)
        ensures
            r matches Some(i) ==> i < self@.len() && self@[i as int].0 == key@,
            r is None <==> !has_key(self@, key@),
    {
        let mut i: usize = 0;
        while i < self.entries.len()
            invariant
                i <= self@.len(),
                self@.len() == self.entries@.len(),
                forall|j: int| 0 <= j < i ==> self@[j].0 != key@,
            decreases self.entries.len() - i,
        {
            if crate::text::str_eq(self.entries[i].0.as_str(), key) {
                assert(self@[i as int].0 == key@);
                return Some(i);
            }
            i = i + 1;
        }
        None
    }

    /// The folder shown under `key`.
    pub fn get(&self, key: &str) -> (r: Option<&String>)
        ensures
            r is Some <==> has_key(self@, key@),
            r matches Some(v) ==> exists|i: int| 0 <= i < self@.len() && self@[i].0 == key@ && self@[i].1 == v@,
    {
        match self.position(key) {
            Some(i) => Some(&self.entries[i].1),
            None => None,
        }
    }

    /// Number of windows.
    pub fn len(&self) -> (n: usize)
        ensures
            n == self@.len(),
    {
        self.entries.len()
    }

    /// No window is listed.
    pub fn is_empty(&self) -> (b: bool)
        ensures
            b == (self@.len() == 0),
    {
        self.entries.len() == 0
    }

    /// Records the folder a window shows: the entry of a known key is updated
    /// in place, a new key is appended.
    pub fn insert(&mut self, key: String, folder: String)
        ensures
            has_key(old(self)@, key@) ==> exists|i: int| 0 <= i < old(self)@.len() && old(self)@[i].0 == key@
                && final(self)@ == old(self)@.update(i, (key@, folder@)),
            !has_key(old(self)@, key@) ==> final(self)@ == old(self)@.push((key@, folder@)),
    {
        proof {
            use_type_invariant(&*self);
        }
        let pos = self.position(key.as_str());
        let ghost before = self@;
        let mut entries: Vec<(String, String)> = Vec::new();
        std::mem::swap(&mut entries, &mut self.entries);
        assert(entries@.map_values(|e: (String, String)| (e.0@, e.1@)) == before);
        match pos {
            Some(i) => {
                entries.set(i, (key, folder));
                let ghost after = entries@.map_values(|e: (String, String)| (e.0@, e.1@));
                assert(after =~= before.update(i as int, (key@, folder@)));
            },
            None => {
                entries.push((key, folder));
                let ghost after = entries@.map_values(|e: (String, String)| (e.0@, e.1@));
                assert(after =~= before.push((key@, folder@)));
            },
        }
        self.entries = entries;
    }

    fn copy(&self) -> (r: Self)
        ensures
            r@ == self@,
    {
        proof {
            use_type_invariant(self);
        }
        let mut entries: Vec<(String, String)> = Vec::new();
        let mut i: usize = 0;
        while i < self.entries.len()
            invariant
                i <= self.entries@.len(),
                keys_distinct(self@),
                self@.len() == self.entries@.len(),
                entries@.len() == i,
                forall|j: int| 0 <= j < i ==> (entries@[j].0@, entries@[j].1@) == #[trigger] self@[j],
            decreases self.entries.len() - i,
        {
            let k = self.entries[i].0.clone();
            let v = self.entries[i].1.clone();
            entries.push((k, v));
            i = i + 1;
        }
        assert(entries@.map_values(|e: (String, String)| (e.0@, e.1@)) =~= self@);
        WindowMap { entries }
    }
}

/// The folders of the windows in `known` whose keys are gone from `current`,
/// in the order of `known`, kept only where they are drive or UNC paths.
pub open spec fn closed_folders(known: Seq<(Seq<char>, Seq<char>)>, current: Seq<(Seq<char>, Seq<char>)>) -> Seq<Seq<char>>
    decreases known.len(),
{
    if known.len() == 0 {
        Seq::empty()
    } else {
        let prev = closed_folders(known.drop_last(), current);
        let e = known.last();
        if !has_key(current, e.0) && valid_folder_path(e.1) {
            prev.push(e.1)
        } else {
            prev
        }
    }
}

/// Compares the windows open now with those known before: reports the
/// folders of the windows that closed, and makes the known windows the
/// current ones (a window that navigated keeps its key and shows its new
/// folder, so navigating is no close).
pub fn detect_closed_explorer_windows(known: &mut WindowMap, current: &WindowMap) -> (closed: Vec<String>)
    ensures
        final(known)@ == current@,
        closed@.map_values(|p: String| p@) == closed_folders(old(known)@, current@),
{
    let ghost k0 = known@;
    let mut closed: Vec<String> = Vec::new();
    let n = known.entries.len();
    let mut i: usize = 0;
    while i < n
        invariant
            n == known.entries@.len(),
            known@ == k0,
            k0.len() == n,
            i <= n,
            closed@.map_values(|p: String| p@) == closed_folders(k0.take(i as int), current@),
        decreases n - i,
    {
        let ghost before = closed@;
        assert(k0.take(i + 1).drop_last() =~= k0.take(i as int));
        let key = &known.entries[i].0;
        let folder = &known.entries[i].1;
        assert(k0[i as int] == (key@, folder@));
        let gone = current.position(key.as_str()).is_none();
        if gone && is_valid_folder_path(folder.as_str()) {
            closed.push(folder.clone());
            assert(closed@.map_values(|p: String| p@) =~= before.map_values(|p: String| p@).push(folder@));
        }
        i = i + 1;
    }
    assert(k0.take(n as int) =~= k0);
    *known = current.copy();
    closed
}


/// Navigating inside open windows closes nothing: when every known window
/// is still open, no folder is reported closed.
pub proof fn lemma_navigation_is_no_close(known: Seq<(Seq<char>, Seq<char>)>, current: Seq<(Seq<char>, Seq<char>)>)
    requires
        forall|i: int| 0 <= i < known.len() ==> has_key(current, #[trigger] known[i].0),
    ensures
        closed_folders(known, current) == Seq::<Seq<char>>::empty(),
    decreases known.len(),
{
    if known.len() > 0 {
        let d = known.drop_last();
        assert forall|i: int| 0 <= i < d.len() implies has_key(current, #[trigger] d[i].0) by {
            assert(d[i] == known[i]);
        }
        lemma_navigation_is_no_close(d, current);
        assert(has_key(current, known[known.len() - 1].0));
    }
}

/// A window that closed is reported with the folder it showed last: the
/// folders reported for windows that all closed are their folders, in order
/// (drive and UNC paths only).
pub proof fn lemma_all_closed_report_last_folders(known: Seq<(Seq<char>, Seq<char>)>)
    requires
        forall|i: int| 0 <= i < known.len() ==> valid_folder_path(#[trigger] known[i].1),
    ensures
        closed_folders(known, Seq::empty()) == known.map_values(|e: (Seq<char>, Seq<char>)| e.1),
    decreases known.len(),
{
    if known.len() > 0 {
        let d = known.drop_last();
        assert forall|i: int| 0 <= i < d.len() implies valid_folder_path(#[trigger] d[i].1) by {
            assert(d[i] == known[i]);
        }
        lemma_all_closed_report_last_folders(d);
        assert(!has_key(Seq::<(Seq<char>, Seq<char>)>::empty(), known.last().0));
        assert(valid_folder_path(known[known.len() - 1].1));
        assert(known.map_values(|e: (Seq<char>, Seq<char>)| e.1) =~= d.map_values(|e: (Seq<char>, Seq<char>)| e.1).push(known.last().1));
    }
}


/// A window class of Explorer or of the shell.
pub open spec fn is_explorer_class(c: Seq<char>) -> bool {
    c == "CabinetWClass"@ || c == "ExploreWClass"@ || c == "Progman"@ || c == "WorkerW"@ || c == "Shell_TrayWnd"@
}

/// Decides whether a window class belongs to Explorer or the shell.
pub fn explorer_window_class(class_name: &str) -> (r: bool)
    ensures
        r == is_explorer_class(class_name@),
{
    crate::text::str_eq(class_name, "CabinetWClass") || crate::text::str_eq(class_name, "ExploreWClass")
        || crate::text::str_eq(class_name, "Progman") || crate::text::str_eq(class_name, "WorkerW")
        || crate::text::str_eq(class_name, "Shell_TrayWnd")
}

/// A process name that is Explorer's, compared in lower case.
pub open spec fn is_explorer_process(name: Seq<char>) -> bool {
    let l = crate::text::lowercase(name);
    l == "explorer.exe"@ || l == "explorer"@
}

/// Decides whether a process is Explorer.
pub fn explorer_process_name(name: &str) -> (r: bool)
    ensures
        r == is_explorer_process(name@),
{
    let l = crate::text::to_lowercase(name);
    crate::text::str_eq(l.as_str(), "explorer.exe") || crate::text::str_eq(l.as_str(), "explorer")
}

/// How long after Explorer was last in front a new shortcut still counts as
/// opened from it, in milliseconds.
pub const EXPLORER_GRACE_MS: u64 = 3000;

/// A new entry of the Recent folder is followed when Explorer is in front
/// or was less than three seconds ago.
pub fn follows_explorer_activity(explorer_active: bool, since_active_ms: u64) -> (r: bool)
    ensures
        r == (explorer_active || since_active_ms <= EXPLORER_GRACE_MS),
{
    explorer_active || since_active_ms <= EXPLORER_GRACE_MS
}

/// The shortcut was not seen before, or was modified since.
pub open spec fn shortcut_is_new(s: Seq<(Seq<char>, u128)>, path: Seq<char>, mtime: u128) -> bool {
    forall|i: int| 0 <= i < s.len() && s[i].0 == path ==> #[trigger] s[i].1 < mtime
}

/// The modification times of the shortcuts seen in the Recent folder; a
/// path occurs at most once.
pub struct ShortcutTimes {
    entries: Vec<(String, u128)>,
}

impl View for ShortcutTimes {
    type V = Seq<(Seq<char>, u128)>;

    closed spec fn view(&self) -> Seq<(Seq<char>, u128)> {
        self.entries@.map_values(|e: (String, u128)| (e.0@, e.1))
    }
}

/// No path occurs twice.
pub open spec fn shortcut_paths_distinct(s: Seq<(Seq<char>, u128)>) -> bool {
    forall|i: int, j: int| 0 <= i < j < s.len() ==> s[i].0 != s[j].0
}

impl ShortcutTimes {
    #[verifier::type_invariant]
    spec fn distinct(self) -> bool {
        shortcut_paths_distinct(self@)
    }

    /// Nothing seen yet.
    pub fn new() -> (t: Self)
        ensures
            t@ == Seq::<(Seq<char>, u128)>::empty(),
    {
        let t = ShortcutTimes { entries: Vec::new() };
        assert(t@ =~= Seq::<(Seq<char>, u128)>::empty());
        t
    }

    /// Records a shortcut with its modification time: answers whether it is
    /// new or changed, and only then remembers the time (updated in place or
    /// appended).
    pub fn observe(&mut self, path: &str, mtime: u128) -> (is_new: bool)
        ensures
            is_new == shortcut_is_new(old(self)@, path@, mtime),
            !is_new ==> final(self)@ == old(self)@,
            is_new ==> (exists|i: int| 0 <= i < old(self)@.len() && old(self)@[i].0 == path@
                && final(self)@ == old(self)@.update(i, (path@, mtime)))
                || ((forall|i: int| 0 <= i < old(self)@.len() ==> old(self)@[i].0 != path@)
                && final(self)@ == old(self)@.push((path@, mtime))),
    {
        proof {
            use_type_invariant(&*self);
        }
        let ghost old_v = self@;
        let mut pos: Option<usize> = None;
        let mut i: usize = 0;
        while i < self.entries.len()
            invariant
                i <= old_v.len(),
                old_v == self@,
                old_v.len() == self.entries@.len(),
                shortcut_paths_distinct(old_v),
                pos is None ==> forall|j: int| 0 <= j < i ==> old_v[j].0 != path@,
                pos matches Some(k) ==> k < old_v.len() && old_v[k as int].0 == path@,
            decreases self.entries.len() - i,
        {
            if pos.is_none() && crate::text::str_eq(self.entries[i].0.as_str(), path) {
                pos = Some(i);
            }
            i = i + 1;
        }
        if let Some(k) = pos {
            if !(self.entries[k].1 < mtime) {
                assert(old_v[k as int].1 == self.entries@[k as int].1);
                assert(!(old_v[k as int].1 < mtime));
                assert(!shortcut_is_new(old_v, path@, mtime));
                return false;
            }
            assert forall|j: int| 0 <= j < old_v.len() && old_v[j].0 == path@ implies #[trigger] old_v[j].1 < mtime by {
                if j != k {
                    assert(old_v[j].0 != old_v[k as int].0);
                }
            }
        }
        let mut entries: Vec<(String, u128)> = Vec::new();
        std::mem::swap(&mut entries, &mut self.entries);
        assert(entries@.map_values(|e: (String, u128)| (e.0@, e.1)) == old_v);
        match pos {
            Some(k) => {
                entries.set(k, (crate::text::owned(path), mtime));
                let ghost after = entries@.map_values(|e: (String, u128)| (e.0@, e.1));
                assert(after =~= old_v.update(k as int, (path@, mtime)));
                assert forall|a: int, b: int| 0 <= a < b < after.len() implies after[a].0 != after[b].0 by {
                    assert(after[a].0 == old_v[a].0 && after[b].0 == old_v[b].0);
                }
            },
            None => {
                entries.push((crate::text::owned(path), mtime));
                let ghost after = entries@.map_values(|e: (String, u128)| (e.0@, e.1));
                assert(after =~= old_v.push((path@, mtime)));
                assert forall|a: int, b: int| 0 <= a < b < after.len() implies after[a].0 != after[b].0 by {
                    if b == old_v.len() {
                        assert(after[a].0 == old_v[a].0);
                    } else {
                        assert(after[a].0 == old_v[a].0 && after[b].0 == old_v[b].0);
                    }
                }
            },
        }
        self.entries = entries;
        true
    }
}


/// One request to the shell's image factory: the side of the square image,
/// and whether only the icon is wanted (else a larger image may come).
#[derive(Debug, Clone, Copy, PartialEq, Eq, Structural)]
pub struct ThumbnailAttempt {
    pub size: u32,
    pub icon_only: bool,
}

/// The requests tried in order for a thumbnail, until one yields an image:
/// a folder gets its icon at 256 then 128; a file its picture at 256 (or
/// larger) then its icon at 128.
pub fn shell_thumbnail_attempts(is_dir: bool) -> (r: Vec<ThumbnailAttempt>)
    ensures
        r@.len() == 2,
        r@[0] == (ThumbnailAttempt { size: 256, icon_only: is_dir }),
        r@[1] == (ThumbnailAttempt { size: 128, icon_only: true }),
{
    let mut r = Vec::new();
    r.push(ThumbnailAttempt { size: 256, icon_only: is_dir });
    r.push(ThumbnailAttempt { size: 128, icon_only: true });
    r
}

} // verus!
