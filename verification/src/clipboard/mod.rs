//! Clipboard history: what is captured from the clipboard and how it is told
//! apart from the application's own copies.
pub mod dib;
pub mod payloads;
pub mod roundtrip;

use vstd::prelude::*;

use crate::brightness::hardware::{blake3_hex, blake3_hex_of};
use crate::clipboard::dib::{decoded_rgba, dib_layout, parse_dib_to_rgba};
use crate::imaging::{encode_png, lanczos_resize, png_data_url, png_data_url_of, png_encoding, resize_within};
use crate::text::{
    chars_of, contains, contains_char, has_infix, has_prefix, line_count, line_count_exec, owned,
    push_str, starts_with, str_eq, trim, trimmed_chars, lemma_trim_idempotent,
};

verus! {

/// A trimmed text that the history shows as a link.
pub open spec fn is_link_text(t: Seq<char>) -> bool {
    ||| has_prefix(t, "http://"@)
    ||| has_prefix(t, "https://"@)
    ||| has_prefix(t, "www."@) && !t.contains('\n')
}

/// A trimmed text that the history shows as code: braces, a keyword that
/// starts a definition, or more than two indented lines.
pub open spec fn is_code_text(t: Seq<char>) -> bool {
    ||| t.contains('{') && t.contains('}')
    ||| has_infix(t, "fn "@)
    ||| has_infix(t, "function "@)
    ||| has_infix(t, "const "@)
    ||| has_infix(t, "import "@)
    ||| has_infix(t, "class "@)
    ||| line_count(t) > 2 && (has_infix(t, "    "@) || t.contains('\t'))
}

/// The kind of a copied text: `link`, `code` or `text`, judged on the text
/// without surrounding white space.
pub open spec fn text_kind(s: Seq<char>) -> Seq<char> {
    let t = trim(s);
    if is_link_text(t) {
        "link"@
    } else if is_code_text(t) {
        "code"@
    } else {
        "text"@
    }
}

/// How copied text is classified: text that starts, once trimmed, with
/// `http://` or `https://`, or with `www.` on a single line, is a link
/// whatever follows; other text with a pair of braces is code; trimming the
/// text first changes nothing; and every text gets one of the three kinds.
pub proof fn lemma_text_kind_rules(s: Seq<char>)
    ensures
        has_prefix(trim(s), "http://"@) ==> text_kind(s) == "link"@,
        has_prefix(trim(s), "https://"@) ==> text_kind(s) == "link"@,
        has_prefix(trim(s), "www."@) && !trim(s).contains('\n') ==> text_kind(s) == "link"@,
        !has_prefix(trim(s), "http://"@) && !has_prefix(trim(s), "https://"@) && !has_prefix(trim(s), "www."@)
            && trim(s).contains('{') && trim(s).contains('}') ==> text_kind(s) == "code"@,
        text_kind(trim(s)) == text_kind(s),
        text_kind(s) == "link"@ || text_kind(s) == "code"@ || text_kind(s) == "text"@,
{
    lemma_trim_idempotent(s);
}

/// Classifies a copied text.
pub fn classify_text_content(text: &str) -> (r: String)
    ensures
        r@ == text_kind(text@),
{
    let t = trimmed_chars(text);
    if starts_with(&t, "http://") || starts_with(&t, "https://") || (starts_with(&t, "www.") && !contains_char(&t, '\n')) {
        return owned("link");
    }
    let braces = contains_char(&t, '{') && contains_char(&t, '}');
    let keyword = contains(&t, "fn ") || contains(&t, "function ") || contains(&t, "const ") || contains(&t, "import ")
        || contains(&t, "class ");
    let indented = line_count_exec(&t) > 2 && (contains(&t, "    ") || contains_char(&t, '\t'));
    if braces || keyword || indented {
        owned("code")
    } else {
        owned("text")
    }
}

/// What is recorded of one clipboard capture.
#[derive(Debug, Clone)]
pub struct ExtractedClipboard {
    /// `text`, `link`, `code` or `image`.
    pub content_type: String,
    pub text_content: Option<String>,
    pub char_count: Option<i64>,
    pub width: Option<u32>,
    pub height: Option<u32>,
    pub thumbnail_b64: Option<String>,
    /// Lowercase hexadecimal BLAKE3 digest of the content.
    pub hash: String,
}

/// The capture of a copied text, or `None` for a text that is only white
/// space. The digest is over the text's UTF-8 bytes.
pub fn extract_text_payload(text: String) -> (r: Option<ExtractedClipboard>)
    ensures
        r is None <==> trim(text@).len() == 0,
        r matches Some(e) ==> {
            &&& e.content_type@ == text_kind(text@)
            &&& e.text_content == Some(text)
            &&& e.char_count == Some(text@.len() as i64)
            &&& e.width is None && e.height is None && e.thumbnail_b64 is None
            &&& e.hash@ == blake3_hex(vstd::utf8::encode_utf8(text@))
        },
{
    let t = trimmed_chars(text.as_str());
    if t.len() == 0 {
        return None;
    }
    let hash = blake3_hex_of(text.as_str().as_bytes());
    let content_type = classify_text_content(text.as_str());
    let n = chars_of(text.as_str()).len();
    Some(ExtractedClipboard {
        content_type,
        text_content: Some(text),
        char_count: Some(n as i64),
        width: None,
        height: None,
        thumbnail_b64: None,
        hash,
    })
}

/// The largest thumbnail a captured image gets.
pub const THUMBNAIL_MAX_WIDTH: u32 = 440;

/// The largest thumbnail a captured image gets.
pub const THUMBNAIL_MAX_HEIGHT: u32 = 320;

/// The thumbnail of a decoded image: scaled to fit 440 x 320, encoded as PNG
/// (whatever the encoder wrote) and given as a `data:` URL.
pub open spec fn thumbnail_url(width: u32, height: u32, rgba: Seq<u8>) -> Seq<char> {
    let t = lanczos_resize(width, height, rgba, THUMBNAIL_MAX_WIDTH, THUMBNAIL_MAX_HEIGHT);
    png_data_url(png_encoding(t.0, t.1, t.2).1)
}

/// The capture of a copied bitmap together with the PNG bytes to store, or
/// `None` where the bitmap is refused or cannot be encoded. The digest is
/// over the PNG bytes.
pub fn extract_image_payload(dib: &[u8]) -> (r: Option<(ExtractedClipboard, Vec<u8>)>)
    ensures
        r is Some <==> dib_layout(dib@) is Some && {
            let l = dib_layout(dib@)->0;
            png_encoding(l.width, l.height, decoded_rgba(dib@, l)).0
        },
        r matches Some(v) ==> {
            let l = dib_layout(dib@)->0;
            let rgba = decoded_rgba(dib@, l);
            let e = v.0;
            &&& v.1@ == png_encoding(l.width, l.height, rgba).1
            &&& e.content_type@ == "image"@
            &&& e.text_content is None && e.char_count is None
            &&& e.width == Some(l.width) && e.height == Some(l.height)
            &&& e.thumbnail_b64 matches Some(t) && t@ == thumbnail_url(l.width, l.height, rgba)
            &&& e.hash@ == blake3_hex(v.1@)
        },
{
    let img = match parse_dib_to_rgba(dib) {
        Some(img) => img,
        None => return None,
    };
    proof {
        crate::clipboard::dib::lemma_decoded_len(dib@);
    }
    let (ok, png) = encode_png(img.width, img.height, &img.rgba);
    if !ok {
        return None;
    }
    let hash = blake3_hex_of(png.as_slice());
    let (tw, th, trgba) = resize_within(img.width, img.height, &img.rgba, THUMBNAIL_MAX_WIDTH, THUMBNAIL_MAX_HEIGHT);
    let (_, thumb_png) = encode_png(tw, th, &trgba);
    let thumb = png_data_url_of(thumb_png.as_slice());
    Some((
        ExtractedClipboard {
            content_type: owned("image"),
            text_content: None,
            char_count: None,
            width: Some(img.width),
            height: Some(img.height),
            thumbnail_b64: Some(thumb),
            hash,
        },
        png,
    ))
}

/// The name under which a captured image is stored: its digest and `.png`.
pub open spec fn image_file_name(hash: Seq<char>) -> Seq<char> {
    hash + ".png"@
}

/// The relative image path recorded for a capture: images only.
pub fn stored_image_path(e: &ExtractedClipboard) -> (r: Option<String>)
    ensures
        r is Some <==> e.content_type@ == "image"@,
        r matches Some(p) ==> p@ == image_file_name(e.hash@),
{
    if str_eq(e.content_type.as_str(), "image") {
        let mut p = owned(e.hash.as_str());
        push_str(&mut p, ".png");
        Some(p)
    } else {
        None
    }
}

/// Whether an update with this sequence number and content digest is the
/// application's own copy, given what the listener remembers.
pub open spec fn is_own_copy(own_seq: u32, own_hash: Seq<char>, current_seq: u32, content_hash: Seq<char>) -> bool {
    current_seq == own_seq || (own_hash.len() > 0 && own_hash == content_hash)
}

/// An own copy is recognised once: after it is claimed, a later update is
/// taken as the application's own only if its sequence number is 0.
pub proof fn lemma_own_copy_claimed_once(current_seq: u32, content_hash: Seq<char>)
    ensures
        is_own_copy(0, Seq::empty(), current_seq, content_hash) == (current_seq == 0),
{
}

/// What the clipboard listener remembers between updates: the sequence
/// number and digest of the application's own last copy, and whether the
/// listener runs.
pub struct ClipboardState {
    pub last_own_seq: u32,
    pub last_own_hash: String,
    pub is_running: bool,
}

impl ClipboardState {
    /// A listener that has not started and knows no own copy.
    pub fn new() -> (s: Self)
        ensures
            s.last_own_seq == 0,
            s.last_own_hash@.len() == 0,
            !s.is_running,
    {
        ClipboardState { last_own_seq: 0, last_own_hash: String::new(), is_running: false }
    }

    /// Remembers a copy the application made itself.
    pub fn set_own_copy(&mut self, seq: u32, hash: String)
        ensures
            final(self).last_own_seq == seq,
            final(self).last_own_hash == hash,
            final(self).is_running == old(self).is_running,
    {
        self.last_own_seq = seq;
        self.last_own_hash = hash;
    }

    /// Marks the listener as running; answers whether it already was, in
    /// which case no second listener is to be started.
    pub fn mark_running(&mut self) -> (was_running: bool)
        ensures
            was_running == old(self).is_running,
            final(self).is_running,
            final(self).last_own_seq == old(self).last_own_seq,
            final(self).last_own_hash == old(self).last_own_hash,
    {
        let was = self.is_running;
        self.is_running = true;
        was
    }

    /// Marks the listener as stopped.
    pub fn mark_stopped(&mut self)
        ensures
            !final(self).is_running,
            final(self).last_own_seq == old(self).last_own_seq,
            final(self).last_own_hash == old(self).last_own_hash,
    {
        self.is_running = false;
    }

    /// Decides whether a clipboard update is the application's own copy: its
    /// sequence number is the remembered one, or a remembered digest equals
    /// the content's. An own copy is answered once: the memory is cleared.
    pub fn claim_own_copy(&mut self, current_seq: u32, content_hash: &str) -> (own: bool)
        ensures
            own == is_own_copy(old(self).last_own_seq, old(self).last_own_hash@, current_seq, content_hash@),
            own ==> final(self).last_own_seq == 0 && final(self).last_own_hash@.len() == 0,
            !own ==> final(self).last_own_seq == old(self).last_own_seq && final(self).last_own_hash == old(self).last_own_hash,
            final(self).is_running == old(self).is_running,
    {
        let own = current_seq == self.last_own_seq || (self.last_own_hash.as_str().unicode_len() > 0 && str_eq(
            self.last_own_hash.as_str(),
            content_hash,
        ));
        if own {
            self.last_own_seq = 0;
            self.last_own_hash = String::new();
        }
        own
    }
}


/// Paths joined with `|`.
pub open spec fn joined_paths(paths: Seq<Seq<char>>) -> Seq<char>
    decreases paths.len(),
{
    if paths.len() == 0 {
        Seq::empty()
    } else if paths.len() == 1 {
        paths[0]
    } else {
        joined_paths(paths.drop_last()) + "|"@ + paths.last()
    }
}

/// The digest under which a copy of files is remembered as the
/// application's own: that of the paths joined with `|`.
pub fn files_copy_hash(paths: &Vec<String>) -> (r: String)
    ensures
        r@ == blake3_hex(vstd::utf8::encode_utf8(joined_paths(paths@.map_values(|p: String| p@)))),
{
    let ghost ps = paths@.map_values(|p: String| p@);
    let mut s = String::new();
    let mut i: usize = 0;
    while i < paths.len()
        invariant
            i <= paths@.len(),
            ps == paths@.map_values(|p: String| p@),
            s@ == joined_paths(ps.take(i as int)),
        decreases paths.len() - i,
    {
        if i > 0 {
            push_str(&mut s, "|");
        }
        push_str(&mut s, paths[i].as_str());
        proof {
            assert(ps.take(i + 1).drop_last() =~= ps.take(i as int));
            if i == 0 {
                assert(s@ =~= joined_paths(ps.take(1)));
            }
        }
        i = i + 1;
    }
    assert(ps.take(paths@.len() as int) =~= ps);
    blake3_hex_of(s.as_str().as_bytes())
}

/// The digest under which a copy of an image file is remembered as the
/// application's own: that of the file's bytes.
pub fn image_copy_hash(bytes: &[u8]) -> (r: String)
    ensures
        r@ == blake3_hex(bytes@),
{
    blake3_hex_of(bytes)
}

/// The digest under which a copy of text is remembered as the
/// application's own: that of its UTF-8 bytes.
pub fn text_copy_hash(text: &str) -> (r: String)
    ensures
        r@ == blake3_hex(vstd::utf8::encode_utf8(text@)),
{
    blake3_hex_of(text.as_bytes())
}

} // verus!
