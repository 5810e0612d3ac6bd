//! Global hotkeys: key-code normalisation, shortcut parsing and validation,
//! and the decisions around registering and updating hotkeys.
use vstd::prelude::*;

use crate::brightness::model::BrightnessPreferences;
use crate::text::{
    all_ascii, ascii_lower, ascii_lowered, is_ws, lowers_as_ascii, lemma_dec_digits, lemma_parse_u32_body,
    lemma_trim_idempotent, lemma_trim_of_solid, ascii_upper, chars_eq_str, chars_of, dec, eq_ignore_ascii_case,
    eq_ignore_case, has_prefix, is_ascii_alpha, is_ascii_digit, is_ascii_upper, lowercase, owned,
    parse_u32, parse_u32_spec, push_char, push_decimal, push_str, string_of, to_ascii_upper,
    to_lowercase, trim, trimmed_chars,
};
use crate::types::{AppSettings, ShortcutSpec};

verus! {

pub open spec fn key_alias(s: Seq<char>) -> Option<Seq<char>> {
    if s == "up"@ || s == "arrowup"@ {
        Some("ArrowUp"@)
    } else if s == "down"@ || s == "arrowdown"@ {
        Some("ArrowDown"@)
    } else if s == "left"@ || s == "arrowleft"@ {
        Some("ArrowLeft"@)
    } else if s == "right"@ || s == "arrowright"@ {
        Some("ArrowRight"@)
    } else if s == "pageup"@ {
        Some("PageUp"@)
    } else if s == "pagedown"@ {
        Some("PageDown"@)
    } else if s == "home"@ {
        Some("Home"@)
    } else if s == "end"@ {
        Some("End"@)
    } else if s == "space"@ {
        Some("Space"@)
    } else if s == "enter"@ {
        Some("Enter"@)
    } else if s == "tab"@ {
        Some("Tab"@)
    } else if s == "backspace"@ {
        Some("Backspace"@)
    } else if s == "del"@ || s == "delete"@ {
        Some("Delete"@)
    } else if s == "ins"@ || s == "insert"@ {
        Some("Insert"@)
    } else if s == "esc"@ || s == "escape"@ {
        Some("Escape"@)
    } else if s == "equal"@ || s == "="@ {
        Some("Equal"@)
    } else if s == "minus"@ || s == "-"@ {
        Some("Minus"@)
    } else if s == "bracketleft"@ || s == "["@ {
        Some("BracketLeft"@)
    } else if s == "bracketright"@ || s == "]"@ {
        Some("BracketRight"@)
    } else if s == "backslash"@ || s == "\\"@ {
        Some("Backslash"@)
    } else if s == "semicolon"@ || s == ";"@ {
        Some("Semicolon"@)
    } else if s == "quote"@ || s == "'"@ {
        Some("Quote"@)
    } else if s == "comma"@ || s == ","@ {
        Some("Comma"@)
    } else if s == "period"@ || s == "."@ {
        Some("Period"@)
    } else if s == "slash"@ || s == "/"@ {
        Some("Slash"@)
    } else if s == "backquote"@ || s == "`"@ {
        Some("Backquote"@)
    } else if s == "numpad0"@ {
        Some("Numpad0"@)
    } else if s == "numpad1"@ {
        Some("Numpad1"@)
    } else if s == "numpad2"@ {
        Some("Numpad2"@)
    } else if s == "numpad3"@ {
        Some("Numpad3"@)
    } else if s == "numpad4"@ {
        Some("Numpad4"@)
    } else if s == "numpad5"@ {
        Some("Numpad5"@)
    } else if s == "numpad6"@ {
        Some("Numpad6"@)
    } else if s == "numpad7"@ {
        Some("Numpad7"@)
    } else if s == "numpad8"@ {
        Some("Numpad8"@)
    } else if s == "numpad9"@ {
        Some("Numpad9"@)
    } else if s == "numpadadd"@ {
        Some("NumpadAdd"@)
    } else if s == "numpadsubtract"@ {
        Some("NumpadSubtract"@)
    } else if s == "numpadmultiply"@ {
        Some("NumpadMultiply"@)
    } else if s == "numpaddivide"@ {
        Some("NumpadDivide"@)
    } else if s == "numpaddecimal"@ {
        Some("NumpadDecimal"@)
    } else if s == "numpadenter"@ {
        Some("NumpadEnter"@)
    } else if s == "numpadequal"@ {
        Some("NumpadEqual"@)
    } else {
        None
    }
}

/// Every code an alias gives is ASCII, has no white space at either end, and
/// is given again by the alias of its ASCII-lowered form.
proof fn lemma_alias_code_stable(k: Seq<char>)
    requires
        key_alias(k) is Some,
    ensures
        key_alias(k)->0.len() > 0,
        all_ascii(key_alias(k)->0),
        !is_ws(key_alias(k)->0[0]),
        !is_ws(key_alias(k)->0.last()),
        key_alias(ascii_lowered(key_alias(k)->0)) == key_alias(k),
{
    reveal_strlit("up");
    reveal_strlit("arrowup");
    reveal_strlit("ArrowUp");
    reveal_strlit("down");
    reveal_strlit("arrowdown");
    reveal_strlit("ArrowDown");
    reveal_strlit("left");
    reveal_strlit("arrowleft");
    reveal_strlit("ArrowLeft");
    reveal_strlit("right");
    reveal_strlit("arrowright");
    reveal_strlit("ArrowRight");
    reveal_strlit("pageup");
    reveal_strlit("PageUp");
    reveal_strlit("pagedown");
    reveal_strlit("PageDown");
    reveal_strlit("home");
    reveal_strlit("Home");
    reveal_strlit("end");
    reveal_strlit("End");
    reveal_strlit("space");
    reveal_strlit("Space");
    reveal_strlit("enter");
    reveal_strlit("Enter");
    reveal_strlit("tab");
    reveal_strlit("Tab");
    reveal_strlit("backspace");
    reveal_strlit("Backspace");
    reveal_strlit("del");
    reveal_strlit("delete");
    reveal_strlit("Delete");
    reveal_strlit("ins");
    reveal_strlit("insert");
    reveal_strlit("Insert");
    reveal_strlit("esc");
    reveal_strlit("escape");
    reveal_strlit("Escape");
    reveal_strlit("equal");
    reveal_strlit("=");
    reveal_strlit("Equal");
    reveal_strlit("minus");
    reveal_strlit("-");
    reveal_strlit("Minus");
    reveal_strlit("bracketleft");
    reveal_strlit("[");
    reveal_strlit("BracketLeft");
    reveal_strlit("bracketright");
    reveal_strlit("]");
    reveal_strlit("BracketRight");
    reveal_strlit("backslash");
    reveal_strlit("\\");
    reveal_strlit("Backslash");
    reveal_strlit("semicolon");
    reveal_strlit(";");
    reveal_strlit("Semicolon");
    reveal_strlit("quote");
    reveal_strlit("'");
    reveal_strlit("Quote");
    reveal_strlit("comma");
    reveal_strlit(",");
    reveal_strlit("Comma");
    reveal_strlit("period");
    reveal_strlit(".");
    reveal_strlit("Period");
    reveal_strlit("slash");
    reveal_strlit("/");
    reveal_strlit("Slash");
    reveal_strlit("backquote");
    reveal_strlit("`");
    reveal_strlit("Backquote");
    reveal_strlit("numpad0");
    reveal_strlit("Numpad0");
    reveal_strlit("numpad1");
    reveal_strlit("Numpad1");
    reveal_strlit("numpad2");
    reveal_strlit("Numpad2");
    reveal_strlit("numpad3");
    reveal_strlit("Numpad3");
    reveal_strlit("numpad4");
    reveal_strlit("Numpad4");
    reveal_strlit("numpad5");
    reveal_strlit("Numpad5");
    reveal_strlit("numpad6");
    reveal_strlit("Numpad6");
    reveal_strlit("numpad7");
    reveal_strlit("Numpad7");
    reveal_strlit("numpad8");
    reveal_strlit("Numpad8");
    reveal_strlit("numpad9");
    reveal_strlit("Numpad9");
    reveal_strlit("numpadadd");
    reveal_strlit("NumpadAdd");
    reveal_strlit("numpadsubtract");
    reveal_strlit("NumpadSubtract");
    reveal_strlit("numpadmultiply");
    reveal_strlit("NumpadMultiply");
    reveal_strlit("numpaddivide");
    reveal_strlit("NumpadDivide");
    reveal_strlit("numpaddecimal");
    reveal_strlit("NumpadDecimal");
    reveal_strlit("numpadenter");
    reveal_strlit("NumpadEnter");
    reveal_strlit("numpadequal");
    reveal_strlit("NumpadEqual");
    if k == "up"@ || k == "arrowup"@ {
        assert(ascii_lowered("ArrowUp"@) =~= "arrowup"@);
        assert(key_alias("arrowup"@) == Some("ArrowUp"@));
    } else if k == "down"@ || k == "arrowdown"@ {
        assert(ascii_lowered("ArrowDown"@) =~= "arrowdown"@);
        assert(key_alias("arrowdown"@) == Some("ArrowDown"@));
    } else if k == "left"@ || k == "arrowleft"@ {
        assert(ascii_lowered("ArrowLeft"@) =~= "arrowleft"@);
        assert("arrowleft"@[5] != "arrowdown"@[5]);
        assert(key_alias("arrowleft"@) == Some("ArrowLeft"@));
    } else if k == "right"@ || k == "arrowright"@ {
        assert(ascii_lowered("ArrowRight"@) =~= "arrowright"@);
        assert(key_alias("arrowright"@) == Some("ArrowRight"@));
    } else if k == "pageup"@ {
        assert(ascii_lowered("PageUp"@) =~= "pageup"@);
        assert(key_alias("pageup"@) == Some("PageUp"@));
    } else if k == "pagedown"@ {
        assert(ascii_lowered("PageDown"@) =~= "pagedown"@);
        assert(key_alias("pagedown"@) == Some("PageDown"@));
    } else if k == "home"@ {
        assert(ascii_lowered("Home"@) =~= "home"@);
        assert("home"@[0] != "down"@[0]);
        assert("home"@[0] != "left"@[0]);
        assert(key_alias("home"@) == Some("Home"@));
    } else if k == "end"@ {
        assert(ascii_lowered("End"@) =~= "end"@);
        assert(key_alias("end"@) == Some("End"@));
    } else if k == "space"@ {
        assert(ascii_lowered("Space"@) =~= "space"@);
        assert("space"@[0] != "right"@[0]);
        assert(key_alias("space"@) == Some("Space"@));
    } else if k == "enter"@ {
        assert(ascii_lowered("Enter"@) =~= "enter"@);
        assert("enter"@[0] != "right"@[0]);
        assert("enter"@[0] != "space"@[0]);
        assert(key_alias("enter"@) == Some("Enter"@));
    } else if k == "tab"@ {
        assert(ascii_lowered("Tab"@) =~= "tab"@);
        assert("tab"@[0] != "end"@[0]);
        assert(key_alias("tab"@) == Some("Tab"@));
    } else if k == "backspace"@ {
        assert(ascii_lowered("Backspace"@) =~= "backspace"@);
        assert("backspace"@[0] != "arrowdown"@[0]);
        assert("backspace"@[0] != "arrowleft"@[0]);
        assert(key_alias("backspace"@) == Some("Backspace"@));
    } else if k == "del"@ || k == "delete"@ {
        assert(ascii_lowered("Delete"@) =~= "delete"@);
        assert("delete"@[0] != "pageup"@[0]);
        assert(key_alias("delete"@) == Some("Delete"@));
    } else if k == "ins"@ || k == "insert"@ {
        assert(ascii_lowered("Insert"@) =~= "insert"@);
        assert("insert"@[0] != "pageup"@[0]);
        assert("insert"@[0] != "delete"@[0]);
        assert(key_alias("insert"@) == Some("Insert"@));
    } else if k == "esc"@ || k == "escape"@ {
        assert(ascii_lowered("Escape"@) =~= "escape"@);
        assert("escape"@[0] != "pageup"@[0]);
        assert("escape"@[0] != "delete"@[0]);
        assert("escape"@[0] != "insert"@[0]);
        assert(key_alias("escape"@) == Some("Escape"@));
    } else if k == "equal"@ || k == "="@ {
        assert(ascii_lowered("Equal"@) =~= "equal"@);
        assert("equal"@[0] != "right"@[0]);
        assert("equal"@[0] != "space"@[0]);
        assert("equal"@[1] != "enter"@[1]);
        assert(key_alias("equal"@) == Some("Equal"@));
    } else if k == "minus"@ || k == "-"@ {
        assert(ascii_lowered("Minus"@) =~= "minus"@);
        assert("minus"@[0] != "right"@[0]);
        assert("minus"@[0] != "space"@[0]);
        assert("minus"@[0] != "enter"@[0]);
        assert("minus"@[0] != "equal"@[0]);
        assert(key_alias("minus"@) == Some("Minus"@));
    } else if k == "bracketleft"@ || k == "["@ {
        assert(ascii_lowered("BracketLeft"@) =~= "bracketleft"@);
        assert(key_alias("bracketleft"@) == Some("BracketLeft"@));
    } else if k == "bracketright"@ || k == "]"@ {
        assert(ascii_lowered("BracketRight"@) =~= "bracketright"@);
        assert(key_alias("bracketright"@) == Some("BracketRight"@));
    } else if k == "backslash"@ || k == "\\"@ {
        assert(ascii_lowered("Backslash"@) =~= "backslash"@);
        assert("backslash"@[0] != "arrowdown"@[0]);
        assert("backslash"@[0] != "arrowleft"@[0]);
        assert("backslash"@[5] != "backspace"@[5]);
        assert(key_alias("backslash"@) == Some("Backslash"@));
    } else if k == "semicolon"@ || k == ";"@ {
        assert(ascii_lowered("Semicolon"@) =~= "semicolon"@);
        assert("semicolon"@[0] != "arrowdown"@[0]);
        assert("semicolon"@[0] != "arrowleft"@[0]);
        assert("semicolon"@[0] != "backspace"@[0]);
        assert("semicolon"@[0] != "backslash"@[0]);
        assert(key_alias("semicolon"@) == Some("Semicolon"@));
    } else if k == "quote"@ || k == "'"@ {
        assert(ascii_lowered("Quote"@) =~= "quote"@);
        assert("quote"@[0] != "right"@[0]);
        assert("quote"@[0] != "space"@[0]);
        assert("quote"@[0] != "enter"@[0]);
        assert("quote"@[0] != "equal"@[0]);
        assert("quote"@[0] != "minus"@[0]);
        assert(key_alias("quote"@) == Some("Quote"@));
    } else if k == "comma"@ || k == ","@ {
        assert(ascii_lowered("Comma"@) =~= "comma"@);
        assert("comma"@[0] != "right"@[0]);
        assert("comma"@[0] != "space"@[0]);
        assert("comma"@[0] != "enter"@[0]);
        assert("comma"@[0] != "equal"@[0]);
        assert("comma"@[0] != "minus"@[0]);
        assert("comma"@[0] != "quote"@[0]);
        assert(key_alias("comma"@) == Some("Comma"@));
    } else if k == "period"@ || k == "."@ {
        assert(ascii_lowered("Period"@) =~= "period"@);
        assert("period"@[1] != "pageup"@[1]);
        assert("period"@[0] != "delete"@[0]);
        assert("period"@[0] != "insert"@[0]);
        assert("period"@[0] != "escape"@[0]);
        assert(key_alias("period"@) == Some("Period"@));
    } else if k == "slash"@ || k == "/"@ {
        assert(ascii_lowered("Slash"@) =~= "slash"@);
        assert("slash"@[0] != "right"@[0]);
        assert("slash"@[1] != "space"@[1]);
        assert("slash"@[0] != "enter"@[0]);
        assert("slash"@[0] != "equal"@[0]);
        assert("slash"@[0] != "minus"@[0]);
        assert("slash"@[0] != "quote"@[0]);
        assert("slash"@[0] != "comma"@[0]);
        assert(key_alias("slash"@) == Some("Slash"@));
    } else if k == "backquote"@ || k == "`"@ {
        assert(ascii_lowered("Backquote"@) =~= "backquote"@);
        assert("backquote"@[0] != "arrowdown"@[0]);
        assert("backquote"@[0] != "arrowleft"@[0]);
        assert("backquote"@[4] != "backspace"@[4]);
        assert("backquote"@[4] != "backslash"@[4]);
        assert("backquote"@[0] != "semicolon"@[0]);
        assert(key_alias("backquote"@) == Some("Backquote"@));
    } else if k == "numpad0"@ {
        assert(ascii_lowered("Numpad0"@) =~= "numpad0"@);
        assert("numpad0"@[0] != "arrowup"@[0]);
        assert(key_alias("numpad0"@) == Some("Numpad0"@));
    } else if k == "numpad1"@ {
        assert(ascii_lowered("Numpad1"@) =~= "numpad1"@);
        assert("numpad1"@[0] != "arrowup"@[0]);
        assert("numpad1"@[6] != "numpad0"@[6]);
        assert(key_alias("numpad1"@) == Some("Numpad1"@));
    } else if k == "numpad2"@ {
        assert(ascii_lowered("Numpad2"@) =~= "numpad2"@);
        assert("numpad2"@[0] != "arrowup"@[0]);
        assert("numpad2"@[6] != "numpad0"@[6]);
        assert("numpad2"@[6] != "numpad1"@[6]);
        assert(key_alias("numpad2"@) == Some("Numpad2"@));
    } else if k == "numpad3"@ {
        assert(ascii_lowered("Numpad3"@) =~= "numpad3"@);
        assert("numpad3"@[0] != "arrowup"@[0]);
        assert("numpad3"@[6] != "numpad0"@[6]);
        assert("numpad3"@[6] != "numpad1"@[6]);
        assert("numpad3"@[6] != "numpad2"@[6]);
        assert(key_alias("numpad3"@) == Some("Numpad3"@));
    } else if k == "numpad4"@ {
        assert(ascii_lowered("Numpad4"@) =~= "numpad4"@);
        assert("numpad4"@[0] != "arrowup"@[0]);
        assert("numpad4"@[6] != "numpad0"@[6]);
        assert("numpad4"@[6] != "numpad1"@[6]);
        assert("numpad4"@[6] != "numpad2"@[6]);
        assert("numpad4"@[6] != "numpad3"@[6]);
        assert(key_alias("numpad4"@) == Some("Numpad4"@));
    } else if k == "numpad5"@ {
        assert(ascii_lowered("Numpad5"@) =~= "numpad5"@);
        assert("numpad5"@[0] != "arrowup"@[0]);
        assert("numpad5"@[6] != "numpad0"@[6]);
        assert("numpad5"@[6] != "numpad1"@[6]);
        assert("numpad5"@[6] != "numpad2"@[6]);
        assert("numpad5"@[6] != "numpad3"@[6]);
        assert("numpad5"@[6] != "numpad4"@[6]);
        assert(key_alias("numpad5"@) == Some("Numpad5"@));
    } else if k == "numpad6"@ {
        assert(ascii_lowered("Numpad6"@) =~= "numpad6"@);
        assert("numpad6"@[0] != "arrowup"@[0]);
        assert("numpad6"@[6] != "numpad0"@[6]);
        assert("numpad6"@[6] != "numpad1"@[6]);
        assert("numpad6"@[6] != "numpad2"@[6]);
        assert("numpad6"@[6] != "numpad3"@[6]);
        assert("numpad6"@[6] != "numpad4"@[6]);
        assert("numpad6"@[6] != "numpad5"@[6]);
        assert(key_alias("numpad6"@) == Some("Numpad6"@));
    } else if k == "numpad7"@ {
        assert(ascii_lowered("Numpad7"@) =~= "numpad7"@);
        assert("numpad7"@[0] != "arrowup"@[0]);
        assert("numpad7"@[6] != "numpad0"@[6]);
        assert("numpad7"@[6] != "numpad1"@[6]);
        assert("numpad7"@[6] != "numpad2"@[6]);
        assert("numpad7"@[6] != "numpad3"@[6]);
        assert("numpad7"@[6] != "numpad4"@[6]);
        assert("numpad7"@[6] != "numpad5"@[6]);
        assert("numpad7"@[6] != "numpad6"@[6]);
        assert(key_alias("numpad7"@) == Some("Numpad7"@));
    } else if k == "numpad8"@ {
        assert(ascii_lowered("Numpad8"@) =~= "numpad8"@);
        assert("numpad8"@[0] != "arrowup"@[0]);
        assert("numpad8"@[6] != "numpad0"@[6]);
        assert("numpad8"@[6] != "numpad1"@[6]);
        assert("numpad8"@[6] != "numpad2"@[6]);
        assert("numpad8"@[6] != "numpad3"@[6]);
        assert("numpad8"@[6] != "numpad4"@[6]);
        assert("numpad8"@[6] != "numpad5"@[6]);
        assert("numpad8"@[6] != "numpad6"@[6]);
        assert("numpad8"@[6] != "numpad7"@[6]);
        assert(key_alias("numpad8"@) == Some("Numpad8"@));
    } else if k == "numpad9"@ {
        assert(ascii_lowered("Numpad9"@) =~= "numpad9"@);
        assert("numpad9"@[0] != "arrowup"@[0]);
        assert("numpad9"@[6] != "numpad0"@[6]);
        assert("numpad9"@[6] != "numpad1"@[6]);
        assert("numpad9"@[6] != "numpad2"@[6]);
        assert("numpad9"@[6] != "numpad3"@[6]);
        assert("numpad9"@[6] != "numpad4"@[6]);
        assert("numpad9"@[6] != "numpad5"@[6]);
        assert("numpad9"@[6] != "numpad6"@[6]);
        assert("numpad9"@[6] != "numpad7"@[6]);
        assert("numpad9"@[6] != "numpad8"@[6]);
        assert(key_alias("numpad9"@) == Some("Numpad9"@));
    } else if k == "numpadadd"@ {
        assert(ascii_lowered("NumpadAdd"@) =~= "numpadadd"@);
        assert("numpadadd"@[0] != "arrowdown"@[0]);
        assert("numpadadd"@[0] != "arrowleft"@[0]);
        assert("numpadadd"@[0] != "backspace"@[0]);
        assert("numpadadd"@[0] != "backslash"@[0]);
        assert("numpadadd"@[0] != "semicolon"@[0]);
        assert("numpadadd"@[0] != "backquote"@[0]);
        assert(key_alias("numpadadd"@) == Some("NumpadAdd"@));
    } else if k == "numpadsubtract"@ {
        assert(ascii_lowered("NumpadSubtract"@) =~= "numpadsubtract"@);
        assert(key_alias("numpadsubtract"@) == Some("NumpadSubtract"@));
    } else if k == "numpadmultiply"@ {
        assert(ascii_lowered("NumpadMultiply"@) =~= "numpadmultiply"@);
        assert("numpadmultiply"@[6] != "numpadsubtract"@[6]);
        assert(key_alias("numpadmultiply"@) == Some("NumpadMultiply"@));
    } else if k == "numpaddivide"@ {
        assert(ascii_lowered("NumpadDivide"@) =~= "numpaddivide"@);
        assert("numpaddivide"@[0] != "bracketright"@[0]);
        assert(key_alias("numpaddivide"@) == Some("NumpadDivide"@));
    } else if k == "numpaddecimal"@ {
        assert(ascii_lowered("NumpadDecimal"@) =~= "numpaddecimal"@);
        assert(key_alias("numpaddecimal"@) == Some("NumpadDecimal"@));
    } else if k == "numpadenter"@ {
        assert(ascii_lowered("NumpadEnter"@) =~= "numpadenter"@);
        assert("numpadenter"@[0] != "bracketleft"@[0]);
        assert(key_alias("numpadenter"@) == Some("NumpadEnter"@));
    } else if k == "numpadequal"@ {
        assert(ascii_lowered("NumpadEqual"@) =~= "numpadequal"@);
        assert("numpadequal"@[0] != "bracketleft"@[0]);
        assert("numpadequal"@[7] != "numpadenter"@[7]);
        assert(key_alias("numpadequal"@) == Some("NumpadEqual"@));
    }
}

fn key_alias_exec(s: &Vec<char>) -> (r: Option<&'static str>)
    ensures
        r matches Some(c) ==> key_alias(s@) == Some(c@),
        r is None ==> key_alias(s@) is None,
{
    if chars_eq_str(s, "up") || chars_eq_str(s, "arrowup") {
        Some("ArrowUp")
    } else if chars_eq_str(s, "down") || chars_eq_str(s, "arrowdown") {
        Some("ArrowDown")
    } else if chars_eq_str(s, "left") || chars_eq_str(s, "arrowleft") {
        Some("ArrowLeft")
    } else if chars_eq_str(s, "right") || chars_eq_str(s, "arrowright") {
        Some("ArrowRight")
    } else if chars_eq_str(s, "pageup") {
        Some("PageUp")
    } else if chars_eq_str(s, "pagedown") {
        Some("PageDown")
    } else if chars_eq_str(s, "home") {
        Some("Home")
    } else if chars_eq_str(s, "end") {
        Some("End")
    } else if chars_eq_str(s, "space") {
        Some("Space")
    } else if chars_eq_str(s, "enter") {
        Some("Enter")
    } else if chars_eq_str(s, "tab") {
        Some("Tab")
    } else if chars_eq_str(s, "backspace") {
        Some("Backspace")
    } else if chars_eq_str(s, "del") || chars_eq_str(s, "delete") {
        Some("Delete")
    } else if chars_eq_str(s, "ins") || chars_eq_str(s, "insert") {
        Some("Insert")
    } else if chars_eq_str(s, "esc") || chars_eq_str(s, "escape") {
        Some("Escape")
    } else if chars_eq_str(s, "equal") || chars_eq_str(s, "=") {
        Some("Equal")
    } else if chars_eq_str(s, "minus") || chars_eq_str(s, "-") {
        Some("Minus")
    } else if chars_eq_str(s, "bracketleft") || chars_eq_str(s, "[") {
        Some("BracketLeft")
    } else if chars_eq_str(s, "bracketright") || chars_eq_str(s, "]") {
        Some("BracketRight")
    } else if chars_eq_str(s, "backslash") || chars_eq_str(s, "\\") {
        Some("Backslash")
    } else if chars_eq_str(s, "semicolon") || chars_eq_str(s, ";") {
        Some("Semicolon")
    } else if chars_eq_str(s, "quote") || chars_eq_str(s, "'") {
        Some("Quote")
    } else if chars_eq_str(s, "comma") || chars_eq_str(s, ",") {
        Some("Comma")
    } else if chars_eq_str(s, "period") || chars_eq_str(s, ".") {
        Some("Period")
    } else if chars_eq_str(s, "slash") || chars_eq_str(s, "/") {
        Some("Slash")
    } else if chars_eq_str(s, "backquote") || chars_eq_str(s, "`") {
        Some("Backquote")
    } else if chars_eq_str(s, "numpad0") {
        Some("Numpad0")
    } else if chars_eq_str(s, "numpad1") {
        Some("Numpad1")
    } else if chars_eq_str(s, "numpad2") {
        Some("Numpad2")
    } else if chars_eq_str(s, "numpad3") {
        Some("Numpad3")
    } else if chars_eq_str(s, "numpad4") {
        Some("Numpad4")
    } else if chars_eq_str(s, "numpad5") {
        Some("Numpad5")
    } else if chars_eq_str(s, "numpad6") {
        Some("Numpad6")
    } else if chars_eq_str(s, "numpad7") {
        Some("Numpad7")
    } else if chars_eq_str(s, "numpad8") {
        Some("Numpad8")
    } else if chars_eq_str(s, "numpad9") {
        Some("Numpad9")
    } else if chars_eq_str(s, "numpadadd") {
        Some("NumpadAdd")
    } else if chars_eq_str(s, "numpadsubtract") {
        Some("NumpadSubtract")
    } else if chars_eq_str(s, "numpadmultiply") {
        Some("NumpadMultiply")
    } else if chars_eq_str(s, "numpaddivide") {
        Some("NumpadDivide")
    } else if chars_eq_str(s, "numpaddecimal") {
        Some("NumpadDecimal")
    } else if chars_eq_str(s, "numpadenter") {
        Some("NumpadEnter")
    } else if chars_eq_str(s, "numpadequal") {
        Some("NumpadEqual")
    } else {
        None
    }
}

pub open spec fn is_named_code(s: Seq<char>) -> bool {
    ||| s == "ArrowUp"@
    ||| s == "ArrowDown"@
    ||| s == "ArrowLeft"@
    ||| s == "ArrowRight"@
    ||| s == "F1"@
    ||| s == "F2"@
    ||| s == "F3"@
    ||| s == "F4"@
    ||| s == "F5"@
    ||| s == "F6"@
    ||| s == "F7"@
    ||| s == "F8"@
    ||| s == "F9"@
    ||| s == "F10"@
    ||| s == "F11"@
    ||| s == "F13"@
    ||| s == "F14"@
    ||| s == "F15"@
    ||| s == "F16"@
    ||| s == "F17"@
    ||| s == "F18"@
    ||| s == "F19"@
    ||| s == "F20"@
    ||| s == "F21"@
    ||| s == "F22"@
    ||| s == "F23"@
    ||| s == "F24"@
    ||| s == "Space"@
    ||| s == "Enter"@
    ||| s == "Tab"@
    ||| s == "Backspace"@
    ||| s == "Delete"@
    ||| s == "Insert"@
    ||| s == "Home"@
    ||| s == "End"@
    ||| s == "PageUp"@
    ||| s == "PageDown"@
    ||| s == "Escape"@
    ||| s == "Equal"@
    ||| s == "Minus"@
    ||| s == "BracketLeft"@
    ||| s == "BracketRight"@
    ||| s == "Backslash"@
    ||| s == "Semicolon"@
    ||| s == "Quote"@
    ||| s == "Comma"@
    ||| s == "Period"@
    ||| s == "Slash"@
    ||| s == "Backquote"@
    ||| s == "Numpad0"@
    ||| s == "Numpad1"@
    ||| s == "Numpad2"@
    ||| s == "Numpad3"@
    ||| s == "Numpad4"@
    ||| s == "Numpad5"@
    ||| s == "Numpad6"@
    ||| s == "Numpad7"@
    ||| s == "Numpad8"@
    ||| s == "Numpad9"@
    ||| s == "NumpadAdd"@
    ||| s == "NumpadSubtract"@
    ||| s == "NumpadMultiply"@
    ||| s == "NumpadDivide"@
    ||| s == "NumpadDecimal"@
    ||| s == "NumpadEnter"@
    ||| s == "NumpadEqual"@
}

fn is_named_code_exec(s: &Vec<char>) -> (r: bool)
    ensures
        r == is_named_code(s@),
{
    chars_eq_str(s, "ArrowUp")
        || chars_eq_str(s, "ArrowDown")
        || chars_eq_str(s, "ArrowLeft")
        || chars_eq_str(s, "ArrowRight")
        || chars_eq_str(s, "F1")
        || chars_eq_str(s, "F2")
        || chars_eq_str(s, "F3")
        || chars_eq_str(s, "F4")
        || chars_eq_str(s, "F5")
        || chars_eq_str(s, "F6")
        || chars_eq_str(s, "F7")
        || chars_eq_str(s, "F8")
        || chars_eq_str(s, "F9")
        || chars_eq_str(s, "F10")
        || chars_eq_str(s, "F11")
        || chars_eq_str(s, "F13")
        || chars_eq_str(s, "F14")
        || chars_eq_str(s, "F15")
        || chars_eq_str(s, "F16")
        || chars_eq_str(s, "F17")
        || chars_eq_str(s, "F18")
        || chars_eq_str(s, "F19")
        || chars_eq_str(s, "F20")
        || chars_eq_str(s, "F21")
        || chars_eq_str(s, "F22")
        || chars_eq_str(s, "F23")
        || chars_eq_str(s, "F24")
        || chars_eq_str(s, "Space")
        || chars_eq_str(s, "Enter")
        || chars_eq_str(s, "Tab")
        || chars_eq_str(s, "Backspace")
        || chars_eq_str(s, "Delete")
        || chars_eq_str(s, "Insert")
        || chars_eq_str(s, "Home")
        || chars_eq_str(s, "End")
        || chars_eq_str(s, "PageUp")
        || chars_eq_str(s, "PageDown")
        || chars_eq_str(s, "Escape")
        || chars_eq_str(s, "Equal")
        || chars_eq_str(s, "Minus")
        || chars_eq_str(s, "BracketLeft")
        || chars_eq_str(s, "BracketRight")
        || chars_eq_str(s, "Backslash")
        || chars_eq_str(s, "Semicolon")
        || chars_eq_str(s, "Quote")
        || chars_eq_str(s, "Comma")
        || chars_eq_str(s, "Period")
        || chars_eq_str(s, "Slash")
        || chars_eq_str(s, "Backquote")
        || chars_eq_str(s, "Numpad0")
        || chars_eq_str(s, "Numpad1")
        || chars_eq_str(s, "Numpad2")
        || chars_eq_str(s, "Numpad3")
        || chars_eq_str(s, "Numpad4")
        || chars_eq_str(s, "Numpad5")
        || chars_eq_str(s, "Numpad6")
        || chars_eq_str(s, "Numpad7")
        || chars_eq_str(s, "Numpad8")
        || chars_eq_str(s, "Numpad9")
        || chars_eq_str(s, "NumpadAdd")
        || chars_eq_str(s, "NumpadSubtract")
        || chars_eq_str(s, "NumpadMultiply")
        || chars_eq_str(s, "NumpadDivide")
        || chars_eq_str(s, "NumpadDecimal")
        || chars_eq_str(s, "NumpadEnter")
        || chars_eq_str(s, "NumpadEqual")
}

/// A one-character string whose character is ASCII, i.e. a string of one byte.
pub open spec fn single_ascii(t: Seq<char>) -> bool {
    t.len() == 1 && (t[0] as u32) < 128
}

/// The rules that apply when no alias names the key.
pub open spec fn fallback_key(t: Seq<char>, lower: Seq<char>) -> Seq<char> {
    if lower.len() >= 1 && lower[0] == 'f' && parse_u32_spec(lower.drop_first()) is Some && 1
        <= parse_u32_spec(lower.drop_first())->0 <= 24 {
        "F"@ + dec(parse_u32_spec(lower.drop_first())->0)
    } else if single_ascii(t) && is_ascii_alpha(t[0]) {
        "Key"@.push(ascii_upper(t[0]))
    } else if single_ascii(t) && is_ascii_digit(t[0]) {
        "Digit"@.push(t[0])
    } else if has_prefix(lower, "key"@) && lower.len() == 4 && (lower[3] as u32) < 128
        && is_ascii_alpha(lower[3]) {
        "Key"@.push(ascii_upper(lower[3]))
    } else if has_prefix(lower, "digit"@) && lower.len() == 6 && (lower[5] as u32) < 128
        && is_ascii_digit(lower[5]) {
        "Digit"@.push(lower[5])
    } else {
        t
    }
}

/// The canonical key code for a key name typed by a user or stored earlier.
pub open spec fn normalized_key(raw: Seq<char>) -> Seq<char> {
    let t = trim(raw);
    if t.len() == 0 {
        Seq::empty()
    } else {
        match key_alias(lowercase(t)) {
            Some(c) => c,
            None => fallback_key(t, lowercase(t)),
        }
    }
}

fn is_alpha(c: char) -> (r: bool)
    ensures
        r == is_ascii_alpha(c),
{
    ('A' <= c && c <= 'Z') || ('a' <= c && c <= 'z')
}

fn is_digit(c: char) -> (r: bool)
    ensures
        r == is_ascii_digit(c),
{
    '0' <= c && c <= '9'
}

/// Canonical key code: arrows, navigation keys, symbols and numpad keys by
/// their aliases, `f1`..`f24` as `F1`..`F24`, single letters and digits as
/// `KeyX` / `DigitN`; anything else trimmed but kept as typed.
pub fn normalize_key_code(raw: &str) -> (r: String)
    ensures
        r@ == normalized_key(raw@),
{
    let t = trimmed_chars(raw);
    if t.len() == 0 {
        return String::new();
    }
    let ts = string_of(&t);
    let lower_s = to_lowercase(ts.as_str());
    let lower = chars_of(lower_s.as_str());
    let alias = key_alias_exec(&lower);
    if let Some(c) = alias {
        return owned(c);
    }
    if lower.len() >= 1 && lower[0] == 'f' {
        let parsed = parse_u32(&lower, 1);
        proof {
            assert(lower@.skip(1) =~= lower@.drop_first());
        }
        if let Some(n) = parsed {
            if 1 <= n && n <= 24 {
                let mut r = owned("F");
                push_decimal(&mut r, n as u64);
                return r;
            }
        }
    }
    if t.len() == 1 && (t[0] as u32) < 128 {
        let ch = t[0];
        if is_alpha(ch) {
            let mut r = owned("Key");
            push_char(&mut r, to_ascii_upper(ch));
            return r;
        }
        if is_digit(ch) {
            let mut r = owned("Digit");
            push_char(&mut r, ch);
            return r;
        }
    }
    if lower.len() == 4 && starts_with_key(&lower) && (lower[3] as u32) < 128 && is_alpha(lower[3]) {
        let mut r = owned("Key");
        push_char(&mut r, to_ascii_upper(lower[3]));
        return r;
    }
    if lower.len() == 6 && starts_with_digit(&lower) && (lower[5] as u32) < 128 && is_digit(
        lower[5],
    ) {
        let mut r = owned("Digit");
        push_char(&mut r, lower[5]);
        return r;
    }
    ts
}

fn starts_with_key(s: &Vec<char>) -> (r: bool)
    ensures
        r == has_prefix(s@, "key"@),
{
    crate::text::starts_with(s, "key")
}

fn starts_with_digit(s: &Vec<char>) -> (r: bool)
    ensures
        r == has_prefix(s@, "digit"@),
{
    crate::text::starts_with(s, "digit")
}

/// No alias key starts with `f` or `k`, and the only six-character one that
/// starts with `d` is `delete`.
proof fn lemma_alias_key_shape(s: Seq<char>)
    requires
        key_alias(s) is Some,
    ensures
        s.len() > 0,
        s[0] != 'f',
        s[0] != 'k',
        s[0] == 'd' && s.len() == 6 ==> s[1] == 'e',
{
    reveal_strlit("up");
    reveal_strlit("arrowup");
    reveal_strlit("down");
    reveal_strlit("arrowdown");
    reveal_strlit("left");
    reveal_strlit("arrowleft");
    reveal_strlit("right");
    reveal_strlit("arrowright");
    reveal_strlit("pageup");
    reveal_strlit("pagedown");
    reveal_strlit("home");
    reveal_strlit("end");
    reveal_strlit("space");
    reveal_strlit("enter");
    reveal_strlit("tab");
    reveal_strlit("backspace");
    reveal_strlit("del");
    reveal_strlit("delete");
    reveal_strlit("ins");
    reveal_strlit("insert");
    reveal_strlit("esc");
    reveal_strlit("escape");
    reveal_strlit("equal");
    reveal_strlit("=");
    reveal_strlit("minus");
    reveal_strlit("-");
    reveal_strlit("bracketleft");
    reveal_strlit("[");
    reveal_strlit("bracketright");
    reveal_strlit("]");
    reveal_strlit("backslash");
    reveal_strlit("\\");
    reveal_strlit("semicolon");
    reveal_strlit(";");
    reveal_strlit("quote");
    reveal_strlit("'");
    reveal_strlit("comma");
    reveal_strlit(",");
    reveal_strlit("period");
    reveal_strlit(".");
    reveal_strlit("slash");
    reveal_strlit("/");
    reveal_strlit("backquote");
    reveal_strlit("`");
    reveal_strlit("numpad0");
    reveal_strlit("numpad1");
    reveal_strlit("numpad2");
    reveal_strlit("numpad3");
    reveal_strlit("numpad4");
    reveal_strlit("numpad5");
    reveal_strlit("numpad6");
    reveal_strlit("numpad7");
    reveal_strlit("numpad8");
    reveal_strlit("numpad9");
    reveal_strlit("numpadadd");
    reveal_strlit("numpadsubtract");
    reveal_strlit("numpadmultiply");
    reveal_strlit("numpaddivide");
    reveal_strlit("numpaddecimal");
    reveal_strlit("numpadenter");
    reveal_strlit("numpadequal");
}

/// `KeyX` for an upper-case letter `X` is its own normal form.
proof fn lemma_key_code_stable(x: char)
    requires
        is_ascii_upper(x),
    ensures
        all_ascii("Key"@.push(x)),
        trim("Key"@.push(x)) == "Key"@.push(x),
        lowercase("Key"@.push(x)) == ascii_lowered("Key"@.push(x)) ==> normalized_key(
            "Key"@.push(x),
        ) == "Key"@.push(x),
{
    reveal_strlit("Key");
    reveal_strlit("key");
    let c = "Key"@.push(x);
    let l = ascii_lowered(c);
    assert(all_ascii(c));
    lemma_trim_of_solid(c);
    assert(l =~= "key"@.push(ascii_lower(x)));
    if key_alias(l) is Some {
        lemma_alias_key_shape(l);
    }
    assert(l.subrange(0, 3) =~= "key"@);
    assert(ascii_upper(ascii_lower(x)) == x);
}

/// `DigitN` for a decimal digit `N` is its own normal form.
proof fn lemma_digit_code_stable(d: char)
    requires
        is_ascii_digit(d),
    ensures
        all_ascii("Digit"@.push(d)),
        trim("Digit"@.push(d)) == "Digit"@.push(d),
        lowercase("Digit"@.push(d)) == ascii_lowered("Digit"@.push(d)) ==> normalized_key(
            "Digit"@.push(d),
        ) == "Digit"@.push(d),
{
    reveal_strlit("Digit");
    reveal_strlit("digit");
    reveal_strlit("key");
    let c = "Digit"@.push(d);
    let l = ascii_lowered(c);
    assert(all_ascii(c));
    lemma_trim_of_solid(c);
    assert(l =~= "digit"@.push(d));
    if key_alias(l) is Some {
        lemma_alias_key_shape(l);
    }
    assert(!has_prefix(l, "key"@)) by {
        assert(l.subrange(0, 3)[0] != "key"@[0]);
    }
    assert(l.subrange(0, 5) =~= "digit"@);
}

/// `F1`..`F24` are their own normal forms.
proof fn lemma_function_code_stable(n: nat)
    requires
        1 <= n <= 24,
    ensures
        all_ascii("F"@ + dec(n)),
        trim("F"@ + dec(n)) == "F"@ + dec(n),
        lowercase("F"@ + dec(n)) == ascii_lowered("F"@ + dec(n)) ==> normalized_key("F"@ + dec(n))
            == "F"@ + dec(n),
{
    reveal_strlit("F");
    reveal_strlit("f");
    let c = "F"@ + dec(n);
    let l = ascii_lowered(c);
    lemma_dec_digits(n);
    assert(all_ascii(c));
    lemma_trim_of_solid(c);
    assert(l =~= "f"@ + dec(n));
    if key_alias(l) is Some {
        lemma_alias_key_shape(l);
    }
    assert(l.drop_first() =~= dec(n));
    assert(dec(n)[0] != '+');
    lemma_parse_u32_body(dec(n), dec(n));
}


/// Every key code that an alias names is one a global hotkey can use.
pub proof fn lemma_alias_codes_supported(k: Seq<char>)
    requires
        key_alias(k) is Some,
    ensures
        is_supported_code(key_alias(k)->0),
{
}

/// `F1`..`F24` are usable hotkey codes, all but `F12`, which Windows keeps
/// for its debugger.
pub proof fn lemma_function_codes_supported(n: nat)
    requires
        1 <= n <= 24,
    ensures
        is_supported_code("F"@ + dec(n)) <==> n != 12,
{
    reveal_with_fuel(dec, 2);
    reveal_strlit("F");
    reveal_strlit("F1");
    reveal_strlit("F2");
    reveal_strlit("F3");
    reveal_strlit("F4");
    reveal_strlit("F5");
    reveal_strlit("F6");
    reveal_strlit("F7");
    reveal_strlit("F8");
    reveal_strlit("F9");
    reveal_strlit("F10");
    reveal_strlit("F11");
    reveal_strlit("F12");
    reveal_strlit("F13");
    reveal_strlit("F14");
    reveal_strlit("F15");
    reveal_strlit("F16");
    reveal_strlit("F17");
    reveal_strlit("F18");
    reveal_strlit("F19");
    reveal_strlit("F20");
    reveal_strlit("F21");
    reveal_strlit("F22");
    reveal_strlit("F23");
    reveal_strlit("F24");
    if n == 1 {
        assert("F"@ + dec(n) =~= "F1"@);
    } else if n == 2 {
        assert("F"@ + dec(n) =~= "F2"@);
    } else if n == 3 {
        assert("F"@ + dec(n) =~= "F3"@);
    } else if n == 4 {
        assert("F"@ + dec(n) =~= "F4"@);
    } else if n == 5 {
        assert("F"@ + dec(n) =~= "F5"@);
    } else if n == 6 {
        assert("F"@ + dec(n) =~= "F6"@);
    } else if n == 7 {
        assert("F"@ + dec(n) =~= "F7"@);
    } else if n == 8 {
        assert("F"@ + dec(n) =~= "F8"@);
    } else if n == 9 {
        assert("F"@ + dec(n) =~= "F9"@);
    } else if n == 10 {
        assert("F"@ + dec(n) =~= "F10"@);
    } else if n == 11 {
        assert("F"@ + dec(n) =~= "F11"@);
    } else if n == 12 {
        assert("F"@ + dec(n) =~= "F12"@);
        reveal_strlit("ArrowUp");
        reveal_strlit("ArrowDown");
        reveal_strlit("ArrowLeft");
        reveal_strlit("ArrowRight");
        reveal_strlit("F1");
        reveal_strlit("F2");
        reveal_strlit("F3");
        reveal_strlit("F4");
        reveal_strlit("F5");
        reveal_strlit("F6");
        reveal_strlit("F7");
        reveal_strlit("F8");
        reveal_strlit("F9");
        reveal_strlit("F10");
        assert("F12"@[2] != "F10"@[2]);
        reveal_strlit("F11");
        assert("F12"@[2] != "F11"@[2]);
        reveal_strlit("F13");
        assert("F12"@[2] != "F13"@[2]);
        reveal_strlit("F14");
        assert("F12"@[2] != "F14"@[2]);
        reveal_strlit("F15");
        assert("F12"@[2] != "F15"@[2]);
        reveal_strlit("F16");
        assert("F12"@[2] != "F16"@[2]);
        reveal_strlit("F17");
        assert("F12"@[2] != "F17"@[2]);
        reveal_strlit("F18");
        assert("F12"@[2] != "F18"@[2]);
        reveal_strlit("F19");
        assert("F12"@[2] != "F19"@[2]);
        reveal_strlit("F20");
        assert("F12"@[1] != "F20"@[1]);
        reveal_strlit("F21");
        assert("F12"@[1] != "F21"@[1]);
        reveal_strlit("F22");
        assert("F12"@[1] != "F22"@[1]);
        reveal_strlit("F23");
        assert("F12"@[1] != "F23"@[1]);
        reveal_strlit("F24");
        assert("F12"@[1] != "F24"@[1]);
        reveal_strlit("Space");
        reveal_strlit("Enter");
        reveal_strlit("Tab");
        assert("F12"@[0] != "Tab"@[0]);
        reveal_strlit("Backspace");
        reveal_strlit("Delete");
        reveal_strlit("Insert");
        reveal_strlit("Home");
        reveal_strlit("End");
        assert("F12"@[0] != "End"@[0]);
        reveal_strlit("PageUp");
        reveal_strlit("PageDown");
        reveal_strlit("Escape");
        reveal_strlit("Equal");
        reveal_strlit("Minus");
        reveal_strlit("BracketLeft");
        reveal_strlit("BracketRight");
        reveal_strlit("Backslash");
        reveal_strlit("Semicolon");
        reveal_strlit("Quote");
        reveal_strlit("Comma");
        reveal_strlit("Period");
        reveal_strlit("Slash");
        reveal_strlit("Backquote");
        reveal_strlit("Numpad0");
        reveal_strlit("Numpad1");
        reveal_strlit("Numpad2");
        reveal_strlit("Numpad3");
        reveal_strlit("Numpad4");
        reveal_strlit("Numpad5");
        reveal_strlit("Numpad6");
        reveal_strlit("Numpad7");
        reveal_strlit("Numpad8");
        reveal_strlit("Numpad9");
        reveal_strlit("NumpadAdd");
        reveal_strlit("NumpadSubtract");
        reveal_strlit("NumpadMultiply");
        reveal_strlit("NumpadDivide");
        reveal_strlit("NumpadDecimal");
        reveal_strlit("NumpadEnter");
        reveal_strlit("NumpadEqual");
    } else if n == 13 {
        assert("F"@ + dec(n) =~= "F13"@);
    } else if n == 14 {
        assert("F"@ + dec(n) =~= "F14"@);
    } else if n == 15 {
        assert("F"@ + dec(n) =~= "F15"@);
    } else if n == 16 {
        assert("F"@ + dec(n) =~= "F16"@);
    } else if n == 17 {
        assert("F"@ + dec(n) =~= "F17"@);
    } else if n == 18 {
        assert("F"@ + dec(n) =~= "F18"@);
    } else if n == 19 {
        assert("F"@ + dec(n) =~= "F19"@);
    } else if n == 20 {
        assert("F"@ + dec(n) =~= "F20"@);
    } else if n == 21 {
        assert("F"@ + dec(n) =~= "F21"@);
    } else if n == 22 {
        assert("F"@ + dec(n) =~= "F22"@);
    } else if n == 23 {
        assert("F"@ + dec(n) =~= "F23"@);
    } else if n == 24 {
        assert("F"@ + dec(n) =~= "F24"@);
    }
}

/// `KeyA`..`KeyZ` and `Digit0`..`Digit9` are usable hotkey codes.
pub proof fn lemma_letter_and_digit_codes_supported(c: char)
    ensures
        is_ascii_upper(c) ==> is_supported_code("Key"@.push(c)),
        is_ascii_digit(c) ==> is_supported_code("Digit"@.push(c)),
{
    reveal_strlit("Key");
    reveal_strlit("Digit");
    assert("Key"@.push(c).subrange(0, 3) =~= "Key"@);
    assert("Digit"@.push(c).subrange(0, 5) =~= "Digit"@);
}

/// Normalising a key code is idempotent: the normal form has no white space
/// at its ends, and it normalises to itself wherever `str::to_lowercase`
/// lowers it as its contract states for ASCII text.
pub proof fn lemma_normalize_idempotent(raw: Seq<char>)
    ensures
        trim(normalized_key(raw)) == normalized_key(raw),
        lowers_as_ascii(normalized_key(raw)) ==> normalized_key(normalized_key(raw))
            == normalized_key(raw),
{
    let t = trim(raw);
    let out = normalized_key(raw);
    if t.len() == 0 {
        assert(trim(Seq::<char>::empty()) =~= Seq::<char>::empty());
    } else {
        let l = lowercase(t);
        if key_alias(l) is Some {
            lemma_alias_code_stable(l);
            lemma_trim_of_solid(out);
        } else {
            lemma_trim_idempotent(raw);
            if l.len() >= 1 && l[0] == 'f' && parse_u32_spec(l.drop_first()) is Some && 1
                <= parse_u32_spec(l.drop_first())->0 <= 24 {
                lemma_function_code_stable(parse_u32_spec(l.drop_first())->0);
            } else if single_ascii(t) && is_ascii_alpha(t[0]) {
                lemma_key_code_stable(ascii_upper(t[0]));
            } else if single_ascii(t) && is_ascii_digit(t[0]) {
                lemma_digit_code_stable(t[0]);
            } else if has_prefix(l, "key"@) && l.len() == 4 && (l[3] as u32) < 128
                && is_ascii_alpha(l[3]) {
                lemma_key_code_stable(ascii_upper(l[3]));
            } else if has_prefix(l, "digit"@) && l.len() == 6 && (l[5] as u32) < 128
                && is_ascii_digit(l[5]) {
                lemma_digit_code_stable(l[5]);
            }
        }
    }
}

/// A key code that a global hotkey can use: `KeyA`..`KeyZ`, `Digit0`..`Digit9`,
/// or one of the named keys.
pub open spec fn is_supported_code(s: Seq<char>) -> bool {
    ||| s.len() == 4 && has_prefix(s, "Key"@) && is_ascii_upper(s[3])
    ||| s.len() == 6 && has_prefix(s, "Digit"@) && is_ascii_digit(s[5])
    ||| is_named_code(s)
}

pub open spec fn f12_reserved_message() -> Seq<char> {
    "F12 зарезервирована Windows для системного отладчика"@
}

pub open spec fn unknown_key_message(code: Seq<char>) -> Seq<char> {
    "Неизвестная клавиша: "@ + code
}

/// The error `parse_code` gives for a normalised code that is not supported.
pub open spec fn code_error(n: Seq<char>) -> Seq<char> {
    if n == "F12"@ {
        f12_reserved_message()
    } else {
        unknown_key_message(n)
    }
}

/// The key code a name denotes, in canonical form, when a global hotkey can
/// use it.
pub fn parse_code(code_str: &str) -> (r: Result<String, String>)
    ensures
        r is Ok <==> is_supported_code(normalized_key(code_str@)),
        r matches Ok(c) ==> c@ == normalized_key(code_str@),
        r matches Err(e) ==> e@ == code_error(normalized_key(code_str@)),
{
    let normalized = normalize_key_code(code_str);
    let n = chars_of(normalized.as_str());
    let key_letter = n.len() == 4 && crate::text::starts_with(&n, "Key") && 'A' <= n[3] && n[3]
        <= 'Z';
    let digit = n.len() == 6 && crate::text::starts_with(&n, "Digit") && '0' <= n[5] && n[5]
        <= '9';
    if key_letter || digit || is_named_code_exec(&n) {
        Ok(normalized)
    } else if chars_eq_str(&n, "F12") {
        Err(owned("F12 зарезервирована Windows для системного отладчика"))
    } else {
        let mut e = owned("Неизвестная клавиша: ");
        push_str(&mut e, normalized.as_str());
        Err(e)
    }
}

/// A validated shortcut: a supported key code and the modifiers held with it.
#[derive(Debug, Clone)]
pub struct ShortcutKey {
    pub code: String,
    pub ctrl: bool,
    pub alt: bool,
    pub shift: bool,
    pub meta: bool,
}

pub open spec fn unset_hotkey_message() -> Seq<char> {
    "Хоткей не задан"@
}

/// Validates a shortcut for registration.
pub fn spec_to_shortcut(spec: &ShortcutSpec) -> (r: Result<ShortcutKey, String>)
    ensures
        trim(spec.code@).len() == 0 ==> r is Err && r->Err_0@ == unset_hotkey_message(),
        trim(spec.code@).len() != 0 ==> (r is Ok <==> is_supported_code(normalized_key(spec.code@))),
        trim(spec.code@).len() != 0 && r is Err ==> r->Err_0@ == code_error(normalized_key(spec.code@)),
        r matches Ok(k) ==> {
            &&& k.code@ == normalized_key(spec.code@)
            &&& k.ctrl == spec.ctrl
            &&& k.alt == spec.alt
            &&& k.shift == spec.shift
            &&& k.meta == spec.meta
        },
{
    let t = trimmed_chars(spec.code.as_str());
    if t.len() == 0 {
        return Err(owned("Хоткей не задан"));
    }
    let code = parse_code(spec.code.as_str())?;
    Ok(ShortcutKey { code, ctrl: spec.ctrl, alt: spec.alt, shift: spec.shift, meta: spec.meta })
}

/// The state of a shortcut typed in the legacy `Ctrl+Alt+D` form after some of
/// its parts: ctrl, alt, shift, meta, key code.
pub type LegacyShortcut = (bool, bool, bool, bool, Seq<char>);

/// The parts of `s` between `+` signs (`str::split('+')`).
pub open spec fn split_plus(s: Seq<char>) -> Seq<Seq<char>>
    decreases s.len(),
{
    if s.len() == 0 {
        seq![Seq::empty()]
    } else {
        let r = split_plus(s.drop_last());
        if s.last() == '+' {
            r.push(Seq::empty())
        } else {
            r.update(r.len() - 1, r.last().push(s.last()))
        }
    }
}

proof fn lemma_split_plus_nonempty(s: Seq<char>)
    ensures
        split_plus(s).len() >= 1,
    decreases s.len(),
{
    if s.len() > 0 {
        lemma_split_plus_nonempty(s.drop_last());
    }
}

/// What one part of a legacy shortcut adds: a modifier name sets that
/// modifier, any other non-empty key name becomes the key code.
pub open spec fn apply_part(acc: LegacyShortcut, p: Seq<char>) -> LegacyShortcut {
    let q = trim(p);
    let l = lowercase(q);
    if l == "ctrl"@ || l == "control"@ {
        (true, acc.1, acc.2, acc.3, acc.4)
    } else if l == "alt"@ {
        (acc.0, true, acc.2, acc.3, acc.4)
    } else if l == "shift"@ {
        (acc.0, acc.1, true, acc.3, acc.4)
    } else if l == "win"@ || l == "meta"@ || l == "cmd"@ || l == "command"@ {
        (acc.0, acc.1, acc.2, true, acc.4)
    } else if normalized_key(q).len() > 0 {
        (acc.0, acc.1, acc.2, acc.3, normalized_key(q))
    } else {
        acc
    }
}

/// The first `n` parts applied in order.
pub open spec fn fold_parts(parts: Seq<Seq<char>>, n: int) -> LegacyShortcut
    decreases n,
{
    if n <= 0 {
        (false, false, false, false, Seq::empty())
    } else {
        apply_part(fold_parts(parts, n - 1), parts[n - 1])
    }
}

proof fn lemma_fold_parts_prefix(a: Seq<Seq<char>>, b: Seq<Seq<char>>, n: int)
    requires
        0 <= n <= a.len(),
        n <= b.len(),
        forall|i: int| 0 <= i < n ==> a[i] == b[i],
    ensures
        fold_parts(a, n) == fold_parts(b, n),
    decreases n,
{
    if n > 0 {
        lemma_fold_parts_prefix(a, b, n - 1);
    }
}

/// The legacy form of a shortcut read in full.
pub open spec fn legacy_shortcut(t: Seq<char>) -> LegacyShortcut {
    fold_parts(split_plus(t), split_plus(t).len() as int)
}

/// Text that stands for "no shortcut".
pub open spec fn is_unset_text(t: Seq<char>) -> bool {
    t.len() == 0 || eq_ignore_ascii_case(t, "none"@) || eq_ignore_ascii_case(t, "unset"@)
}

/// `code`, or `fallback` when `code` is empty and `fallback` is not.
pub open spec fn code_or_fallback(code: Seq<char>, fallback: Seq<char>) -> Seq<char> {
    if code.len() == 0 && fallback.len() > 0 {
        fallback
    } else {
        code
    }
}

fn apply_part_exec(acc: (bool, bool, bool, bool, String), part: &Vec<char>) -> (r: (
    bool,
    bool,
    bool,
    bool,
    String,
))
    ensures
        (r.0, r.1, r.2, r.3, r.4@) == apply_part((acc.0, acc.1, acc.2, acc.3, acc.4@), part@),
{
    let (lo, hi) = crate::text::trim_bounds(part);
    let q = crate::text::string_of_range(part, lo, hi);
    let ls = to_lowercase(q.as_str());
    let l = chars_of(ls.as_str());
    if chars_eq_str(&l, "ctrl") || chars_eq_str(&l, "control") {
        (true, acc.1, acc.2, acc.3, acc.4)
    } else if chars_eq_str(&l, "alt") {
        (acc.0, true, acc.2, acc.3, acc.4)
    } else if chars_eq_str(&l, "shift") {
        (acc.0, acc.1, true, acc.3, acc.4)
    } else if chars_eq_str(&l, "win") || chars_eq_str(&l, "meta") || chars_eq_str(&l, "cmd")
        || chars_eq_str(&l, "command") {
        (acc.0, acc.1, acc.2, true, acc.4)
    } else {
        let norm = normalize_key_code(q.as_str());
        if chars_of(norm.as_str()).len() > 0 {
            (acc.0, acc.1, acc.2, acc.3, norm)
        } else {
            acc
        }
    }
}

/// The shortcut written in the legacy `Ctrl+Alt+D` form.
fn parse_legacy(t: &Vec<char>) -> (r: (bool, bool, bool, bool, String))
    ensures
        (r.0, r.1, r.2, r.3, r.4@) == legacy_shortcut(t@),
{
    let mut acc: (bool, bool, bool, bool, String) = (false, false, false, false, String::new());
    let mut cur: Vec<char> = Vec::new();
    let mut k: usize = 0;
    proof {
        assert(t@.take(0) =~= Seq::<char>::empty());
        assert(split_plus(Seq::<char>::empty()) == seq![Seq::<char>::empty()]);
    }
    while k < t.len()
        invariant
            k <= t@.len(),
            split_plus(t@.take(k as int)).len() >= 1,
            (acc.0, acc.1, acc.2, acc.3, acc.4@) == fold_parts(
                split_plus(t@.take(k as int)),
                split_plus(t@.take(k as int)).len() - 1,
            ),
            cur@ == split_plus(t@.take(k as int)).last(),
        decreases t.len() - k,
    {
        let ghost sp = split_plus(t@.take(k as int));
        let c = t[k];
        proof {
            assert(t@.take(k + 1).drop_last() =~= t@.take(k as int));
            assert(t@.take(k + 1).last() == c);
        }
        if c == '+' {
            acc = apply_part_exec(acc, &cur);
            cur = Vec::new();
            proof {
                let sp2 = split_plus(t@.take(k + 1));
                assert(sp2 == sp.push(Seq::<char>::empty()));
                lemma_fold_parts_prefix(sp2, sp, sp.len() - 1);
                assert(cur@ =~= sp2.last());
            }
        } else {
            cur.push(c);
            proof {
                let sp2 = split_plus(t@.take(k + 1));
                assert(sp2 == sp.update(sp.len() - 1, sp.last().push(c)));
                lemma_fold_parts_prefix(sp2, sp, sp.len() - 1);
            }
        }
        k = k + 1;
    }
    proof {
        assert(t@.take(t@.len() as int) =~= t@);
    }
    apply_part_exec(acc, &cur)
}

/// Reads a stored or typed shortcut. `decoded` is what decoding the trimmed
/// text as the JSON form of a `ShortcutSpec` gave, if it decoded. Empty,
/// "none" and "unset" mean the fallback key without modifiers; a decoded
/// value is taken as it is; anything else is read in the `Ctrl+Alt+D` form.
/// An empty key code is replaced by a non-empty `fallback_code`.
pub fn parse_shortcut_spec_or_str(s: &str, fallback_code: &str, decoded: Option<ShortcutSpec>) -> (r:
    ShortcutSpec)
    ensures
        is_unset_text(trim(s@)) ==> {
            &&& r.code@ == fallback_code@
            &&& !r.ctrl && !r.alt && !r.shift && !r.meta
        },
        !is_unset_text(trim(s@)) && decoded is Some ==> {
            let d = decoded->0;
            &&& r.code@ == code_or_fallback(d.code@, fallback_code@)
            &&& r.ctrl == d.ctrl && r.alt == d.alt && r.shift == d.shift && r.meta == d.meta
        },
        !is_unset_text(trim(s@)) && decoded is None ==> {
            let l = legacy_shortcut(trim(s@));
            &&& r.code@ == code_or_fallback(l.4, fallback_code@)
            &&& r.ctrl == l.0 && r.alt == l.1 && r.shift == l.2 && r.meta == l.3
        },
{
    let t = trimmed_chars(s);
    if t.len() == 0 || eq_ignore_case(&t, "none") || eq_ignore_case(&t, "unset") {
        return ShortcutSpec {
            code: owned(fallback_code),
            ctrl: false,
            alt: false,
            shift: false,
            meta: false,
        };
    }
    let fallback_empty = chars_of(fallback_code).len() == 0;
    match decoded {
        Some(mut spec) => {
            if chars_of(spec.code.as_str()).len() == 0 && !fallback_empty {
                spec.code = owned(fallback_code);
            }
            spec
        },
        None => {
            let (ctrl, alt, shift, meta, code) = parse_legacy(&t);
            let code = if chars_of(code.as_str()).len() == 0 && !fallback_empty {
                owned(fallback_code)
            } else {
                code
            };
            ShortcutSpec { code, ctrl, alt, shift, meta }
        },
    }
}

/// What a global hotkey does.
#[derive(Debug, Clone, Copy, PartialEq, Eq, Hash, Structural)]
pub enum HotkeyAction {
    Clipboard,
    Recent,
    Appearance,
    Desktop,
    BrightnessUp,
    BrightnessDown,
    BrightnessScreen,
}

/// The name of an action in settings and status maps.
pub open spec fn action_name(a: HotkeyAction) -> Seq<char> {
    match a {
        HotkeyAction::Clipboard => "clipboard"@,
        HotkeyAction::Recent => "recent"@,
        HotkeyAction::Appearance => "appearance"@,
        HotkeyAction::Desktop => "desktop"@,
        HotkeyAction::BrightnessUp => "brightness_up"@,
        HotkeyAction::BrightnessDown => "brightness_down"@,
        HotkeyAction::BrightnessScreen => "brightness_screen"@,
    }
}

/// The action a name denotes.
pub open spec fn action_from_name(s: Seq<char>) -> Option<HotkeyAction> {
    if s == "clipboard"@ {
        Some(HotkeyAction::Clipboard)
    } else if s == "recent"@ {
        Some(HotkeyAction::Recent)
    } else if s == "appearance"@ {
        Some(HotkeyAction::Appearance)
    } else if s == "desktop"@ {
        Some(HotkeyAction::Desktop)
    } else if s == "brightness_up"@ {
        Some(HotkeyAction::BrightnessUp)
    } else if s == "brightness_down"@ {
        Some(HotkeyAction::BrightnessDown)
    } else if s == "brightness_screen"@ {
        Some(HotkeyAction::BrightnessScreen)
    } else {
        None
    }
}

pub open spec fn unknown_action_message(s: Seq<char>) -> Seq<char> {
    "Неизвестное действие для хоткея: "@ + s
}

impl HotkeyAction {
    pub fn as_str(&self) -> (s: &'static str)
        ensures
            s@ == action_name(*self),
    {
        match self {
            HotkeyAction::Clipboard => "clipboard",
            HotkeyAction::Recent => "recent",
            HotkeyAction::Appearance => "appearance",
            HotkeyAction::Desktop => "desktop",
            HotkeyAction::BrightnessUp => "brightness_up",
            HotkeyAction::BrightnessDown => "brightness_down",
            HotkeyAction::BrightnessScreen => "brightness_screen",
        }
    }

    /// The action a name denotes, or the error that names the unknown action.
    pub fn parse_action(s: &str) -> (r: Result<Self, String>)
        ensures
            r matches Ok(a) ==> action_from_name(s@) == Some(a),
            r matches Err(e) ==> action_from_name(s@) is None && e@ == unknown_action_message(s@),
    {
        let cs = chars_of(s);
        if chars_eq_str(&cs, "clipboard") {
            Ok(HotkeyAction::Clipboard)
        } else if chars_eq_str(&cs, "recent") {
            Ok(HotkeyAction::Recent)
        } else if chars_eq_str(&cs, "appearance") {
            Ok(HotkeyAction::Appearance)
        } else if chars_eq_str(&cs, "desktop") {
            Ok(HotkeyAction::Desktop)
        } else if chars_eq_str(&cs, "brightness_up") {
            Ok(HotkeyAction::BrightnessUp)
        } else if chars_eq_str(&cs, "brightness_down") {
            Ok(HotkeyAction::BrightnessDown)
        } else if chars_eq_str(&cs, "brightness_screen") {
            Ok(HotkeyAction::BrightnessScreen)
        } else {
            let mut e = owned("Неизвестное действие для хоткея: ");
            push_str(&mut e, s);
            Err(e)
        }
    }

    /// Whether the action's hotkey is kept with the brightness preferences
    /// rather than the application settings.
    pub fn is_brightness(&self) -> (r: bool)
        ensures
            r == (*self == HotkeyAction::BrightnessUp || *self == HotkeyAction::BrightnessDown
                || *self == HotkeyAction::BrightnessScreen),
    {
        match self {
            HotkeyAction::BrightnessUp | HotkeyAction::BrightnessDown
            | HotkeyAction::BrightnessScreen => true,
            _ => false,
        }
    }
}

impl std::str::FromStr for HotkeyAction {
    type Err = String;

    fn from_str(s: &str) -> (r: Result<Self, Self::Err>)
        ensures
            r matches Ok(a) ==> action_from_name(s@) == Some(a),
            r matches Err(e) ==> action_from_name(s@) is None && e@ == unknown_action_message(s@),
    {
        HotkeyAction::parse_action(s)
    }
}

/// Reading an action's name back gives the action.
pub proof fn lemma_action_name_round_trip(a: HotkeyAction)
    ensures
        action_from_name(action_name(a)) == Some(a),
{
    reveal_strlit("clipboard");
    reveal_strlit("recent");
    reveal_strlit("appearance");
    reveal_strlit("desktop");
    reveal_strlit("brightness_up");
    reveal_strlit("brightness_down");
    reveal_strlit("brightness_screen");
    let names = seq![
        "clipboard"@,
        "recent"@,
        "appearance"@,
        "desktop"@,
        "brightness_up"@,
        "brightness_down"@,
        "brightness_screen"@,
    ];
    assert(names[0][0] != names[1][0] && names[0][0] != names[2][0] && names[0][0] != names[3][0]
        && names[0][0] != names[4][0] && names[0][0] != names[5][0] && names[0][0]
        != names[6][0]);
    assert(names[1][0] != names[2][0] && names[1][0] != names[3][0] && names[1][0] != names[4][0]
        && names[1][0] != names[5][0] && names[1][0] != names[6][0]);
    assert(names[2][0] != names[3][0] && names[2][0] != names[4][0] && names[2][0]
        != names[5][0] && names[2][0] != names[6][0]);
    assert(names[3][0] != names[4][0] && names[3][0] != names[5][0] && names[3][0]
        != names[6][0]);
    assert(names[4][11] != names[5][11] && names[4][11] != names[6][11] && names[5][11]
        != names[6][11]);
    assert(names[0] != names[1] && names[0] != names[2] && names[0] != names[3] && names[0]
        != names[4] && names[0] != names[5] && names[0] != names[6]);
    assert(names[1] != names[2] && names[1] != names[3] && names[1] != names[4] && names[1]
        != names[5] && names[1] != names[6]);
    assert(names[2] != names[3] && names[2] != names[4] && names[2] != names[5] && names[2]
        != names[6]);
    assert(names[3] != names[4] && names[3] != names[5] && names[3] != names[6]);
    assert(names[4] != names[5] && names[4] != names[6] && names[5] != names[6]);
}

/// Stores a hotkey in the settings record its action belongs to: the
/// application settings for the section hotkeys, the brightness preferences
/// for the brightness hotkeys. Nothing else changes.
pub fn update_hotkey_in_settings(
    settings: &mut AppSettings,
    prefs: &mut BrightnessPreferences,
    action: HotkeyAction,
    spec_json: &str,
)
    ensures
        action == HotkeyAction::Clipboard ==> *final(settings) == (AppSettings {
            hotkey_clipboard: final(settings).hotkey_clipboard,
            ..*old(settings)
        }) && final(settings).hotkey_clipboard@ == spec_json@ && *final(prefs) == *old(prefs),
        action == HotkeyAction::Recent ==> *final(settings) == (AppSettings {
            hotkey_recent: final(settings).hotkey_recent,
            ..*old(settings)
        }) && final(settings).hotkey_recent@ == spec_json@ && *final(prefs) == *old(prefs),
        action == HotkeyAction::Appearance ==> *final(settings) == (AppSettings {
            hotkey_appearance: final(settings).hotkey_appearance,
            ..*old(settings)
        }) && final(settings).hotkey_appearance@ == spec_json@ && *final(prefs) == *old(prefs),
        action == HotkeyAction::Desktop ==> *final(settings) == (AppSettings {
            hotkey_desktop: final(settings).hotkey_desktop,
            ..*old(settings)
        }) && final(settings).hotkey_desktop@ == spec_json@ && *final(prefs) == *old(prefs),
        action == HotkeyAction::BrightnessUp ==> *final(prefs) == (BrightnessPreferences {
            hotkey_brightness_up: final(prefs).hotkey_brightness_up,
            ..*old(prefs)
        }) && final(prefs).hotkey_brightness_up is Some
            && final(prefs).hotkey_brightness_up->0@ == spec_json@
            && *final(settings) == *old(settings),
        action == HotkeyAction::BrightnessDown ==> *final(prefs) == (BrightnessPreferences {
            hotkey_brightness_down: final(prefs).hotkey_brightness_down,
            ..*old(prefs)
        }) && final(prefs).hotkey_brightness_down is Some
            && final(prefs).hotkey_brightness_down->0@ == spec_json@
            && *final(settings) == *old(settings),
        action == HotkeyAction::BrightnessScreen ==> *final(prefs) == (BrightnessPreferences {
            hotkey_brightness_screen: final(prefs).hotkey_brightness_screen,
            ..*old(prefs)
        }) && final(prefs).hotkey_brightness_screen is Some
            && final(prefs).hotkey_brightness_screen->0@ == spec_json@
            && *final(settings) == *old(settings),
{
    let v = owned(spec_json);
    match action {
        HotkeyAction::Clipboard => {
            settings.hotkey_clipboard = v;
        },
        HotkeyAction::Recent => {
            settings.hotkey_recent = v;
        },
        HotkeyAction::Appearance => {
            settings.hotkey_appearance = v;
        },
        HotkeyAction::Desktop => {
            settings.hotkey_desktop = v;
        },
        HotkeyAction::BrightnessUp => {
            prefs.hotkey_brightness_up = Some(v);
        },
        HotkeyAction::BrightnessDown => {
            prefs.hotkey_brightness_down = Some(v);
        },
        HotkeyAction::BrightnessScreen => {
            prefs.hotkey_brightness_screen = Some(v);
        },
    }
}

/// Two shortcuts are the same key combination.
pub open spec fn same_key(a: ShortcutKey, b: ShortcutKey) -> bool {
    a.code@ == b.code@ && a.ctrl == b.ctrl && a.alt == b.alt && a.shift == b.shift && a.meta
        == b.meta
}

fn same_key_exec(a: &ShortcutKey, b: &ShortcutKey) -> (r: bool)
    ensures
        r == same_key(*a, *b),
{
    a.code == b.code && a.ctrl == b.ctrl && a.alt == b.alt && a.shift == b.shift && a.meta
        == b.meta
}

/// What changing the hotkey of an action has to do.
#[derive(Debug, Clone)]
pub enum HotkeyUpdatePlan {
    /// The action already has exactly this shortcut.
    Unchanged,
    /// Register the new shortcut; afterwards release the old one, if any.
    Replace { old: Option<ShortcutKey> },
}

pub open spec fn conflict_message() -> Seq<char> {
    "Эта комбинация уже используется для другого действия в Avel."@
}

/// Index of the first entry of `active` for `action`.
pub open spec fn first_entry_of(active: Seq<(HotkeyAction, ShortcutKey)>, action: HotkeyAction) -> Option<int> {
    if exists|i: int| 0 <= i < active.len() && (#[trigger] active[i]).0 == action && forall|j: int| 0 <= j < i ==> (#[trigger] active[j]).0 != action {
        Some(choose|i: int| 0 <= i < active.len() && (#[trigger] active[i]).0 == action && forall|j: int| 0 <= j < i ==> (#[trigger] active[j]).0 != action)
    } else {
        None
    }
}

/// Decides how to move `action` to the shortcut `new_key`, given the shortcuts
/// registered for each action (`active`). A shortcut that another action
/// already uses is refused.
pub fn plan_hotkey_update(
    active: &Vec<(HotkeyAction, ShortcutKey)>,
    action: HotkeyAction,
    new_key: &ShortcutKey,
) -> (r: Result<HotkeyUpdatePlan, String>)
    ensures
        (exists|i: int| 0 <= i < active@.len() && (#[trigger] active@[i]).0 != action && same_key(active@[i].1, *new_key))
            <==> r is Err,
        r matches Err(e) ==> e@ == conflict_message(),
        r is Ok ==> match first_entry_of(active@, action) {
            Some(i) => if same_key(active@[i].1, *new_key) {
                r->Ok_0 is Unchanged
            } else {
                r->Ok_0 matches HotkeyUpdatePlan::Replace { old } && old is Some && old->0
                    == active@[i].1
            },
            None => r->Ok_0 matches HotkeyUpdatePlan::Replace { old } && old is None,
        },
{
    let mut i: usize = 0;
    while i < active.len()
        invariant
            i <= active@.len(),
            forall|j: int| 0 <= j < i ==> !((#[trigger] active@[j]).0 != action && same_key(active@[j].1, *new_key)),
        decreases active.len() - i,
    {
        if active[i].0 != action && same_key_exec(&active[i].1, new_key) {
            return Err(owned("Эта комбинация уже используется для другого действия в Avel."));
        }
        i = i + 1;
    }
    let mut k: usize = 0;
    while k < active.len()
        invariant
            k <= active@.len(),
            forall|j: int| 0 <= j < k ==> (#[trigger] active@[j]).0 != action,
            forall|j: int| 0 <= j < active@.len() ==> !((#[trigger] active@[j]).0 != action && same_key(active@[j].1, *new_key)),
        decreases active.len() - k,
    {
        if active[k].0 == action {
            proof {
                let ki = k as int;
                assert(0 <= ki < active@.len() && active@[ki].0 == action && forall|j: int| 0 <= j < ki ==> (#[trigger] active@[j]).0 != action);
                let c = choose|i: int| 0 <= i < active@.len() && (#[trigger] active@[i]).0 == action && forall|j: int| 0 <= j < i ==> (#[trigger] active@[j]).0 != action;
                assert(c == ki) by {
                    if c < ki {
                        assert(active@[c].0 != action);
                    } else if c > ki {
                        assert(active@[ki].0 != action);
                    }
                }
            }
            if same_key_exec(&active[k].1, new_key) {
                return Ok(HotkeyUpdatePlan::Unchanged);
            }
            return Ok(HotkeyUpdatePlan::Replace { old: Some(active[k].1.clone_key()) });
        }
        k = k + 1;
    }
    Ok(HotkeyUpdatePlan::Replace { old: None })
}

impl ShortcutKey {
    /// A copy of the shortcut.
    pub fn clone_key(&self) -> (r: Self)
        ensures
            r == *self,
    {
        ShortcutKey {
            code: self.code.clone(),
            ctrl: self.ctrl,
            alt: self.alt,
            shift: self.shift,
            meta: self.meta,
        }
    }
}

/// Registration state of one action's hotkey, as shown to the user.
#[derive(Debug, Clone)]
pub struct HotkeyStatusInfo {
    pub is_registered: bool,
    pub error_message: Option<String>,
}

/// The first step of registering an action's hotkey.
#[derive(Debug, Clone)]
pub enum RegistrationStep {
    /// No key is set: nothing to register, the hotkey is inactive without error.
    Unset,
    /// The shortcut cannot be built; the status carries the reason.
    Invalid(HotkeyStatusInfo),
    /// Register this shortcut with the operating system.
    Register(ShortcutKey),
}

/// Decides how to register the hotkey `spec`.
pub fn registration_step(spec: &ShortcutSpec) -> (r: RegistrationStep)
    ensures
        trim(spec.code@).len() == 0 <==> r is Unset,
        r matches RegistrationStep::Invalid(st) ==> !st.is_registered && st.error_message is Some
            && st.error_message->0@ == code_error(normalized_key(spec.code@))
            && !is_supported_code(normalized_key(spec.code@)),
        r matches RegistrationStep::Register(k) ==> is_supported_code(normalized_key(spec.code@))
            && k.code@ == normalized_key(spec.code@) && k.ctrl == spec.ctrl && k.alt == spec.alt
            && k.shift == spec.shift && k.meta == spec.meta,
        trim(spec.code@).len() != 0 ==> (r is Register <==> is_supported_code(
            normalized_key(spec.code@),
        )),
{
    let t = trimmed_chars(spec.code.as_str());
    if t.len() == 0 {
        return RegistrationStep::Unset;
    }
    match spec_to_shortcut(spec) {
        Ok(k) => RegistrationStep::Register(k),
        Err(e) => RegistrationStep::Invalid(HotkeyStatusInfo { is_registered: false, error_message: Some(e) }),
    }
}

pub open spec fn busy_shortcut_message(code: Seq<char>) -> Seq<char> {
    code + " уже используется другой программой или занят системой"@
}

/// The status of a hotkey after the operating system accepted or refused it.
pub fn registration_status(spec: &ShortcutSpec, os_accepted: bool) -> (r: HotkeyStatusInfo)
    ensures
        r.is_registered == os_accepted,
        os_accepted ==> r.error_message is None,
        !os_accepted ==> r.error_message is Some && r.error_message->0@ == busy_shortcut_message(
            spec.code@,
        ),
{
    if os_accepted {
        HotkeyStatusInfo { is_registered: true, error_message: None }
    } else {
        let mut e = spec.code.clone();
        push_str(&mut e, " уже используется другой программой или занят системой");
        HotkeyStatusInfo { is_registered: false, error_message: Some(e) }
    }
}

/// One hotkey to register at startup: the action, the stored text of its
/// shortcut and the key to fall back on.
pub struct StartupHotkey {
    pub action: HotkeyAction,
    pub stored: String,
    pub fallback_code: &'static str,
}

/// The optional brightness hotkey is configured.
pub open spec fn configured(h: Option<String>) -> bool {
    h is Some && trim(h->0@).len() > 0
}

fn push_optional(
    list: &mut Vec<StartupHotkey>,
    action: HotkeyAction,
    stored: &Option<String>,
    fallback_code: &'static str,
)
    ensures
        configured(*stored) ==> final(list)@.len() == old(list)@.len() + 1 && final(list)@.take(
            old(list)@.len() as int,
        ) == old(list)@ && final(list)@.last().action == action && final(list)@.last().stored@
            == stored->0@ && final(list)@.last().fallback_code@ == fallback_code@,
        !configured(*stored) ==> final(list)@ == old(list)@,
{
    if let Some(s) = stored {
        let t = trimmed_chars(s.as_str());
        if t.len() > 0 {
            let ghost before = list@;
            list.push(StartupHotkey { action, stored: s.clone(), fallback_code });
            assert(list@.take(before.len() as int) =~= before);
        }
    }
}

/// The hotkeys registered at startup, in order: the four section hotkeys with
/// their default keys, then each brightness hotkey that is configured.
pub fn startup_hotkeys(settings: &AppSettings, prefs: &BrightnessPreferences) -> (r: Vec<StartupHotkey>)
    ensures
        r@.len() >= 4,
        r@[0].action == HotkeyAction::Clipboard && r@[0].stored@ == settings.hotkey_clipboard@
            && r@[0].fallback_code@ == "Equal"@,
        r@[1].action == HotkeyAction::Recent && r@[1].stored@ == settings.hotkey_recent@
            && r@[1].fallback_code@ == "F8"@,
        r@[2].action == HotkeyAction::Appearance && r@[2].stored@ == settings.hotkey_appearance@
            && r@[2].fallback_code@ == "KeyD"@,
        r@[3].action == HotkeyAction::Desktop && r@[3].stored@ == settings.hotkey_desktop@
            && r@[3].fallback_code@ == "ArrowDown"@,
        r@.len() == 4 + (if configured(prefs.hotkey_brightness_up) { 1int } else { 0 })
            + (if configured(prefs.hotkey_brightness_down) { 1int } else { 0 })
            + (if configured(prefs.hotkey_brightness_screen) { 1int } else { 0 }),
        forall|i: int| 4 <= i < r@.len() ==> {
            let h = #[trigger] r@[i];
            ||| h.action == HotkeyAction::BrightnessUp && configured(prefs.hotkey_brightness_up)
                && h.stored@ == prefs.hotkey_brightness_up->0@ && h.fallback_code@ == "PageUp"@
            ||| h.action == HotkeyAction::BrightnessDown && configured(prefs.hotkey_brightness_down)
                && h.stored@ == prefs.hotkey_brightness_down->0@ && h.fallback_code@ == "PageDown"@
            ||| h.action == HotkeyAction::BrightnessScreen && configured(prefs.hotkey_brightness_screen)
                && h.stored@ == prefs.hotkey_brightness_screen->0@ && h.fallback_code@ == "KeyB"@
        },
        forall|i: int, j: int| 4 <= i < j < r@.len() ==> (#[trigger] r@[i]).action != (#[trigger] r@[j]).action,
{
    let mut list: Vec<StartupHotkey> = Vec::new();
    list.push(StartupHotkey { action: HotkeyAction::Clipboard, stored: settings.hotkey_clipboard.clone(), fallback_code: "Equal" });
    list.push(StartupHotkey { action: HotkeyAction::Recent, stored: settings.hotkey_recent.clone(), fallback_code: "F8" });
    list.push(StartupHotkey { action: HotkeyAction::Appearance, stored: settings.hotkey_appearance.clone(), fallback_code: "KeyD" });
    list.push(StartupHotkey { action: HotkeyAction::Desktop, stored: settings.hotkey_desktop.clone(), fallback_code: "ArrowDown" });
    let ghost l4 = list@;
    push_optional(&mut list, HotkeyAction::BrightnessUp, &prefs.hotkey_brightness_up, "PageUp");
    let ghost l5 = list@;
    push_optional(&mut list, HotkeyAction::BrightnessDown, &prefs.hotkey_brightness_down, "PageDown");
    let ghost l6 = list@;
    push_optional(&mut list, HotkeyAction::BrightnessScreen, &prefs.hotkey_brightness_screen, "KeyB");
    proof {
        assert(forall|i: int| 0 <= i < l4.len() ==> l5[i] == l4[i]) by {
            if configured(prefs.hotkey_brightness_up) {
                assert forall|i: int| 0 <= i < l4.len() implies l5[i] == l4[i] by {
                    assert(l5.take(l4.len() as int)[i] == l5[i]);
                }
            }
        }
        assert(forall|i: int| 0 <= i < l5.len() ==> l6[i] == l5[i]) by {
            if configured(prefs.hotkey_brightness_down) {
                assert forall|i: int| 0 <= i < l5.len() implies l6[i] == l5[i] by {
                    assert(l6.take(l5.len() as int)[i] == l6[i]);
                }
            }
        }
        assert(forall|i: int| 0 <= i < l6.len() ==> list@[i] == l6[i]) by {
            if configured(prefs.hotkey_brightness_screen) {
                assert forall|i: int| 0 <= i < l6.len() implies list@[i] == l6[i] by {
                    assert(list@.take(l6.len() as int)[i] == list@[i]);
                }
            }
        }
        assert(l5[0] == l4[0] && l5[1] == l4[1] && l5[2] == l4[2] && l5[3] == l4[3]);
        assert(l6[0] == l5[0] && l6[1] == l5[1] && l6[2] == l5[2] && l6[3] == l5[3]);
        assert(list@[0] == l6[0] && list@[1] == l6[1] && list@[2] == l6[2] && list@[3] == l6[3]);
    }
    list
}

/// What a brightness hotkey asks for: the change in percent (the step,
/// negated for "down") and whether it applies to the whole group.
pub fn brightness_hotkey_adjustment(prefs: &BrightnessPreferences, up: bool) -> (r: (i32, bool))
    requires
        !up ==> crate::brightness::levels::as_i32(prefs.step_percent) != -0x8000_0000,
    ensures
        up ==> r.0 == crate::brightness::levels::as_i32(prefs.step_percent),
        !up ==> r.0 == -crate::brightness::levels::as_i32(prefs.step_percent),
        r.1 == prefs.sync_group,
{
    let step: i64 = if prefs.step_percent <= 0x7fff_ffff {
        prefs.step_percent as i64
    } else {
        prefs.step_percent as i64 - 0x1_0000_0000
    };
    let d: i64 = if up {
        step
    } else {
        -step
    };
    (d as i32, prefs.sync_group)
}

/// Whether pressing a section hotkey hides the window: it does when the
/// window is shown, not minimised, and already on that section.
pub fn section_hotkey_hides(is_visible: bool, is_minimized: bool, last_section: &str, section: &str) -> (r: bool)
    ensures
        r == (is_visible && !is_minimized && last_section@ == section@),
{
    is_visible && !is_minimized && crate::text::str_eq(last_section, section)
}


/// The action routed to a shortcut: the first route with the same key.
pub open spec fn route_for_key(s: Seq<(ShortcutKey, HotkeyAction)>, k: ShortcutKey) -> Option<HotkeyAction>
    decreases s.len(),
{
    if s.len() == 0 {
        None
    } else if same_key(s[0].0, k) {
        Some(s[0].1)
    } else {
        route_for_key(s.drop_first(), k)
    }
}

/// The action routed to a shortcut id: the first route with that id.
pub open spec fn route_for_id(s: Seq<(u32, HotkeyAction)>, id: u32) -> Option<HotkeyAction>
    decreases s.len(),
{
    if s.len() == 0 {
        None
    } else if s[0].0 == id {
        Some(s[0].1)
    } else {
        route_for_id(s.drop_first(), id)
    }
}

/// The status recorded for an action: the first entry for it.
pub open spec fn status_for(s: Seq<(HotkeyAction, HotkeyStatusInfo)>, a: HotkeyAction) -> Option<HotkeyStatusInfo>
    decreases s.len(),
{
    if s.len() == 0 {
        None
    } else if s[0].0 == a {
        Some(s[0].1)
    } else {
        status_for(s.drop_first(), a)
    }
}

/// The shortcut recorded for an action: the first entry for it.
pub open spec fn active_for(s: Seq<(HotkeyAction, ShortcutKey)>, a: HotkeyAction) -> Option<ShortcutKey>
    decreases s.len(),
{
    if s.len() == 0 {
        None
    } else if s[0].0 == a {
        Some(s[0].1)
    } else {
        active_for(s.drop_first(), a)
    }
}

proof fn lemma_route_for_key_push(s: Seq<(ShortcutKey, HotkeyAction)>, e: (ShortcutKey, HotkeyAction), k: ShortcutKey)
    ensures
        route_for_key(s.push(e), k) == match route_for_key(s, k) {
            Some(a) => Some(a),
            None => if same_key(e.0, k) { Some(e.1) } else { None },
        },
    decreases s.len(),
{
    if s.len() > 0 {
        assert(s.push(e).drop_first() =~= s.drop_first().push(e));
        assert(s.push(e)[0] == s[0]);
        lemma_route_for_key_push(s.drop_first(), e, k);
    } else {
        assert(s.push(e).drop_first() =~= s);
    }
}

proof fn lemma_route_for_id_push(s: Seq<(u32, HotkeyAction)>, e: (u32, HotkeyAction), id: u32)
    ensures
        route_for_id(s.push(e), id) == match route_for_id(s, id) {
            Some(a) => Some(a),
            None => if e.0 == id { Some(e.1) } else { None },
        },
    decreases s.len(),
{
    if s.len() > 0 {
        assert(s.push(e).drop_first() =~= s.drop_first().push(e));
        assert(s.push(e)[0] == s[0]);
        lemma_route_for_id_push(s.drop_first(), e, id);
    } else {
        assert(s.push(e).drop_first() =~= s);
    }
}

proof fn lemma_status_for_push(s: Seq<(HotkeyAction, HotkeyStatusInfo)>, e: (HotkeyAction, HotkeyStatusInfo), a: HotkeyAction)
    ensures
        status_for(s.push(e), a) == match status_for(s, a) {
            Some(x) => Some(x),
            None => if e.0 == a { Some(e.1) } else { None },
        },
    decreases s.len(),
{
    if s.len() > 0 {
        assert(s.push(e).drop_first() =~= s.drop_first().push(e));
        assert(s.push(e)[0] == s[0]);
        lemma_status_for_push(s.drop_first(), e, a);
    } else {
        assert(s.push(e).drop_first() =~= s);
    }
}

proof fn lemma_active_for_push(s: Seq<(HotkeyAction, ShortcutKey)>, e: (HotkeyAction, ShortcutKey), a: HotkeyAction)
    ensures
        active_for(s.push(e), a) == match active_for(s, a) {
            Some(x) => Some(x),
            None => if e.0 == a { Some(e.1) } else { None },
        },
    decreases s.len(),
{
    if s.len() > 0 {
        assert(s.push(e).drop_first() =~= s.drop_first().push(e));
        assert(s.push(e)[0] == s[0]);
        lemma_active_for_push(s.drop_first(), e, a);
    } else {
        assert(s.push(e).drop_first() =~= s);
    }
}

/// How a pressed hotkey is resolved: by its key combination first, then by
/// the id the shortcut plugin gives it.
pub open spec fn resolution(keys: Seq<(ShortcutKey, HotkeyAction)>, ids: Seq<(u32, HotkeyAction)>, k: ShortcutKey, id: u32) -> Option<HotkeyAction> {
    match route_for_key(keys, k) {
        Some(a) => Some(a),
        None => route_for_id(ids, id),
    }
}

proof fn lemma_route_for_key_last(s: Seq<(ShortcutKey, HotkeyAction)>, k: ShortcutKey, a: HotkeyAction)
    requires
        forall|i: int| 0 <= i < s.len() ==> !same_key(#[trigger] s[i].0, k),
    ensures
        route_for_key(s.push((k, a)), k) == Some(a),
    decreases s.len(),
{
    if s.len() > 0 {
        assert(s.push((k, a)).drop_first() =~= s.drop_first().push((k, a)));
        assert forall|i: int| 0 <= i < s.drop_first().len() implies !same_key(#[trigger] s.drop_first()[i].0, k) by {
            assert(s.drop_first()[i] == s[i + 1]);
        }
        lemma_route_for_key_last(s.drop_first(), k, a);
    }
}

proof fn lemma_route_for_id_last(s: Seq<(u32, HotkeyAction)>, id: u32, a: HotkeyAction)
    requires
        forall|i: int| 0 <= i < s.len() ==> (#[trigger] s[i]).0 != id,
    ensures
        route_for_id(s.push((id, a)), id) == Some(a),
    decreases s.len(),
{
    if s.len() > 0 {
        assert(s.push((id, a)).drop_first() =~= s.drop_first().push((id, a)));
        assert forall|i: int| 0 <= i < s.drop_first().len() implies (#[trigger] s.drop_first()[i]).0 != id by {
            assert(s.drop_first()[i] == s[i + 1]);
        }
        lemma_route_for_id_last(s.drop_first(), id, a);
    }
}

proof fn lemma_status_for_last(s: Seq<(HotkeyAction, HotkeyStatusInfo)>, a: HotkeyAction, st: HotkeyStatusInfo)
    requires
        forall|i: int| 0 <= i < s.len() ==> (#[trigger] s[i]).0 != a,
    ensures
        status_for(s.push((a, st)), a) == Some(st),
    decreases s.len(),
{
    if s.len() > 0 {
        assert(s.push((a, st)).drop_first() =~= s.drop_first().push((a, st)));
        assert forall|i: int| 0 <= i < s.drop_first().len() implies (#[trigger] s.drop_first()[i]).0 != a by {
            assert(s.drop_first()[i] == s[i + 1]);
        }
        lemma_status_for_last(s.drop_first(), a, st);
    }
}

/// The hotkey routing of the running application: which action each
/// registered shortcut triggers, and the registration status of each action.
pub struct HotkeyState {
    pub shortcut_routes: Vec<(ShortcutKey, HotkeyAction)>,
    pub id_routes: Vec<(u32, HotkeyAction)>,
    pub active_shortcuts: Vec<(HotkeyAction, ShortcutKey)>,
    pub statuses: Vec<(HotkeyAction, HotkeyStatusInfo)>,
}

impl HotkeyState {
    /// No routes and no statuses.
    pub fn new() -> (s: Self)
        ensures
            s.shortcut_routes@.len() == 0,
            s.id_routes@.len() == 0,
            s.active_shortcuts@.len() == 0,
            s.statuses@.len() == 0,
    {
        HotkeyState {
            shortcut_routes: Vec::new(),
            id_routes: Vec::new(),
            active_shortcuts: Vec::new(),
            statuses: Vec::new(),
        }
    }

    /// Routes a shortcut, by key and by id, to an action; earlier routes of
    /// the same key or id are dropped.
    pub fn route(&mut self, key: ShortcutKey, id: u32, action: HotkeyAction)
        ensures
            route_for_key(final(self).shortcut_routes@, key) == Some(action),
            route_for_id(final(self).id_routes@, id) == Some(action),
            forall|k: ShortcutKey| !same_key(k, key) ==> #[trigger] route_for_key(final(self).shortcut_routes@, k)
                == route_for_key(old(self).shortcut_routes@, k),
            forall|i: u32| i != id ==> #[trigger] route_for_id(final(self).id_routes@, i)
                == route_for_id(old(self).id_routes@, i),
            final(self).statuses == old(self).statuses,
            final(self).active_shortcuts == old(self).active_shortcuts,
    {
        let ghost src = self.shortcut_routes@;
        let mut keys: Vec<(ShortcutKey, HotkeyAction)> = Vec::new();
        let mut i: usize = 0;
        while i < self.shortcut_routes.len()
            invariant
                src == self.shortcut_routes@,
                i <= self.shortcut_routes@.len(),
                forall|j: int| 0 <= j < keys@.len() ==> !same_key(#[trigger] keys@[j].0, key),
                forall|k: ShortcutKey| !same_key(k, key) ==> #[trigger] route_for_key(keys@, k)
                    == route_for_key(src.take(i as int), k),
            decreases self.shortcut_routes.len() - i,
        {
            let ghost before = keys@;
            let ghost e = src[i as int];
            assert(src.take(i + 1) =~= src.take(i as int).push(e));
            if !same_key_exec(&self.shortcut_routes[i].0, &key) {
                keys.push((self.shortcut_routes[i].0.clone_key(), self.shortcut_routes[i].1));
                assert(keys@ =~= before.push(e));
            }
            assert forall|k: ShortcutKey| !same_key(k, key) implies #[trigger] route_for_key(keys@, k)
                == route_for_key(src.take(i + 1), k) by {
                lemma_route_for_key_push(src.take(i as int), e, k);
                lemma_route_for_key_push(before, e, k);
            }
            i = i + 1;
        }
        assert(src.take(src.len() as int) =~= src);
        proof {
            lemma_route_for_key_last(keys@, key, action);
            assert forall|k: ShortcutKey| !same_key(k, key) implies #[trigger] route_for_key(keys@.push((key, action)), k)
                == route_for_key(src, k) by {
                lemma_route_for_key_push(keys@, (key, action), k);
            }
        }
        keys.push((key, action));
        let ghost isrc = self.id_routes@;
        let mut ids: Vec<(u32, HotkeyAction)> = Vec::new();
        let mut j: usize = 0;
        while j < self.id_routes.len()
            invariant
                isrc == self.id_routes@,
                j <= self.id_routes@.len(),
                forall|k: int| 0 <= k < ids@.len() ==> (#[trigger] ids@[k]).0 != id,
                forall|x: u32| x != id ==> #[trigger] route_for_id(ids@, x) == route_for_id(isrc.take(j as int), x),
            decreases self.id_routes.len() - j,
        {
            let ghost before = ids@;
            let ghost e = isrc[j as int];
            assert(isrc.take(j + 1) =~= isrc.take(j as int).push(e));
            if self.id_routes[j].0 != id {
                ids.push(self.id_routes[j]);
                assert(ids@ =~= before.push(e));
            }
            assert forall|x: u32| x != id implies #[trigger] route_for_id(ids@, x) == route_for_id(isrc.take(j + 1), x) by {
                lemma_route_for_id_push(isrc.take(j as int), e, x);
                lemma_route_for_id_push(before, e, x);
            }
            j = j + 1;
        }
        assert(isrc.take(isrc.len() as int) =~= isrc);
        proof {
            lemma_route_for_id_last(ids@, id, action);
            assert forall|x: u32| x != id implies #[trigger] route_for_id(ids@.push((id, action)), x) == route_for_id(isrc, x) by {
                lemma_route_for_id_push(ids@, (id, action), x);
            }
        }
        ids.push((id, action));
        self.shortcut_routes = keys;
        self.id_routes = ids;
    }

    /// Records the registration status of an action.
    pub fn set_status(&mut self, action: HotkeyAction, is_registered: bool, error_message: Option<String>)
        ensures
            status_for(final(self).statuses@, action) == Some(HotkeyStatusInfo { is_registered, error_message }),
            forall|a: HotkeyAction| a != action ==> #[trigger] status_for(final(self).statuses@, a)
                == status_for(old(self).statuses@, a),
            final(self).shortcut_routes == old(self).shortcut_routes,
            final(self).id_routes == old(self).id_routes,
            final(self).active_shortcuts == old(self).active_shortcuts,
    {
        let ghost src = self.statuses@;
        let mut kept: Vec<(HotkeyAction, HotkeyStatusInfo)> = Vec::new();
        let mut i: usize = 0;
        while i < self.statuses.len()
            invariant
                src == self.statuses@,
                i <= self.statuses@.len(),
                forall|j: int| 0 <= j < kept@.len() ==> (#[trigger] kept@[j]).0 != action,
                forall|a: HotkeyAction| a != action ==> #[trigger] status_for(kept@, a) == status_for(src.take(i as int), a),
            decreases self.statuses.len() - i,
        {
            let ghost before = kept@;
            let ghost e = src[i as int];
            assert(src.take(i + 1) =~= src.take(i as int).push(e));
            if self.statuses[i].0 != action {
                let st = HotkeyStatusInfo {
                    is_registered: self.statuses[i].1.is_registered,
                    error_message: self.statuses[i].1.error_message.clone(),
                };
                kept.push((self.statuses[i].0, st));
                assert(kept@ =~= before.push(e));
            }
            assert forall|a: HotkeyAction| a != action implies #[trigger] status_for(kept@, a) == status_for(src.take(i + 1), a) by {
                lemma_status_for_push(src.take(i as int), e, a);
                lemma_status_for_push(before, e, a);
            }
            i = i + 1;
        }
        assert(src.take(src.len() as int) =~= src);
        let info = HotkeyStatusInfo { is_registered, error_message };
        proof {
            lemma_status_for_last(kept@, action, info);
            assert forall|a: HotkeyAction| a != action implies #[trigger] status_for(kept@.push((action, info)), a) == status_for(src, a) by {
                lemma_status_for_push(kept@, (action, info), a);
            }
        }
        kept.push((action, info));
        self.statuses = kept;
    }

    /// Removes the routes of a shortcut that is released.
    pub fn unroute(&mut self, key: &ShortcutKey, id: u32)
        ensures
            forall|i: int| 0 <= i < final(self).shortcut_routes@.len() ==> !same_key(#[trigger] final(self).shortcut_routes@[i].0, *key),
            forall|i: int| 0 <= i < final(self).id_routes@.len() ==> (#[trigger] final(self).id_routes@[i]).0 != id,
            forall|i: int| 0 <= i < old(self).shortcut_routes@.len() && !same_key(old(self).shortcut_routes@[i].0, *key)
                ==> final(self).shortcut_routes@.contains(#[trigger] old(self).shortcut_routes@[i]),
            final(self).statuses == old(self).statuses,
            final(self).active_shortcuts == old(self).active_shortcuts,
    {
        let mut keys: Vec<(ShortcutKey, HotkeyAction)> = Vec::new();
        let mut i: usize = 0;
        while i < self.shortcut_routes.len()
            invariant
                i <= self.shortcut_routes@.len(),
                forall|j: int| 0 <= j < keys@.len() ==> !same_key(#[trigger] keys@[j].0, *key),
                forall|j: int| 0 <= j < i && !same_key(self.shortcut_routes@[j].0, *key) ==> keys@.contains(#[trigger] self.shortcut_routes@[j]),
            decreases self.shortcut_routes.len() - i,
        {
            if !same_key_exec(&self.shortcut_routes[i].0, key) {
                let ghost before = keys@;
                keys.push((self.shortcut_routes[i].0.clone_key(), self.shortcut_routes[i].1));
                assert(keys@[keys@.len() - 1] == self.shortcut_routes@[i as int]);
                assert forall|j: int| 0 <= j < i + 1 && !same_key(self.shortcut_routes@[j].0, *key) implies keys@.contains(#[trigger] self.shortcut_routes@[j]) by {
                    if j < i {
                        let k = choose|k: int| 0 <= k < before.len() && before[k] == self.shortcut_routes@[j];
                        assert(keys@[k] == before[k]);
                    }
                }
            }
            i = i + 1;
        }
        let mut ids: Vec<(u32, HotkeyAction)> = Vec::new();
        let mut j: usize = 0;
        while j < self.id_routes.len()
            invariant
                j <= self.id_routes@.len(),
                forall|k: int| 0 <= k < ids@.len() ==> (#[trigger] ids@[k]).0 != id,
            decreases self.id_routes.len() - j,
        {
            if self.id_routes[j].0 != id {
                ids.push(self.id_routes[j]);
            }
            j = j + 1;
        }
        self.shortcut_routes = keys;
        self.id_routes = ids;
    }

    /// Records the shortcut now registered for an action, replacing the
    /// one it had.
    pub fn set_active(&mut self, action: HotkeyAction, key: ShortcutKey)
        ensures
            first_entry_of(final(self).active_shortcuts@, action) matches Some(i) && final(self).active_shortcuts@[i].1 == key,
            forall|i: int| 0 <= i < final(self).active_shortcuts@.len() && (#[trigger] final(self).active_shortcuts@[i]).0 == action
                ==> final(self).active_shortcuts@[i].1 == key,
            active_for(final(self).active_shortcuts@, action) == Some(key),
            forall|a: HotkeyAction| a != action ==> #[trigger] active_for(final(self).active_shortcuts@, a)
                == active_for(old(self).active_shortcuts@, a),
            final(self).shortcut_routes == old(self).shortcut_routes,
            final(self).id_routes == old(self).id_routes,
            final(self).statuses == old(self).statuses,
    {
        let ghost src = self.active_shortcuts@;
        let mut kept: Vec<(HotkeyAction, ShortcutKey)> = Vec::new();
        let mut i: usize = 0;
        while i < self.active_shortcuts.len()
            invariant
                src == self.active_shortcuts@,
                i <= self.active_shortcuts@.len(),
                forall|j: int| 0 <= j < kept@.len() ==> (#[trigger] kept@[j]).0 != action,
                forall|a: HotkeyAction| a != action ==> #[trigger] active_for(kept@, a) == active_for(src.take(i as int), a),
                active_for(kept@, action) is None,
            decreases self.active_shortcuts.len() - i,
        {
            let ghost prev = kept@;
            let ghost e = src[i as int];
            assert(src.take(i + 1) =~= src.take(i as int).push(e));
            if self.active_shortcuts[i].0 != action {
                kept.push((self.active_shortcuts[i].0, self.active_shortcuts[i].1.clone_key()));
                assert(kept@ =~= prev.push(e));
            }
            proof {
                lemma_active_for_push(prev, e, action);
            }
            assert forall|a: HotkeyAction| a != action implies #[trigger] active_for(kept@, a) == active_for(src.take(i + 1), a) by {
                lemma_active_for_push(src.take(i as int), e, a);
                lemma_active_for_push(prev, e, a);
            }
            i = i + 1;
        }
        assert(src.take(src.len() as int) =~= src);
        let ghost before = kept@;
        proof {
            lemma_active_for_push(before, (action, key), action);
            assert forall|a: HotkeyAction| a != action implies #[trigger] active_for(before.push((action, key)), a) == active_for(src, a) by {
                lemma_active_for_push(before, (action, key), a);
            }
        }
        kept.push((action, key));
        proof {
            let n = before.len() as int;
            assert(kept@[n].0 == action);
            assert forall|j: int| 0 <= j < n implies (#[trigger] kept@[j]).0 != action by {
                assert(kept@[j] == before[j]);
            }
            let c = choose|i: int| 0 <= i < kept@.len() && (#[trigger] kept@[i]).0 == action && forall|j: int| 0 <= j < i ==> (#[trigger] kept@[j]).0 != action;
            assert(0 <= n < kept@.len() && kept@[n].0 == action && forall|j: int| 0 <= j < n ==> (#[trigger] kept@[j]).0 != action);
            assert(c == n) by {
                if c < n {
                    assert(kept@[c].0 != action);
                } else if c > n {
                    assert(kept@[n].0 != action);
                }
            }
        }
        self.active_shortcuts = kept;
    }

    /// Decides how to move an action to a new shortcut, given the shortcuts
    /// that are registered now.
    pub fn plan_update(&self, action: HotkeyAction, new_key: &ShortcutKey) -> (r: Result<HotkeyUpdatePlan, String>)
        ensures
            (exists|i: int| 0 <= i < self.active_shortcuts@.len() && (#[trigger] self.active_shortcuts@[i]).0 != action
                && same_key(self.active_shortcuts@[i].1, *new_key)) <==> r is Err,
            r matches Err(e) ==> e@ == conflict_message(),
    {
        plan_hotkey_update(&self.active_shortcuts, action, new_key)
    }

    /// The action a pressed shortcut triggers: by its key combination, else
    /// by its id.
    pub fn resolve_action(&self, key: &ShortcutKey, id: u32) -> (r: Option<HotkeyAction>)
        ensures
            r == resolution(self.shortcut_routes@, self.id_routes@, *key, id),
    {
        let mut i: usize = 0;
        assert(self.shortcut_routes@.skip(0) =~= self.shortcut_routes@);
        while i < self.shortcut_routes.len()
            invariant
                i <= self.shortcut_routes@.len(),
                route_for_key(self.shortcut_routes@, *key) == route_for_key(self.shortcut_routes@.skip(i as int), *key),
            decreases self.shortcut_routes.len() - i,
        {
            let ghost rest = self.shortcut_routes@.skip(i as int);
            assert(rest.drop_first() =~= self.shortcut_routes@.skip(i + 1));
            if same_key_exec(&self.shortcut_routes[i].0, key) {
                return Some(self.shortcut_routes[i].1);
            }
            i = i + 1;
        }
        let mut j: usize = 0;
        assert(self.id_routes@.skip(0) =~= self.id_routes@);
        assert(self.shortcut_routes@.skip(i as int) =~= Seq::<(ShortcutKey, HotkeyAction)>::empty());
        while j < self.id_routes.len()
            invariant
                j <= self.id_routes@.len(),
                route_for_key(self.shortcut_routes@, *key) is None,
                route_for_id(self.id_routes@, id) == route_for_id(self.id_routes@.skip(j as int), id),
            decreases self.id_routes.len() - j,
        {
            let ghost rest = self.id_routes@.skip(j as int);
            assert(rest.drop_first() =~= self.id_routes@.skip(j + 1));
            if self.id_routes[j].0 == id {
                return Some(self.id_routes[j].1);
            }
            j = j + 1;
        }
        None
    }
}

/// A routed shortcut is resolved on its first press and on every press
/// after it, whatever id the plugin gives it: no press is dropped.
pub proof fn lemma_routed_shortcut_resolves(
    keys: Seq<(ShortcutKey, HotkeyAction)>,
    ids: Seq<(u32, HotkeyAction)>,
    k: ShortcutKey,
    id: u32,
    action: HotkeyAction,
)
    requires
        route_for_key(keys, k) == Some(action),
    ensures
        resolution(keys, ids, k, id) == Some(action),
{
}

} // verus!
