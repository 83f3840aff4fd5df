//! Pushing backend events into the webview: escaping a JSON text for a
//! JavaScript string literal, and the script that delivers it.

use vstd::prelude::*;
use crate::text::{extend, from_chars, to_chars};

verus! {

/// How one character is written inside a double-quoted JavaScript string.
pub open spec fn escape_char(c: char) -> Seq<char> {
    if c == '\\' {
        seq!['\\', '\\']
    } else if c == '"' {
        seq!['\\', '"']
    } else if c == '\n' {
        seq!['\\', 'n']
    } else if c == '\r' {
        seq!['\\', 'r']
    } else if c == '\t' {
        seq!['\\', 't']
    } else if c == '\u{2028}' {
        seq!['\\', 'u', '2', '0', '2', '8']
    } else if c == '\u{2029}' {
        seq!['\\', 'u', '2', '0', '2', '9']
    } else {
        seq![c]
    }
}

/// `s` escaped character by character.
pub open spec fn escape_js(s: Seq<char>) -> Seq<char>
    decreases s.len(),
{
    if s.len() == 0 {
        seq![]
    } else {
        escape_char(s[0]) + escape_js(s.drop_first())
    }
}

/// Reading an escaped text back: each escape sequence written by
/// [`escape_char`] stands for its character.
pub open spec fn unescape_js(t: Seq<char>) -> Seq<char>
    decreases t.len(),
{
    if t.len() == 0 {
        seq![]
    } else if t[0] == '\\' && t.len() >= 2 {
        let c = t[1];
        if c == '\\' {
            seq!['\\'] + unescape_js(t.skip(2))
        } else if c == '"' {
            seq!['"'] + unescape_js(t.skip(2))
        } else if c == 'n' {
            seq!['\n'] + unescape_js(t.skip(2))
        } else if c == 'r' {
            seq!['\r'] + unescape_js(t.skip(2))
        } else if c == 't' {
            seq!['\t'] + unescape_js(t.skip(2))
        } else if c == 'u' && t.len() >= 6 && t.subrange(2, 6) == seq!['2', '0', '2', '8'] {
            seq!['\u{2028}'] + unescape_js(t.skip(6))
        } else if c == 'u' && t.len() >= 6 && t.subrange(2, 6) == seq!['2', '0', '2', '9'] {
            seq!['\u{2029}'] + unescape_js(t.skip(6))
        } else {
            seq![t[0]] + unescape_js(t.drop_first())
        }
    } else {
        seq![t[0]] + unescape_js(t.drop_first())
    }
}

/// Escaping loses nothing: reading the escaped text back gives the original.
pub proof fn lemma_escape_roundtrip(s: Seq<char>)
    ensures
        unescape_js(escape_js(s)) == s,
    decreases s.len(),
{
    if s.len() > 0 {
        let c = s[0];
        let rest = escape_js(s.drop_first());
        lemma_escape_roundtrip(s.drop_first());
        let e = escape_char(c);
        let t = e + rest;
        assert(escape_js(s) == t);
        assert(s =~= seq![c] + s.drop_first());
        if e.len() == 1 {
            assert(t.drop_first() =~= rest);
            assert(t[0] == c);
            assert(c != '\\');
            assert(unescape_js(t) == seq![c] + unescape_js(t.drop_first()));
        } else if e.len() == 2 {
            assert(t.skip(2) =~= rest);
            assert(t[0] == '\\' && t[1] == e[1]);
            assert(unescape_js(t) == seq![c] + unescape_js(t.skip(2)));
        } else {
            assert(t.skip(6) =~= rest);
            assert(t[0] == '\\' && t[1] == 'u');
            assert(t.subrange(2, 6) =~= e.subrange(2, 6));
            if c == '\u{2028}' {
                assert(t.subrange(2, 6) =~= seq!['2', '0', '2', '8']);
            } else {
                assert(t.subrange(2, 6) =~= seq!['2', '0', '2', '9']);
                assert(t.subrange(2, 6) != seq!['2', '0', '2', '8']) by {
                    assert(t.subrange(2, 6)[3] != seq!['2', '0', '2', '8'][3]);
                }
            }
            assert(unescape_js(t) == seq![c] + unescape_js(t.skip(6)));
        }
    }
}

/// The escaped text holds no raw line break, quote or line separator: every
/// `"`, `\n`, `\r`, U+2028 and U+2029 of the input is written as an escape.
pub proof fn lemma_escape_no_raw_breaks(s: Seq<char>)
    ensures
        forall|i: int|
            0 <= i < escape_js(s).len() ==> #[trigger] escape_js(s)[i] != '\n' && escape_js(s)[i]
                != '\r' && escape_js(s)[i] != '\u{2028}' && escape_js(s)[i] != '\u{2029}',
    decreases s.len(),
{
    if s.len() > 0 {
        lemma_escape_no_raw_breaks(s.drop_first());
        let e = escape_char(s[0]);
        let rest = escape_js(s.drop_first());
        assert forall|i: int| 0 <= i < escape_js(s).len() implies #[trigger] escape_js(s)[i]
            != '\n' && escape_js(s)[i] != '\r' && escape_js(s)[i] != '\u{2028}' && escape_js(
            s,
        )[i] != '\u{2029}' by {
            if i >= e.len() {
                assert(escape_js(s)[i] == rest[i - e.len()]);
            }
        }
    }
}

fn escape_one(c: char) -> (r: Vec<char>)
    ensures
        r@ == escape_char(c),
{
    if c == '\\' {
        vec!['\\', '\\']
    } else if c == '"' {
        vec!['\\', '"']
    } else if c == '\n' {
        vec!['\\', 'n']
    } else if c == '\r' {
        vec!['\\', 'r']
    } else if c == '\t' {
        vec!['\\', 't']
    } else if c == '\u{2028}' {
        vec!['\\', 'u', '2', '0', '2', '8']
    } else if c == '\u{2029}' {
        vec!['\\', 'u', '2', '0', '2', '9']
    } else {
        vec![c]
    }
}

/// Escapes `s` for a double-quoted JavaScript string literal: backslash,
/// double quote, newline, carriage return, tab, U+2028 and U+2029 are
/// written as escape sequences, every other character as itself.
pub fn escape_js_string(s: &str) -> (r: String)
    ensures
        r@ == escape_js(s@),
{
    let c = to_chars(s);
    let mut out: Vec<char> = Vec::new();
    let mut i: usize = 0;
    assert(c@.skip(0) =~= c@);
    assert(out@ + escape_js(c@) =~= escape_js(c@));
    while i < c.len()
        invariant
            i <= c@.len(),
            out@ + escape_js(c@.skip(i as int)) == escape_js(c@),
        decreases c@.len() - i,
    {
        let ghost prev = out@;
        let ghost rest = c@.skip(i as int);
        assert(rest.drop_first() =~= c@.skip(i + 1));
        let e = escape_one(c[i]);
        extend(&mut out, &e);
        assert(prev + (e@ + escape_js(rest.drop_first())) =~= out@ + escape_js(c@.skip(i + 1)));
        i = i + 1;
    }
    assert(c@.skip(i as int) =~= Seq::<char>::empty());
    assert(out@ + Seq::<char>::empty() =~= out@);
    from_chars(&out)
}

/// The script that hands one event to the page:
/// `window.__lemurclaw.onEvent("<escaped json>")`.
pub fn event_script(json: &str) -> (r: String)
    ensures
        r@ == "window.__lemurclaw.onEvent(\""@ + escape_js(json@) + "\")"@,
{
    let escaped = escape_js_string(json);
    let mut s = String::from_str("window.__lemurclaw.onEvent(\"");
    s.append(escaped.as_str());
    s.append("\")");
    s
}

} // verus!
