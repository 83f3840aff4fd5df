//! Rewriting `codex_*` crate references in Rust source to `lemurclaw_*`:
//! the line-based rewriter (for `use`, `extern crate` and path expressions),
//! the crate references `syn` finds, and the application of the edits.

use vstd::prelude::*;
use crate::manifest::{names_view, spec_rename_ident};
use crate::text::{
    extend, extend_lit, from_chars, ident_char, is_ident_char, lead_ws, lead_ws_len, lemma_find_from,
    lemma_lead_ws, lines, match_at, matches_at, seq_eq, slice_vec, split_lines, starts_lit,
    starts_with, to_chars, trim_start, trim_start_vec, unlines, views,
};
use syn::visit::Visit;

verus! {

// ---------------------------------------------------------------------------
// Packed positions
// ---------------------------------------------------------------------------

/// Packs a (line, column) position into one number.
pub fn encode_lc(line: usize, column: usize) -> (r: usize)
    requires
        line * 1_000_000 + column <= usize::MAX,
    ensures
        r == line * 1_000_000 + column,
{
    line * 1_000_000 + column
}

/// Unpacks a position packed by [`encode_lc`].
pub fn decode_lc(packed: usize) -> (r: (usize, usize))
    ensures
        r.0 == packed / 1_000_000,
        r.1 == packed % 1_000_000,
{
    (packed / 1_000_000, packed % 1_000_000)
}

/// Unpacking undoes packing for columns below a million.
pub proof fn lemma_decode_encode(line: nat, column: nat)
    requires
        column < 1_000_000,
    ensures
        (line * 1_000_000 + column) / 1_000_000 == line,
        (line * 1_000_000 + column) % 1_000_000 == column,
{
    assert((line * 1_000_000 + column) / 1_000_000 == line) by (nonlinear_arith)
        requires
            column < 1_000_000,
    ;
    assert((line * 1_000_000 + column) % 1_000_000 == column) by (nonlinear_arith)
        requires
            column < 1_000_000,
    ;
}

// ---------------------------------------------------------------------------
// Strings and comments within a line
// ---------------------------------------------------------------------------

/// The scan state of a line: inside a string, inside a line comment, block
/// comment depth, and whether the scan stepped over a non-ASCII character
/// while not inside a line comment.
pub struct ScanState {
    pub in_string: bool,
    pub in_line_comment: bool,
    pub depth: nat,
    pub stepped_non_ascii: bool,
}

pub open spec fn is_ascii_char(c: char) -> bool {
    (c as u32) < 128
}

/// Scans `line` from character `i` up to position `pos`.
pub open spec fn scan(line: Seq<char>, pos: int, i: int, st: ScanState) -> ScanState
    decreases line.len() + 2 - i,
{
    if i < 0 || i >= pos || i >= line.len() || st.in_line_comment {
        st
    } else {
        let rem = line.skip(i);
        let step1 = ScanState {
            stepped_non_ascii: st.stepped_non_ascii || !is_ascii_char(line[i]),
            ..st
        };
        if st.depth > 0 {
            if starts_with(rem, "*/"@) {
                scan(line, pos, i + 2, ScanState { depth: (st.depth - 1) as nat, ..st })
            } else if starts_with(rem, "/*"@) {
                scan(line, pos, i + 2, ScanState { depth: st.depth + 1, ..st })
            } else {
                scan(line, pos, i + 1, step1)
            }
        } else if st.in_string {
            if starts_with(rem, "\\\""@) {
                scan(line, pos, i + 2, st)
            } else if starts_with(rem, "\""@) {
                scan(line, pos, i + 1, ScanState { in_string: false, ..st })
            } else {
                scan(line, pos, i + 1, step1)
            }
        } else if starts_with(rem, "//"@) {
            scan(line, pos, i + 2, ScanState { in_line_comment: true, ..st })
        } else if starts_with(rem, "/*"@) {
            scan(line, pos, i + 2, ScanState { depth: 1, ..st })
        } else if starts_with(rem, "\""@) {
            scan(line, pos, i + 1, ScanState { in_string: true, ..st })
        } else {
            scan(line, pos, i + 1, step1)
        }
    }
}

pub open spec fn scan_start() -> ScanState {
    ScanState { in_string: false, in_line_comment: false, depth: 0, stepped_non_ascii: false }
}

/// Position `pos` of `line` lies inside a string literal or a comment, as a
/// left-to-right scan of the line tells.
pub open spec fn spec_is_string_interior(line: Seq<char>, pos: int) -> bool {
    let st = scan(line, pos, 0, scan_start());
    st.in_string || st.in_line_comment || st.depth > 0
}

/// The scan up to `pos` steps over a multi-byte character by a single byte,
/// which slicing the text at that byte would not allow.
pub open spec fn scan_breaks_char(line: Seq<char>, pos: int) -> bool {
    scan(line, pos, 0, scan_start()).stepped_non_ascii
}

/// Scans `line` up to `pos`: whether `pos` is inside a string or comment,
/// and whether the scan stepped over a non-ASCII character.
fn scan_line(line: &[char], pos: usize) -> (r: (bool, bool))
    ensures
        r.0 == spec_is_string_interior(line@, pos as int),
        r.1 == scan_breaks_char(line@, pos as int),
{
    proof {
        reveal_strlit("*/");
        reveal_strlit("/*");
        reveal_strlit("//");
        reveal_strlit("\"");
        reveal_strlit("\\\"");
    }
    let close: [char; 2] = ['*', '/'];
    let open: [char; 2] = ['/', '*'];
    let lc: [char; 2] = ['/', '/'];
    let esc: [char; 2] = ['\\', '"'];
    assert(close@ =~= "*/"@);
    assert(open@ =~= "/*"@);
    assert(lc@ =~= "//"@);
    assert(esc@ =~= "\\\""@);
    let mut i: usize = 0;
    let mut in_string = false;
    let mut in_line_comment = false;
    let mut depth: usize = 0;
    let mut bad = false;
    while i < pos && i < line.len() && !in_line_comment
        invariant
            depth <= i,
            i <= line@.len(),
            close@ == "*/"@,
            open@ == "/*"@,
            lc@ == "//"@,
            esc@ == "\\\""@,
            scan(line@, pos as int, 0, scan_start()) == scan(
                line@,
                pos as int,
                i as int,
                ScanState {
                    in_string,
                    in_line_comment,
                    depth: depth as nat,
                    stepped_non_ascii: bad,
                },
            ),
        decreases line@.len() - i,
    {
        let ghost rem = line@.skip(i as int);
        proof {
            crate::text::lemma_starts_skip(line@, i as int, "*/"@);
            crate::text::lemma_starts_skip(line@, i as int, "/*"@);
            crate::text::lemma_starts_skip(line@, i as int, "//"@);
            crate::text::lemma_starts_skip(line@, i as int, "\\\""@);
            crate::text::lemma_starts_skip(line@, i as int, "\""@);
            assert(line@.subrange(i as int, i + 1) =~= seq![line@[i as int]]);
            reveal_strlit("\"");
            assert("\""@ =~= seq!['"']);
            if seq![line@[i as int]] == seq!['"'] {
                assert(seq![line@[i as int]][0] == seq!['"'][0]);
            }
            if line@[i as int] == '"' {
                assert(seq![line@[i as int]] =~= seq!['"']);
            }
        }
        let at_close = match_at(line, i, &close);
        let at_open = match_at(line, i, &open);
        let at_line = match_at(line, i, &lc);
        let at_esc = match_at(line, i, &esc);
        let at_quote = line[i] == '"';
        assert(starts_with(rem, "\""@) == at_quote);
        if depth > 0 {
            if at_close {
                depth = depth - 1;
                i = i + 2;
            } else if at_open {
                depth = depth + 1;
                i = i + 2;
            } else {
                bad = bad || !((line[i] as u32) < 128);
                i = i + 1;
            }
        } else if in_string {
            if at_esc {
                i = i + 2;
            } else if at_quote {
                in_string = false;
                i = i + 1;
            } else {
                bad = bad || !((line[i] as u32) < 128);
                i = i + 1;
            }
        } else if at_line {
            in_line_comment = true;
            i = i + 2;
        } else if at_open {
            depth = 1;
            i = i + 2;
        } else if at_quote {
            in_string = true;
            i = i + 1;
        } else {
            bad = bad || !((line[i] as u32) < 128);
            i = i + 1;
        }
    }
    (in_string || in_line_comment || depth > 0, bad)
}

/// Exec form of [`spec_is_string_interior`].
pub fn is_string_interior(line: &[char], pos: usize) -> (r: bool)
    ensures
        r == spec_is_string_interior(line@, pos as int),
{
    scan_line(line, pos).0
}

/// Exec form of [`scan_breaks_char`].
pub fn scan_breaks(line: &[char], pos: usize) -> (r: bool)
    ensures
        r == scan_breaks_char(line@, pos as int),
{
    scan_line(line, pos).1
}

// ---------------------------------------------------------------------------
// Path expressions
// ---------------------------------------------------------------------------

/// Length of the identifier characters at the start of `s`.
pub open spec fn ident_len(s: Seq<char>) -> nat
    decreases s.len(),
{
    if s.len() > 0 && is_ident_char(s[0]) {
        1 + ident_len(s.drop_first())
    } else {
        0
    }
}

pub proof fn lemma_ident_len(s: Seq<char>)
    ensures
        ident_len(s) <= s.len(),
        forall|k: int| 0 <= k < ident_len(s) ==> is_ident_char(#[trigger] s[k]),
    decreases s.len(),
{
    if s.len() > 0 && is_ident_char(s[0]) {
        lemma_ident_len(s.drop_first());
        assert forall|k: int| 0 <= k < ident_len(s) implies is_ident_char(#[trigger] s[k]) by {
            if k > 0 {
                assert(s[k] == s.drop_first()[k - 1]);
            }
        }
    }
}

pub fn ident_len_exec(s: &[char], from: usize) -> (r: usize)
    requires
        from <= s@.len(),
    ensures
        r == from + ident_len(s@.skip(from as int)),
        r <= s@.len(),
{
    let mut j = from;
    assert(s@.skip(from as int) =~= s@.skip(j as int));
    while j < s.len() && ident_char(s[j])
        invariant
            from <= j <= s@.len(),
            from + ident_len(s@.skip(from as int)) == j + ident_len(s@.skip(j as int)),
        decreases s@.len() - j,
    {
        assert(s@.skip(j as int).drop_first() =~= s@.skip(j + 1));
        j = j + 1;
    }
    j
}

/// A candidate crate reference starts at `i`: `codex_` at a position that
/// starts the line or follows a non-identifier character, and that lies
/// outside string literals and comments (those are left untouched).
pub open spec fn is_candidate(line: Seq<char>, i: int) -> bool {
    matches_at(line, i, "codex_"@) && (i == 0 || !is_ident_char(line[i - 1]))
        && !spec_is_string_interior(line, i)
}

/// End of the identifier that starts at `i`.
pub open spec fn ident_end(line: Seq<char>, i: int) -> int {
    i + "codex_"@.len() + ident_len(line.skip(i + "codex_"@.len()))
}

/// Rewrites, from character `i` on, every `codex_x::` whose `codex_x` names
/// a known crate.
pub open spec fn path_rewrite(line: Seq<char>, crates: Seq<Seq<char>>, i: int) -> Seq<char>
    decreases line.len() - i,
{
    if i < 0 || i >= line.len() {
        seq![]
    } else if is_candidate(line, i) && matches_at(line, ident_end(line, i), "::"@)
        && crates.contains(line.subrange(i, ident_end(line, i))) && ident_end(line, i) > i {
        spec_rename_ident(line.subrange(i, ident_end(line, i))) + path_rewrite(
            line,
            crates,
            ident_end(line, i),
        )
    } else {
        seq![line[i]] + path_rewrite(line, crates, i + 1)
    }
}

/// Whether the path rewrite from `i` on would test a position whose scan
/// steps inside a multi-byte character.
pub open spec fn path_rewrite_breaks(line: Seq<char>, crates: Seq<Seq<char>>, i: int) -> bool
    decreases line.len() - i,
{
    if i < 0 || i >= line.len() {
        false
    } else {
        let tested = matches_at(line, i, "codex_"@) && i > 0 && !is_ident_char(line[i - 1]);
        if tested && scan_breaks_char(line, i) {
            true
        } else if is_candidate(line, i) && matches_at(line, ident_end(line, i), "::"@)
            && crates.contains(line.subrange(i, ident_end(line, i))) && ident_end(line, i) > i {
            path_rewrite_breaks(line, crates, ident_end(line, i))
        } else {
            path_rewrite_breaks(line, crates, i + 1)
        }
    }
}

pub fn list_contains(crates: &[String], ident: &[char]) -> (r: bool)
    ensures
        r == names_view(crates@).contains(ident@),
{
    let mut k: usize = 0;
    while k < crates.len()
        invariant
            k <= crates@.len(),
            forall|j: int| 0 <= j < k ==> names_view(crates@)[j] != ident@,
        decreases crates@.len() - k,
    {
        let c = to_chars(crates[k].as_str());
        if seq_eq(&c, ident) {
            assert(names_view(crates@)[k as int] == ident@);
            return true;
        }
        k = k + 1;
    }
    false
}

/// Rewrites `codex_x::` path expressions that name a known crate (see
/// [`path_rewrite`]).
pub fn rewrite_path_expressions(line: &[char], crates: &[String]) -> (r: Vec<char>)
    requires
        !path_rewrite_breaks(line@, names_view(crates@), 0),
    ensures
        r@ == path_rewrite(line@, names_view(crates@), 0),
{
    let ghost cs = names_view(crates@);
    let prefix = to_chars("codex_");
    let sep = to_chars("::");
    let mut out: Vec<char> = Vec::new();
    let mut i: usize = 0;
    assert(out@ + path_rewrite(line@, cs, 0) =~= path_rewrite(line@, cs, 0));
    while i < line.len()
        invariant
            i <= line@.len(),
            cs == names_view(crates@),
            prefix@ == "codex_"@,
            sep@ == "::"@,
            !path_rewrite_breaks(line@, cs, i as int),
            out@ + path_rewrite(line@, cs, i as int) == path_rewrite(line@, cs, 0),
        decreases line@.len() - i,
    {
        let ghost prev = out@;
        if match_at(line, i, &prefix) {
            let boundary = (i == 0 || !ident_char(line[i - 1])) && !is_string_interior(line, i);
            if boundary {
                let j = ident_len_exec(line, i + prefix.len());
                assert(j == ident_end(line@, i as int));
                if match_at(line, j, &sep) {
                    let ident = slice_vec(line, i, j);
                    if list_contains(crates, &ident) && j > i {
                        let renamed = crate::manifest::rename_ident(from_chars(&ident).as_str());
                        extend(&mut out, &to_chars(renamed.as_str()));
                        i = j;
                        continue;
                    }
                }
            }
        }
        out.push(line[i]);
        assert(out@ =~= prev + seq![line@[i as int]]);
        i = i + 1;
    }
    assert(out@ + Seq::<char>::empty() =~= out@);
    out
}

// ---------------------------------------------------------------------------
// `use` and `extern crate` lines
// ---------------------------------------------------------------------------

/// `trimmed` without a leading visibility (`pub `, `crate `, `pub(...)`).
pub open spec fn spec_strip_visibility(t: Seq<char>) -> Seq<char> {
    if starts_with(t, "pub "@) {
        t.skip("pub "@.len() as int)
    } else if starts_with(t, "crate "@) {
        t.skip("crate "@.len() as int)
    } else if starts_with(t, "pub("@) && crate::text::find_char(t, ')') is Some {
        trim_start(t.skip(crate::text::find_char(t, ')')->0 + 1))
    } else {
        t
    }
}

pub fn strip_visibility(t: &[char]) -> (r: Vec<char>)
    ensures
        r@ == spec_strip_visibility(t@),
        r@.len() <= t@.len(),
        r@ == t@.skip(t@.len() - r@.len()),
{
    let p1 = to_chars("pub ");
    let p2 = to_chars("crate ");
    if crate::text::has_prefix(t, &p1) {
        let r = slice_vec(t, p1.len(), t.len());
        assert(r@ =~= t@.skip(p1@.len() as int));
        return r;
    }
    if crate::text::has_prefix(t, &p2) {
        let r = slice_vec(t, p2.len(), t.len());
        assert(r@ =~= t@.skip(p2@.len() as int));
        return r;
    }
    if starts_lit(t, "pub(") {
        match crate::text::find_ch(t, ')') {
            Some(c) => {
                proof {
                    lemma_find_from(t@, seq![')'], 0);
                }
                let n = t.len();
                assert(c < n);
                let after = slice_vec(t, c + 1, n);
                assert(after@ =~= t@.skip(c + 1));
                let r = trim_start_vec(&after);
                proof {
                    crate::text::lemma_lead_ws(after@);
                }
                assert(r@ =~= t@.skip(t@.len() - r@.len()));
                return r;
            },
            None => {},
        }
    }
    let r = slice_vec(t, 0, t.len());
    assert(r@ =~= t@.skip(0));
    r
}

/// The rewrite of a line that declares `<kw>codex_x...` after its
/// visibility, where `kw` is `use ` or `extern crate `.
pub open spec fn decl_rewrite(line: Seq<char>, crates: Seq<Seq<char>>, kw: Seq<char>) -> Option<
    Seq<char>,
> {
    let t = trim_start(line);
    let av = spec_strip_visibility(t);
    let rest0 = av.skip(kw.len() as int);
    let rest = if starts_with(rest0, "::"@) {
        rest0.skip(2)
    } else {
        rest0
    };
    let after = rest.skip("codex_"@.len() as int);
    let end = ident_len(after) as int;
    let ident = "codex_"@ + after.take(end);
    if starts_with(av, kw) && starts_with(rest, "codex_"@) && crates.contains(ident) {
        Some(
            line.take(lead_ws(line) as int) + t.take(t.len() - av.len()) + kw + "lemurclaw_"@
                + after.take(end) + after.skip(end),
        )
    } else {
        None
    }
}

/// One line, rewritten: a `use` or `extern crate` of a known `codex_` crate
/// is renamed; otherwise path expressions are.
pub open spec fn spec_rewrite_line_surgical(line: Seq<char>, crates: Seq<Seq<char>>) -> Seq<char> {
    match decl_rewrite(line, crates, "use "@) {
        Some(r) => r,
        None => match decl_rewrite(line, crates, "extern crate "@) {
            Some(r) => r,
            None => path_rewrite(line, crates, 0),
        },
    }
}

/// The line rewrite would scan inside a multi-byte character.
pub open spec fn line_breaks(line: Seq<char>, crates: Seq<Seq<char>>) -> bool {
    decl_rewrite(line, crates, "use "@) is None && decl_rewrite(line, crates, "extern crate "@) is None
        && path_rewrite_breaks(line, crates, 0)
}

fn decl_rewrite_exec(line: &[char], crates: &[String], kw: &str) -> (r: Option<Vec<char>>)
    ensures
        match r {
            Some(v) => decl_rewrite(line@, names_view(crates@), kw@) == Some(v@),
            None => decl_rewrite(line@, names_view(crates@), kw@) is None,
        },
{
    proof {
        reveal_strlit("::");
    }
    let ws = lead_ws_len(line);
    proof {
        lemma_lead_ws(line@);
    }
    let t = slice_vec(line, ws, line.len());
    assert(t@ =~= trim_start(line@));
    let av = strip_visibility(&t);
    let kwc = to_chars(kw);
    if !crate::text::has_prefix(&av, &kwc) {
        return None;
    }
    let rest0 = slice_vec(&av, kwc.len(), av.len());
    assert(rest0@ =~= av@.skip(kw@.len() as int));
    let rest = if starts_lit(&rest0, "::") {
        let r = slice_vec(&rest0, 2, rest0.len());
        assert(r@ =~= rest0@.skip(2));
        r
    } else {
        rest0
    };
    let pre = to_chars("codex_");
    if !crate::text::has_prefix(&rest, &pre) {
        return None;
    }
    let after = slice_vec(&rest, pre.len(), rest.len());
    assert(after@ =~= rest@.skip("codex_"@.len() as int));
    let end = ident_len_exec(&after, 0);
    assert(after@.skip(0) =~= after@);
    let name_part = slice_vec(&after, 0, end);
    assert(name_part@ =~= after@.take(end as int));
    let mut ident = pre.clone();
    extend(&mut ident, &name_part);
    if !list_contains(crates, &ident) {
        return None;
    }
    let mut out = slice_vec(line, 0, ws);
    assert(out@ =~= line@.take(ws as int));
    let vis = slice_vec(&t, 0, t.len() - av.len());
    assert(vis@ =~= t@.take(t@.len() - av@.len()));
    extend(&mut out, &vis);
    extend(&mut out, &kwc);
    extend_lit(&mut out, "lemurclaw_");
    extend(&mut out, &name_part);
    let tail = slice_vec(&after, end, after.len());
    assert(tail@ =~= after@.skip(end as int));
    extend(&mut out, &tail);
    Some(out)
}

/// Rewrites one line (see [`spec_rewrite_line_surgical`]).
pub fn rewrite_line_surgical(line: &[char], crates: &[String]) -> (r: Vec<char>)
    requires
        !line_breaks(line@, names_view(crates@)),
    ensures
        r@ == spec_rewrite_line_surgical(line@, names_view(crates@)),
{
    match decl_rewrite_exec(line, crates, "use ") {
        Some(r) => r,
        None => match decl_rewrite_exec(line, crates, "extern crate ") {
            Some(r) => r,
            None => rewrite_path_expressions(line, crates),
        },
    }
}

/// Line-based rewrite of a whole source: each line rewritten and followed by
/// a newline, the final newline dropped when the source had none; `None`
/// when nothing changed.
pub open spec fn spec_rewrite_surgical(src: Seq<char>, crates: Seq<Seq<char>>) -> Option<Seq<char>> {
    let ls = lines(src);
    let out0 = unlines(ls.map_values(|l: Seq<char>| spec_rewrite_line_surgical(l, crates)));
    let out = if !(src.len() > 0 && src.last() == '\n') && out0.len() > 0 && out0.last() == '\n' {
        out0.drop_last()
    } else {
        out0
    };
    if out == src {
        None
    } else {
        Some(out)
    }
}

/// No line of `src` makes the line rewrite scan inside a multi-byte
/// character.
pub open spec fn surgical_ok(src: Seq<char>, crates: Seq<Seq<char>>) -> bool {
    forall|k: int| 0 <= k < lines(src).len() ==> !line_breaks(#[trigger] lines(src)[k], crates)
}

/// Line-based rewrite of `codex_` crate references (see
/// [`spec_rewrite_surgical`]); `crates` lists the crate identifiers that
/// may be renamed.
pub fn rewrite_surgical(src: &str, crates: &[String]) -> (r: Option<String>)
    requires
        surgical_ok(src@, names_view(crates@)),
    ensures
        match (r, spec_rewrite_surgical(src@, names_view(crates@))) {
            (Some(a), Some(b)) => a@ == b,
            (None, None) => true,
            _ => false,
        },
{
    let ghost cs = names_view(crates@);
    let sc = to_chars(src);
    let ls = split_lines(&sc);
    let ghost mapped = lines(src@).map_values(|l: Seq<char>| spec_rewrite_line_surgical(l, cs));
    let mut out: Vec<char> = Vec::new();
    let mut i: usize = 0;
    while i < ls.len()
        invariant
            i <= ls@.len(),
            cs == names_view(crates@),
            views(ls@) == lines(src@),
            mapped == lines(src@).map_values(|l: Seq<char>| spec_rewrite_line_surgical(l, cs)),
            surgical_ok(src@, cs),
            out@ == unlines(mapped.take(i as int)),
        decreases ls@.len() - i,
    {
        assert(views(ls@)[i as int] == ls@[i as int]@);
        assert(!line_breaks(lines(src@)[i as int], cs));
        let r = rewrite_line_surgical(&ls[i], crates);
        extend(&mut out, &r);
        out.push('\n');
        assert(mapped.take(i + 1).drop_last() =~= mapped.take(i as int));
        i = i + 1;
    }
    assert(mapped.take(ls@.len() as int) =~= mapped);
    let n = sc.len();
    if !(n > 0 && sc[n - 1] == '\n') && out.len() > 0 && out[out.len() - 1] == '\n' {
        out.pop();
    }
    if seq_eq(&out, &sc) {
        None
    } else {
        Some(from_chars(&out))
    }
}


// ---------------------------------------------------------------------------
// Identifier edits found by a parser
// ---------------------------------------------------------------------------

/// An identifier to rename: its start and end as packed (line, column)
/// positions (lines from 1, columns in characters from 0), and its text.
pub struct SpanEdit {
    pub start: usize,
    pub end: usize,
    pub old_ident: String,
}

/// An identifier edit as plain values: start, end, identifier.
pub open spec fn edit_view(e: SpanEdit) -> (usize, usize, Seq<char>) {
    (e.start, e.end, e.old_ident@)
}

pub open spec fn edit_views(s: Seq<SpanEdit>) -> Seq<(usize, usize, Seq<char>)> {
    s.map_values(|e: SpanEdit| edit_view(e))
}

/// The offsets at which the lines of `src[..k]` start: 0, and one past
/// each newline.
pub open spec fn line_starts_upto(src: Seq<char>, k: int) -> Seq<int>
    decreases k,
{
    if k <= 0 {
        seq![0]
    } else if src[k - 1] == '\n' {
        line_starts_upto(src, k - 1).push(k)
    } else {
        line_starts_upto(src, k - 1)
    }
}

pub open spec fn line_starts(src: Seq<char>) -> Seq<int> {
    line_starts_upto(src, src.len() as int)
}

/// A packed position's offset in `src`; none when its line is 0 or past
/// the last line.
pub open spec fn offset_of(starts: Seq<int>, packed: int) -> Option<int> {
    let l = packed / 1_000_000;
    let c = packed % 1_000_000;
    if l == 0 || l > starts.len() {
        None
    } else {
        Some(starts[l - 1] + c)
    }
}

/// The edits as (start offset, end offset, new text); none when a position
/// is off the text's lines.
pub open spec fn converted(src: Seq<char>, spans: Seq<(usize, usize, Seq<char>)>) -> Option<Seq<(int, int, Seq<char>)>>
    decreases spans.len(),
{
    if spans.len() == 0 {
        Some(seq![])
    } else {
        match converted(src, spans.drop_last()) {
            None => None,
            Some(es) => {
                let e = spans.last();
                match (offset_of(line_starts(src), e.0 as int), offset_of(line_starts(src), e.1 as int)) {
                    (Some(a), Some(b)) => Some(es.push((a, b, spec_rename_ident(e.2)))),
                    _ => None,
                }
            },
        }
    }
}

/// The greatest start below `bound` among the edits.
pub open spec fn max_start_below(es: Seq<(int, int, Seq<char>)>, bound: int) -> Option<int>
    decreases es.len(),
{
    if es.len() == 0 {
        None
    } else {
        let r = max_start_below(es.drop_last(), bound);
        let st = es.last().0;
        if st < bound {
            match r {
                Some(x) => Some(if x < st {
                    st
                } else {
                    x
                }),
                None => Some(st),
            }
        } else {
            r
        }
    }
}

/// The first edit starting at `m`: its end and new text.
pub open spec fn first_at(es: Seq<(int, int, Seq<char>)>, m: int) -> (int, Seq<char>)
    decreases es.len(),
{
    if es.len() == 0 {
        (0, seq![])
    } else if es[0].0 == m {
        (es[0].1, es[0].2)
    } else {
        first_at(es.drop_first(), m)
    }
}

/// The edits applied from the greatest start down, each start once (the
/// first edit with that start in the list), only starts below `bound`;
/// none when an edit's range is not within the text as it stands.
pub open spec fn apply_from(text: Seq<char>, es: Seq<(int, int, Seq<char>)>, bound: int) -> Option<Seq<char>>
    decreases bound,
{
    match max_start_below(es, bound) {
        None => Some(text),
        Some(m) => {
            let (e, new) = first_at(es, m);
            if 0 <= m <= e <= text.len() && m < bound && 0 <= bound {
                apply_from(text.take(m) + new + text.skip(e), es, m)
            } else {
                None
            }
        },
    }
}

/// The source with the identifier edits applied: each renamed (see
/// [`spec_rename_ident`]), from the last position back, one edit per start
/// position (a start of `usize::MAX` is never applied); none when a
/// position is off the text or a range does not fit.
pub open spec fn spec_apply_spans(src: Seq<char>, spans: Seq<(usize, usize, Seq<char>)>) -> Option<Seq<char>> {
    match converted(src, spans) {
        None => None,
        Some(es) => apply_from(src, es, usize::MAX as int),
    }
}

proof fn lemma_line_starts(src: Seq<char>, k: int)
    requires
        0 <= k <= src.len(),
    ensures
        line_starts_upto(src, k).len() >= 1,
        line_starts_upto(src, k).len() <= k + 1,
        forall|j: int| 0 <= j < line_starts_upto(src, k).len() ==> 0 <= #[trigger] line_starts_upto(src, k)[j] <= k,
    decreases k,
{
    if k > 0 {
        lemma_line_starts(src, k - 1);
    }
}

fn line_starts_exec(src: &[char]) -> (r: Vec<usize>)
    ensures
        r@.map_values(|x: usize| x as int) == line_starts(src@),
{
    let mut out: Vec<usize> = vec![0];
    let mut i: usize = 0;
    assert(out@.map_values(|x: usize| x as int) =~= line_starts_upto(src@, 0));
    while i < src.len()
        invariant
            i <= src@.len(),
            out@.map_values(|x: usize| x as int) == line_starts_upto(src@, i as int),
        decreases src@.len() - i,
    {
        if src[i] == '\n' {
            let ghost prev = out@;
            out.push(i + 1);
            assert(out@.map_values(|x: usize| x as int) =~= prev.map_values(|x: usize| x as int).push(i + 1));
        }
        i = i + 1;
    }
    out
}

proof fn lemma_converted_prefix_none(src: Seq<char>, spans: Seq<(usize, usize, Seq<char>)>, k: int)
    requires
        0 <= k <= spans.len(),
        converted(src, spans.take(k)) is None,
    ensures
        converted(src, spans) is None,
    decreases spans.len(),
{
    if k == spans.len() {
        assert(spans.take(k) =~= spans);
    } else {
        assert(spans.drop_last().take(k) =~= spans.take(k));
        lemma_converted_prefix_none(src, spans.drop_last(), k);
    }
}

proof fn lemma_max_start_found(es: Seq<(int, int, Seq<char>)>, bound: int)
    ensures
        max_start_below(es, bound) matches Some(m) ==> m < bound && exists|j: int| 0 <= j < es.len() && es[j].0 == m,
        max_start_below(es, bound) is None ==> forall|j: int| 0 <= j < es.len() ==> es[j].0 >= bound,
        max_start_below(es, bound) matches Some(m) ==> forall|j: int| 0 <= j < es.len() && es[j].0 < bound ==> es[j].0 <= m,
    decreases es.len(),
{
    if es.len() > 0 {
        let init = es.drop_last();
        lemma_max_start_found(init, bound);
        match max_start_below(init, bound) {
            Some(x) => {
                let j = choose|j: int| 0 <= j < init.len() && init[j].0 == x;
                assert(es[j] == init[j]);
            },
            None => {},
        }
        assert forall|j: int| 0 <= j < es.len() - 1 implies es[j] == init[j] by {}
        assert(es.last() == es[es.len() - 1]);
    }
}

proof fn lemma_first_at(es: Seq<(int, int, Seq<char>)>, m: int, i: int)
    requires
        0 <= i < es.len(),
        es[i].0 == m,
        forall|j: int| 0 <= j < i ==> es[j].0 != m,
    ensures
        first_at(es, m) == (es[i].1, es[i].2),
    decreases i,
{
    if i > 0 {
        let rest = es.drop_first();
        assert forall|j: int| 0 <= j < i - 1 implies rest[j].0 != m by {
            assert(rest[j] == es[j + 1]);
        }
        lemma_first_at(rest, m, i - 1);
    }
}

/// Applies identifier edits to a source text (see [`spec_apply_spans`]).
pub fn apply_spans_via_linecol(src: &str, spans: &[SpanEdit]) -> (r: Option<String>)
    requires
        src@.len() + 1_000_000 < usize::MAX,
    ensures
        match r {
            Some(s) => spec_apply_spans(src@, edit_views(spans@)) == Some(s@),
            None => spec_apply_spans(src@, edit_views(spans@)) is None,
        },
{
    let sc = to_chars(src);
    let starts = line_starts_exec(&sc);
    let ghost sv = starts@.map_values(|x: usize| x as int);
    proof {
        lemma_line_starts(src@, src@.len() as int);
    }
    // Convert every position, bailing out when one is off the text.
    let ghost ev = edit_views(spans@);
    let mut edits: Vec<(usize, usize, Vec<char>)> = Vec::new();
    let ghost mut es: Seq<(int, int, Seq<char>)> = seq![];
    let mut i: usize = 0;
    while i < spans.len()
        invariant
            i <= spans@.len(),
            sc@ == src@,
            src@.len() + 1_000_000 < usize::MAX,
            sv == starts@.map_values(|x: usize| x as int),
            sv == line_starts(src@),
            sv.len() >= 1,
            sv.len() <= src@.len() + 1,
            forall|j: int| 0 <= j < sv.len() ==> 0 <= #[trigger] sv[j] <= src@.len(),
            ev == edit_views(spans@),
            converted(src@, ev.take(i as int)) == Some(es),
            es == edits@.map_values(|t: (usize, usize, Vec<char>)| (t.0 as int, t.1 as int, t.2@)),
        decreases spans@.len() - i,
    {
        let sp = &spans[i];
        assert(ev.take(i + 1).drop_last() =~= ev.take(i as int));
        assert(ev.take(i + 1).last() == edit_view(spans@[i as int]));
        let (sl, scol) = decode_lc(sp.start);
        let (el, ecol) = decode_lc(sp.end);
        if sl == 0 || sl > starts.len() || el == 0 || el > starts.len() {
            proof {
                assert(converted(src@, ev.take(i + 1)) is None);
                lemma_converted_prefix_none(src@, ev, i + 1);
            }
            return None;
        }
        assert(sv[sl - 1] == starts@[sl - 1] as int);
        assert(sv[el - 1] == starts@[el - 1] as int);
        let a = starts[sl - 1] + scol;
        let b = starts[el - 1] + ecol;
        let new = crate::manifest::rename_ident_chars(&to_chars(sp.old_ident.as_str()));
        let ghost prev = edits@;
        edits.push((a, b, new));
        proof {
            es = es.push((a as int, b as int, new@));
        }
        assert(edits@.map_values(|t: (usize, usize, Vec<char>)| (t.0 as int, t.1 as int, t.2@)) =~= prev.map_values(
            |t: (usize, usize, Vec<char>)| (t.0 as int, t.1 as int, t.2@),
        ).push((a as int, b as int, new@)));
        i = i + 1;
    }
    assert(ev.take(ev.len() as int) =~= ev);
    // Apply from the greatest start down.
    let mut out: Vec<char> = sc;
    let mut bound: usize = usize::MAX;
    let ghost goal = apply_from(src@, es, usize::MAX as int);
    loop
        invariant
            es == edits@.map_values(|t: (usize, usize, Vec<char>)| (t.0 as int, t.1 as int, t.2@)),
            apply_from(out@, es, bound as int) == goal,
            goal == spec_apply_spans(src@, edit_views(spans@)),
        decreases bound,
    {
        // The greatest start below the bound, and the first edit with it.
        let mut best: Option<usize> = None;
        let mut j: usize = 0;
        while j < edits.len()
            invariant
                j <= edits@.len(),
                es == edits@.map_values(|t: (usize, usize, Vec<char>)| (t.0 as int, t.1 as int, t.2@)),
                match best {
                    Some(x) => max_start_below(es.take(j as int), bound as int) == Some(x as int),
                    None => max_start_below(es.take(j as int), bound as int) is None,
                },
            decreases edits@.len() - j,
        {
            assert(es.take(j + 1).drop_last() =~= es.take(j as int));
            assert(es.take(j + 1).last() == es[j as int]);
            let st = edits[j].0;
            if st < bound {
                best = match best {
                    Some(x) => Some(if x < st {
                        st
                    } else {
                        x
                    }),
                    None => Some(st),
                };
            }
            j = j + 1;
        }
        assert(es.take(edits@.len() as int) =~= es);
        match best {
            None => {
                return Some(from_chars(&out));
            },
            Some(m) => {
                proof {
                    lemma_max_start_found(es, bound as int);
                }
                let mut k: usize = 0;
                while k < edits.len() && edits[k].0 != m
                    invariant
                        k <= edits@.len(),
                        es == edits@.map_values(|t: (usize, usize, Vec<char>)| (t.0 as int, t.1 as int, t.2@)),
                        exists|q: int| k <= q < es.len() && es[q].0 == m,
                        forall|q: int| 0 <= q < k ==> es[q].0 != m,
                    decreases edits@.len() - k,
                {
                    k = k + 1;
                }
                assert(k < edits@.len());
                proof {
                    lemma_first_at(es, m as int, k as int);
                }
                let e = edits[k].1;
                if !(m <= e && e <= out.len()) {
                    return None;
                }
                let mut next = slice_vec(&out, 0, m);
                extend(&mut next, &edits[k].2);
                extend(&mut next, &slice_vec(&out, e, out.len()));
                assert(next@ =~= out@.take(m as int) + es[k as int].2 + out@.skip(e as int));
                out = next;
                bound = m;
            },
        }
    }
}


/// Exec form of [`path_rewrite_breaks`] from the start of the line.
fn path_rewrite_breaks_exec(line: &[char], crates: &[String]) -> (r: bool)
    ensures
        r == path_rewrite_breaks(line@, names_view(crates@), 0),
{
    let ghost cs = names_view(crates@);
    let prefix = to_chars("codex_");
    let sep = to_chars("::");
    let mut i: usize = 0;
    while i < line.len()
        invariant
            i <= line@.len(),
            cs == names_view(crates@),
            prefix@ == "codex_"@,
            sep@ == "::"@,
            path_rewrite_breaks(line@, cs, i as int) == path_rewrite_breaks(line@, cs, 0),
        decreases line@.len() - i,
    {
        if match_at(line, i, &prefix) {
            if i > 0 && !ident_char(line[i - 1]) && scan_breaks(line, i) {
                return true;
            }
            let boundary = (i == 0 || !ident_char(line[i - 1])) && !is_string_interior(line, i);
            if boundary {
                let j = ident_len_exec(line, i + prefix.len());
                assert(j == ident_end(line@, i as int));
                if match_at(line, j, &sep) {
                    let ident = slice_vec(line, i, j);
                    if list_contains(crates, &ident) && j > i {
                        i = j;
                        continue;
                    }
                }
            }
        }
        i = i + 1;
    }
    false
}

/// Exec form of [`line_breaks`].
fn line_breaks_exec(line: &[char], crates: &[String]) -> (r: bool)
    ensures
        r == line_breaks(line@, names_view(crates@)),
{
    decl_rewrite_exec(line, crates, "use ").is_none() && decl_rewrite_exec(line, crates, "extern crate ").is_none()
        && path_rewrite_breaks_exec(line, crates)
}

/// Exec form of [`surgical_ok`].
pub fn surgical_safe(src: &str, crates: &[String]) -> (r: bool)
    ensures
        r == surgical_ok(src@, names_view(crates@)),
{
    let ls = split_lines(&to_chars(src));
    let ghost lv = views(ls@);
    let mut k: usize = 0;
    while k < ls.len()
        invariant
            k <= ls@.len(),
            lv == views(ls@),
            lv == lines(src@),
            forall|q: int| 0 <= q < k ==> !line_breaks(#[trigger] lines(src@)[q], names_view(crates@)),
        decreases ls@.len() - k,
    {
        assert(lv[k as int] == ls@[k as int]@);
        if line_breaks_exec(&ls[k], crates) {
            return false;
        }
        k = k + 1;
    }
    true
}

/// The views of some identifier edits, or none.
pub open spec fn opt_spans(o: Option<&[SpanEdit]>) -> Option<Seq<(usize, usize, Seq<char>)>> {
    match o {
        Some(s) => Some(edit_views(s@)),
        None => None,
    }
}

/// A whole source rewritten: with the parser's edits when it parsed, then
/// the line rewrite over the result as a safety net; with the line
/// rewrite alone when it did not parse or the edits changed nothing.
/// None when the text comes out unchanged.
pub open spec fn spec_rewrite_string(src: Seq<char>, parsed: Option<Seq<(usize, usize, Seq<char>)>>, crates: Seq<Seq<char>>) -> Option<Seq<char>> {
    match parsed {
        None => spec_rewrite_surgical(src, crates),
        Some(spans) => match spec_apply_spans(src, spans) {
            Some(out) if out != src => {
                let surgical = match spec_rewrite_surgical(out, crates) {
                    Some(x) => x,
                    None => out,
                };
                if surgical == src {
                    None
                } else {
                    Some(surgical)
                }
            },
            _ => spec_rewrite_surgical(src, crates),
        },
    }
}

/// Every text the line rewrite runs over in [`spec_rewrite_string`] is
/// one it can scan.
pub open spec fn rewrite_string_ok(src: Seq<char>, parsed: Option<Seq<(usize, usize, Seq<char>)>>, crates: Seq<Seq<char>>) -> bool {
    match parsed {
        None => surgical_ok(src, crates),
        Some(spans) => match spec_apply_spans(src, spans) {
            Some(out) if out != src => surgical_ok(out, crates),
            _ => surgical_ok(src, crates),
        },
    }
}

/// Rewrites a whole source (see [`spec_rewrite_string`]); `parsed` is the
/// list of crate-name identifiers a parser found, or none when the source
/// did not parse.
pub fn rewrite_string_from_parse(src: &str, parsed: Option<&[SpanEdit]>, crates: &[String]) -> (r: Option<String>)
    requires
        src@.len() + 1_000_000 < usize::MAX,
        rewrite_string_ok(src@, opt_spans(parsed), names_view(crates@)),
    ensures
        match (r, spec_rewrite_string(src@, opt_spans(parsed), names_view(crates@))) {
            (Some(a), Some(b)) => a@ == b,
            (None, None) => true,
            _ => false,
        },
{
    match parsed {
        None => rewrite_surgical(src, crates),
        Some(spans) => match apply_spans_via_linecol(src, spans) {
            Some(out) => {
                if seq_eq(&to_chars(out.as_str()), &to_chars(src)) {
                    rewrite_surgical(src, crates)
                } else {
                    let surgical = match rewrite_surgical(out.as_str(), crates) {
                        Some(x) => x,
                        None => out,
                    };
                    if seq_eq(&to_chars(surgical.as_str()), &to_chars(src)) {
                        None
                    } else {
                        Some(surgical)
                    }
                }
            },
            None => rewrite_surgical(src, crates),
        },
    }
}

/// Exec form of [`rewrite_string_ok`]: whether [`rewrite_string_from_parse`]
/// may run on these arguments.
pub fn rewrite_string_safe(src: &str, parsed: Option<&[SpanEdit]>, crates: &[String]) -> (r: bool)
    requires
        src@.len() + 1_000_000 < usize::MAX,
    ensures
        r == rewrite_string_ok(src@, opt_spans(parsed), names_view(crates@)),
{
    match parsed {
        None => surgical_safe(src, crates),
        Some(spans) => match apply_spans_via_linecol(src, spans) {
            Some(out) => {
                if seq_eq(&to_chars(out.as_str()), &to_chars(src)) {
                    surgical_safe(src, crates)
                } else {
                    surgical_safe(out.as_str(), crates)
                }
            },
            None => surgical_safe(src, crates),
        },
    }
}

// ---------------------------------------------------------------------------
// Crate references found by `syn`
// ---------------------------------------------------------------------------

#[verifier::external_type_specification]
#[verifier::external_body]
pub struct ExSynItemUse(syn::ItemUse);

#[verifier::external_type_specification]
#[verifier::external_body]
pub struct ExSynItemExternCrate(syn::ItemExternCrate);

#[verifier::external_type_specification]
#[verifier::external_body]
pub struct ExSynPath(syn::Path);

#[verifier::external_type_specification]
#[verifier::external_body]
pub struct ExSynUseTree(syn::UseTree);

/// What parsing a source text with `syn::parse_file` and walking it with
/// [`RefCollector`] gives: in the order of the walk, each `use` tree (as
/// [`UseTokV`] nodes), the name of each `extern crate`, and the first
/// segment of each path with the path's number of segments, identifiers
/// with their start and end (line from 1, column in characters from 0);
/// none when the text does not parse.
pub uninterp spec fn syn_crate_refs(src: Seq<char>) -> Option<Seq<RefItemV>>;

/// The plain values of a list of identifier sites.
pub open spec fn site_views(s: Seq<(String, usize, usize, usize, usize, Option<usize>)>) -> Seq<
    (Seq<char>, usize, usize, usize, usize, Option<usize>),
> {
    s.map_values(
        |t: (String, usize, usize, usize, usize, Option<usize>)| (t.0@, t.1, t.2, t.3, t.4, t.5),
    )
}

/// One node of a `use` tree, in the order of a walk that visits a node
/// before its children: a path segment (its identifier; the subtree after
/// `::` follows), a name, a renaming (the name before `as`), a glob, or a
/// group (the number of its items; the items follow, one subtree each).
pub enum UseTok {
    Path((String, usize, usize, usize, usize)),
    Name((String, usize, usize, usize, usize)),
    Rename((String, usize, usize, usize, usize)),
    Glob,
    Group(usize),
}

/// [`UseTok`] as plain values.
pub enum UseTokV {
    Path((Seq<char>, usize, usize, usize, usize)),
    Name((Seq<char>, usize, usize, usize, usize)),
    Rename((Seq<char>, usize, usize, usize, usize)),
    Glob,
    Group(usize),
}

pub open spec fn use_tok_view(t: UseTok) -> UseTokV {
    match t {
        UseTok::Path(x) => UseTokV::Path((x.0@, x.1, x.2, x.3, x.4)),
        UseTok::Name(x) => UseTokV::Name((x.0@, x.1, x.2, x.3, x.4)),
        UseTok::Rename(x) => UseTokV::Rename((x.0@, x.1, x.2, x.3, x.4)),
        UseTok::Glob => UseTokV::Glob,
        UseTok::Group(n) => UseTokV::Group(n),
    }
}

pub open spec fn use_toks_view(v: Seq<UseTok>) -> Seq<UseTokV> {
    v.map_values(|t: UseTok| use_tok_view(t))
}

/// The leading identifiers of the `use` subtree that starts at `i` (the
/// crate names it starts from: the first segment of a path, a name, the
/// original of a renaming; a group's items each in turn; nothing inside a
/// path after its first segment), and the index after the subtree.
pub open spec fn use_leads(toks: Seq<UseTokV>, i: int) -> (Seq<(Seq<char>, usize, usize, usize, usize, Option<usize>)>, int)
    decreases toks.len() - i, 0int, 0nat,
{
    if i < 0 || i >= toks.len() {
        (seq![], i)
    } else {
        match toks[i] {
            UseTokV::Path(x) => (seq![(x.0, x.1, x.2, x.3, x.4, None)], use_leads(toks, i + 1).1),
            UseTokV::Name(x) => (seq![(x.0, x.1, x.2, x.3, x.4, None)], i + 1),
            UseTokV::Rename(x) => (seq![(x.0, x.1, x.2, x.3, x.4, None)], i + 1),
            UseTokV::Glob => (seq![], i + 1),
            UseTokV::Group(n) => use_items(toks, i + 1, n as nat),
        }
    }
}

/// The leading identifiers of `n` subtrees in a row from `j`, and the index
/// after them; stops early at the end of the list.
pub open spec fn use_items(toks: Seq<UseTokV>, j: int, n: nat) -> (Seq<(Seq<char>, usize, usize, usize, usize, Option<usize>)>, int)
    decreases toks.len() - j, 1int, n,
{
    if n == 0 || j < 0 || j >= toks.len() {
        (seq![], j)
    } else {
        let (first, next) = use_leads(toks, j);
        if next <= j || next > toks.len() {
            (first, next)
        } else {
            let (rest, end) = use_items(toks, next, (n - 1) as nat);
            (first + rest, end)
        }
    }
}

fn use_leads_exec(toks: &[UseTok], i: usize) -> (r: (Vec<(String, usize, usize, usize, usize, Option<usize>)>, usize))
    ensures
        (site_views(r.0@), r.1 as int) == use_leads(use_toks_view(toks@), i as int),
    decreases toks@.len() - i, 0int, 0nat,
{
    let ghost tv = use_toks_view(toks@);
    if i >= toks.len() {
        let v: Vec<(String, usize, usize, usize, usize, Option<usize>)> = Vec::new();
        assert(site_views(v@) =~= seq![]);
        return (v, i);
    }
    assert(tv[i as int] == use_tok_view(toks@[i as int]));
    match &toks[i] {
        UseTok::Path(x) => {
            let (_, end) = use_leads_exec(toks, i + 1);
            let v = vec![(x.0.clone(), x.1, x.2, x.3, x.4, None)];
            assert(site_views(v@) =~= seq![(x.0@, x.1, x.2, x.3, x.4, None::<usize>)]);
            (v, end)
        },
        UseTok::Name(x) | UseTok::Rename(x) => {
            let v = vec![(x.0.clone(), x.1, x.2, x.3, x.4, None)];
            assert(site_views(v@) =~= seq![(x.0@, x.1, x.2, x.3, x.4, None::<usize>)]);
            (v, i + 1)
        },
        UseTok::Glob => {
            let v: Vec<(String, usize, usize, usize, usize, Option<usize>)> = Vec::new();
            assert(site_views(v@) =~= seq![]);
            (v, i + 1)
        },
        UseTok::Group(n) => use_items_exec(toks, i + 1, *n),
    }
}

fn use_items_exec(toks: &[UseTok], j: usize, n: usize) -> (r: (Vec<(String, usize, usize, usize, usize, Option<usize>)>, usize))
    ensures
        (site_views(r.0@), r.1 as int) == use_items(use_toks_view(toks@), j as int, n as nat),
    decreases toks@.len() - j, 1int, n,
{
    if n == 0 || j >= toks.len() {
        let v: Vec<(String, usize, usize, usize, usize, Option<usize>)> = Vec::new();
        assert(site_views(v@) =~= seq![]);
        return (v, j);
    }
    let (first, next) = use_leads_exec(toks, j);
    if next <= j || next > toks.len() {
        return (first, next);
    }
    let (rest, end) = use_items_exec(toks, next, n - 1);
    let mut all = first;
    let ghost f = site_views(all@);
    let mut rest = rest;
    all.append(&mut rest);
    assert(site_views(all@) =~= f + use_items(use_toks_view(toks@), next as int, (n - 1) as nat).0);
    (all, end)
}

/// What the walk records: a `use` tree, or an identifier (an `extern
/// crate` name, or the first segment of a path with the path's number of
/// segments).
pub enum RefItem {
    Use(Vec<UseTok>),
    Ident(String, usize, usize, usize, usize, Option<usize>),
}

/// [`RefItem`] as plain values.
pub enum RefItemV {
    Use(Seq<UseTokV>),
    Ident(Seq<char>, usize, usize, usize, usize, Option<usize>),
}

pub open spec fn ref_item_view(r: RefItem) -> RefItemV {
    match r {
        RefItem::Use(t) => RefItemV::Use(use_toks_view(t@)),
        RefItem::Ident(s, a, b, c, d, n) => RefItemV::Ident(s@, a, b, c, d, n),
    }
}

pub open spec fn ref_items_view(v: Seq<RefItem>) -> Seq<RefItemV> {
    v.map_values(|r: RefItem| ref_item_view(r))
}

pub open spec fn opt_ref_items_view(o: Option<Vec<RefItem>>) -> Option<Seq<RefItemV>> {
    match o {
        Some(v) => Some(ref_items_view(v@)),
        None => None,
    }
}

/// The identifier sites of the walk's records, in order: a `use` tree's
/// leading identifiers (see [`use_leads`]), or the identifier itself.
pub open spec fn ref_sites(items: Seq<RefItemV>) -> Seq<(Seq<char>, usize, usize, usize, usize, Option<usize>)>
    decreases items.len(),
{
    if items.len() == 0 {
        seq![]
    } else {
        ref_sites(items.drop_last()) + match items.last() {
            RefItemV::Use(t) => use_leads(t, 0).0,
            RefItemV::Ident(s, a, b, c, d, n) => seq![(s, a, b, c, d, n)],
        }
    }
}

/// See [`ref_sites`].
pub fn ref_sites_exec(items: &[RefItem]) -> (r: Vec<(String, usize, usize, usize, usize, Option<usize>)>)
    ensures
        site_views(r@) == ref_sites(ref_items_view(items@)),
{
    let ghost iv = ref_items_view(items@);
    let mut out: Vec<(String, usize, usize, usize, usize, Option<usize>)> = Vec::new();
    let mut k: usize = 0;
    assert(iv.take(0) =~= Seq::<RefItemV>::empty());
    assert(site_views(out@) =~= seq![]);
    while k < items.len()
        invariant
            k <= items@.len(),
            iv == ref_items_view(items@),
            site_views(out@) == ref_sites(iv.take(k as int)),
        decreases items@.len() - k,
    {
        assert(iv.take(k + 1).drop_last() =~= iv.take(k as int));
        assert(iv.take(k + 1).last() == ref_item_view(items@[k as int]));
        let ghost prev = site_views(out@);
        match &items[k] {
            RefItem::Use(t) => {
                let (mut leads, _) = use_leads_exec(t.as_slice(), 0);
                out.append(&mut leads);
            },
            RefItem::Ident(s, a, b, c, d, n) => {
                out.push((s.clone(), *a, *b, *c, *d, *n));
            },
        }
        assert(site_views(out@) =~= ref_sites(iv.take(k + 1)));
        k = k + 1;
    }
    assert(iv.take(items@.len() as int) =~= iv);
    out
}

/// The walk over a parsed file that records where a crate may be named.
/// Its methods and [`push_use_tree`] only copy `syn`'s nodes into
/// [`RefItem`]s, node for node; which identifiers name a crate is decided
/// in [`use_leads`] and [`site_edits`].
struct RefCollector {
    items: Vec<RefItem>,
}

#[verifier::external_type_specification]
#[verifier::external_body]
pub struct ExSynIdent(syn::Ident);

/// An identifier's text, start and end as `proc_macro2` gives them.
#[verifier::external_body]
fn ident_site(i: &syn::Ident) -> (String, usize, usize, usize, usize) {
    let (a, b) = (i.span().start(), i.span().end());
    (i.to_string(), a.line, a.column, b.line, b.column)
}

/// Copies a `syn::UseTree` into [`UseTok`]s, each node before its children.
#[verifier::external_body]
fn push_use_tree(t: &syn::UseTree, out: &mut Vec<UseTok>) {
    match t {
        syn::UseTree::Path(p) => {
            out.push(UseTok::Path(ident_site(&p.ident)));
            push_use_tree(&p.tree, out);
        },
        syn::UseTree::Name(n) => out.push(UseTok::Name(ident_site(&n.ident))),
        syn::UseTree::Rename(r) => out.push(UseTok::Rename(ident_site(&r.ident))),
        syn::UseTree::Glob(_) => out.push(UseTok::Glob),
        syn::UseTree::Group(g) => {
            out.push(UseTok::Group(g.items.len()));
            g.items.iter().for_each(|x| push_use_tree(x, out));
        },
    }
}

impl<'ast> Visit<'ast> for RefCollector {
    #[verifier::external_body]
    fn visit_item_use(&mut self, i: &'ast syn::ItemUse) {
        let mut toks = Vec::new();
        push_use_tree(&i.tree, &mut toks);
        self.items.push(RefItem::Use(toks));
        syn::visit::visit_item_use(self, i);
    }

    #[verifier::external_body]
    fn visit_item_extern_crate(&mut self, i: &'ast syn::ItemExternCrate) {
        let (s, a, b, c, d) = ident_site(&i.ident);
        self.items.push(RefItem::Ident(s, a, b, c, d, None));
        syn::visit::visit_item_extern_crate(self, i);
    }

    #[verifier::external_body]
    fn visit_path(&mut self, p: &'ast syn::Path) {
        if let Some(first) = p.segments.first() {
            let (s, a, b, c, d) = ident_site(&first.ident);
            self.items.push(RefItem::Ident(s, a, b, c, d, Some(p.segments.len())));
        }
        syn::visit::visit_path(self, p);
    }
}

/// `syn::parse_file` on `src`, walked by [`RefCollector`]. The contract
/// names the result [`syn_crate_refs`]. Before parsing, the thread's table
/// of source positions is cleared (`proc_macro2::extra::
/// invalidate_current_thread_spans`), so that positions count from this
/// text alone and earlier parses leave no trace. Texts of about 2^32
/// characters are left out: that table counts in 32 bits. Nothing is said
/// of a text nested so deeply that the parser's recursion exhausts the
/// stack.
#[verifier::external_body]
fn crate_ref_sites(src: &str) -> (r: Option<Vec<RefItem>>)
    requires
        src@.len() < 0xffff_0000,
    ensures
        opt_ref_items_view(r) == syn_crate_refs(src@),
{
    proc_macro2::extra::invalidate_current_thread_spans();
    match syn::parse_file(src) {
        Ok(file) => {
            let mut c = RefCollector { items: Vec::new() };
            c.visit_file(&file);
            Some(c.items)
        },
        Err(_) => None,
    }
}

/// A site that names a known crate: an identifier starting `codex_` that
/// is in `crates`, and, when it heads a path, a path of two segments or
/// more (a lone `codex_x` may be a local of that name).
pub open spec fn wanted_site(site: (Seq<char>, usize, usize, usize, usize, Option<usize>), crates: Seq<Seq<char>>) -> bool {
    &&& starts_with(site.0, "codex_"@)
    &&& crates.contains(site.0)
    &&& (site.5 matches Some(n) ==> n >= 2)
}

/// The identifier edits for the wanted sites, in order, positions packed;
/// none when a position does not pack into a `usize`.
pub open spec fn site_edits(sites: Seq<(Seq<char>, usize, usize, usize, usize, Option<usize>)>, crates: Seq<Seq<char>>) -> Option<
    Seq<(usize, usize, Seq<char>)>,
>
    decreases sites.len(),
{
    if sites.len() == 0 {
        Some(seq![])
    } else {
        match site_edits(sites.drop_last(), crates) {
            None => None,
            Some(es) => {
                let t = sites.last();
                if !wanted_site(t, crates) {
                    Some(es)
                } else if t.1 * 1_000_000 + t.2 <= usize::MAX && t.3 * 1_000_000 + t.4 <= usize::MAX {
                    Some(es.push(((t.1 * 1_000_000 + t.2) as usize, (t.3 * 1_000_000 + t.4) as usize, t.0)))
                } else {
                    None
                }
            },
        }
    }
}

fn site_spans(sites: &[(String, usize, usize, usize, usize, Option<usize>)], crates: &[String]) -> (r: Option<Vec<SpanEdit>>)
    ensures
        match r {
            Some(v) => site_edits(site_views(sites@), names_view(crates@)) == Some(edit_views(v@)),
            None => site_edits(site_views(sites@), names_view(crates@)) is None,
        },
{
    let ghost sv = site_views(sites@);
    let ghost cv = names_view(crates@);
    let mut out: Vec<SpanEdit> = Vec::new();
    let mut i: usize = 0;
    assert(sv.take(0) =~= Seq::<(Seq<char>, usize, usize, usize, usize, Option<usize>)>::empty());
    assert(edit_views(out@) =~= Seq::<(usize, usize, Seq<char>)>::empty());
    while i < sites.len()
        invariant
            i <= sites@.len(),
            sv == site_views(sites@),
            cv == names_view(crates@),
            site_edits(sv.take(i as int), cv) == Some(edit_views(out@)),
        decreases sites@.len() - i,
    {
        let t = &sites[i];
        let ghost prev = out@;
        assert(sv.take(i + 1).drop_last() =~= sv.take(i as int));
        assert(sv.take(i + 1).last() == sv[i as int]);
        assert(sv[i as int] == (t.0@, t.1, t.2, t.3, t.4, t.5));
        let id = to_chars(t.0.as_str());
        let long_enough = match t.5 {
            Some(n) => n >= 2,
            None => true,
        };
        if starts_lit(&id, "codex_") && list_contains(crates, &id) && long_enough {
            let start = match t.1.checked_mul(1_000_000) {
                Some(x) => x.checked_add(t.2),
                None => None,
            };
            let end = match t.3.checked_mul(1_000_000) {
                Some(x) => x.checked_add(t.4),
                None => None,
            };
            match (start, end) {
                (Some(a), Some(b)) => {
                    out.push(SpanEdit { start: a, end: b, old_ident: t.0.clone() });
                    assert(edit_views(out@) =~= edit_views(prev).push((a, b, t.0@)));
                },
                _ => {
                    proof {
                        lemma_site_edits_prefix_none(sv, cv, i + 1);
                    }
                    return None;
                },
            }
        }
        i = i + 1;
    }
    assert(sv.take(sv.len() as int) =~= sv);
    Some(out)
}

proof fn lemma_site_edits_prefix_none(
    sites: Seq<(Seq<char>, usize, usize, usize, usize, Option<usize>)>,
    crates: Seq<Seq<char>>,
    k: int,
)
    requires
        0 <= k <= sites.len(),
        site_edits(sites.take(k), crates) is None,
    ensures
        site_edits(sites, crates) is None,
    decreases sites.len(),
{
    if k == sites.len() {
        assert(sites.take(k) =~= sites);
    } else {
        assert(sites.drop_last().take(k) =~= sites.take(k));
        lemma_site_edits_prefix_none(sites.drop_last(), crates, k);
    }
}

/// A whole source rewritten from the sites a parser found (`None` when it
/// did not parse): the wanted sites' edits, then [`spec_rewrite_string`].
/// The source is left as it is (`None`) when a site's position does not
/// pack into a `usize`, when the text is within a million characters of
/// `usize::MAX`, or when the line rewrite would have to cut a line inside
/// a character.
pub open spec fn spec_rewrite_from_sites(
    src: Seq<char>,
    sites: Option<Seq<(Seq<char>, usize, usize, usize, usize, Option<usize>)>>,
    crates: Seq<Seq<char>>,
) -> Option<Seq<char>> {
    if src.len() + 1_000_000 >= usize::MAX {
        None
    } else {
        let parsed = match sites {
            None => Some(None::<Seq<(usize, usize, Seq<char>)>>),
            Some(s) => match site_edits(s, crates) {
                Some(es) => Some(Some(es)),
                None => None,
            },
        };
        match parsed {
            None => None,
            Some(p) => if rewrite_string_ok(src, p, crates) {
                spec_rewrite_string(src, p, crates)
            } else {
                None
            },
        }
    }
}

pub open spec fn opt_string_view(o: Option<String>) -> Option<Seq<char>> {
    match o {
        Some(s) => Some(s@),
        None => None,
    }
}

/// See [`spec_rewrite_from_sites`]; `sites` is what the parser found.
pub fn rewrite_string_from_sites(
    src: &str,
    sites: Option<&[(String, usize, usize, usize, usize, Option<usize>)]>,
    crates: &[String],
) -> (r: Option<String>)
    ensures
        opt_string_view(r) == spec_rewrite_from_sites(
            src@,
            match sites {
                Some(s) => Some(site_views(s@)),
                None => None,
            },
            names_view(crates@),
        ),
{
    let n = to_chars(src).len();
    if n >= usize::MAX - 1_000_000 {
        return None;
    }
    let spans: Option<Vec<SpanEdit>> = match sites {
        None => None,
        Some(s) => match site_spans(s, crates) {
            Some(v) => Some(v),
            None => {
                return None;
            },
        },
    };
    let parsed: Option<&[SpanEdit]> = match &spans {
        Some(v) => Some(v.as_slice()),
        None => None,
    };
    if !rewrite_string_safe(src, parsed, crates) {
        return None;
    }
    match rewrite_string_from_parse(src, parsed, crates) {
        Some(x) => Some(x),
        None => None,
    }
}

/// Whether a source is short enough for the parser's position table.
pub open spec fn parsable_len(src: Seq<char>) -> bool {
    src.len() < 0xffff_0000
}

/// Rewrites the `codex_*` crate references of a Rust source (see
/// [`spec_rewrite_from_sites`]) from what `syn` finds in it; `None` when
/// nothing changes, and for a text too long for the parser's position
/// table.
pub fn rewrite_string(src: &str, crates: &[String]) -> (r: Option<String>)
    ensures
        opt_string_view(r) == if parsable_len(src@) {
            spec_rewrite_from_refs(src@, syn_crate_refs(src@), names_view(crates@))
        } else {
            None
        },
{
    let n = to_chars(src).len();
    if n >= 0xffff_0000 {
        return None;
    }
    let refs = crate_ref_sites(src);
    let view: Option<&[RefItem]> = match &refs {
        Some(v) => Some(v.as_slice()),
        None => None,
    };
    rewrite_string_from_refs(src, view, crates)
}

/// [`spec_rewrite_from_sites`] on the identifier sites of a walk's records
/// (see [`ref_sites`]).
pub open spec fn spec_rewrite_from_refs(src: Seq<char>, refs: Option<Seq<RefItemV>>, crates: Seq<Seq<char>>) -> Option<Seq<char>> {
    spec_rewrite_from_sites(
        src,
        match refs {
            Some(r) => Some(ref_sites(r)),
            None => None,
        },
        crates,
    )
}

/// See [`spec_rewrite_from_refs`]; `refs` is what the parser's walk
/// recorded, or none when the source did not parse.
pub fn rewrite_string_from_refs(src: &str, refs: Option<&[RefItem]>, crates: &[String]) -> (r: Option<String>)
    ensures
        opt_string_view(r) == spec_rewrite_from_refs(
            src@,
            match refs {
                Some(v) => Some(ref_items_view(v@)),
                None => None,
            },
            names_view(crates@),
        ),
{
    match refs {
        Some(items) => {
            let sites = ref_sites_exec(items);
            rewrite_string_from_sites(src, Some(sites.as_slice()), crates)
        },
        None => rewrite_string_from_sites(src, None, crates),
    }
}

} // verus!
