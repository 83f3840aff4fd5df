//! Cargo manifest rewriting for the publish workspace: package and crate
//! identifier renaming, line-based rewrites of crate manifests, and the fork
//! aliases of the workspace manifest.

use vstd::prelude::*;
use crate::text::{
    concat, contains, contains_seq, ends_with, eq_lit, extend, extend_lit, find_ch, find_char,
    find_seq_from, from_chars, has_suffix, lead_ws, lead_ws_len, lemma_find_from,
    lemma_find_from_skip, lemma_lead_ws, lemma_rfind_char_before, lemma_runs, lemma_trail_ws,
    lines, match_at, rfind_ch, rfind_char, seq_eq, slice_vec, split_lines, starts_lit, starts_with,
    to_chars, trail_ws, trim, trim_char, trim_char_vec, trim_end, trim_end_char, trim_end_char_vec,
    trim_end_vec, trim_start, trim_start_vec, trim_vec, views, is_alnum, alnum,
};

verus! {

// ---------------------------------------------------------------------------
// Renaming
// ---------------------------------------------------------------------------

/// `codex-foo` becomes `lemurclaw-foo`; other names are kept.
pub open spec fn spec_rename_package(name: Seq<char>) -> Seq<char> {
    if starts_with(name, "codex-"@) {
        "lemurclaw-"@ + name.skip("codex-"@.len() as int)
    } else {
        name
    }
}

/// `codex_foo` becomes `lemurclaw_foo`; other identifiers are kept.
pub open spec fn spec_rename_ident(name: Seq<char>) -> Seq<char> {
    if starts_with(name, "codex_"@) {
        "lemurclaw_"@ + name.skip("codex_"@.len() as int)
    } else {
        name
    }
}

/// Renaming a package twice is renaming it once: a renamed name no longer
/// carries the `codex-` prefix.
pub proof fn lemma_rename_package_idempotent(name: Seq<char>)
    ensures
        spec_rename_package(spec_rename_package(name)) == spec_rename_package(name),
        !starts_with(spec_rename_package(name), "codex-"@) || spec_rename_package(name) == name,
{
    reveal_strlit("codex-");
    reveal_strlit("lemurclaw-");
    let r = spec_rename_package(name);
    if starts_with(name, "codex-"@) {
        assert(r[0] == 'l');
        assert(!starts_with(r, "codex-"@)) by {
            assert(r.subrange(0, 6)[0] != "codex-"@[0]);
        }
    }
}

/// Renaming an identifier twice is renaming it once.
pub proof fn lemma_rename_ident_idempotent(name: Seq<char>)
    ensures
        spec_rename_ident(spec_rename_ident(name)) == spec_rename_ident(name),
{
    reveal_strlit("codex_");
    reveal_strlit("lemurclaw_");
    let r = spec_rename_ident(name);
    if starts_with(name, "codex_"@) {
        assert(!starts_with(r, "codex_"@)) by {
            assert(r.subrange(0, 6)[0] != "codex_"@[0]);
        }
    }
}

/// Renaming keeps distinct package names distinct.
pub proof fn lemma_rename_package_injective(a: Seq<char>, b: Seq<char>)
    requires
        starts_with(a, "codex-"@) == starts_with(b, "codex-"@),
        spec_rename_package(a) == spec_rename_package(b),
    ensures
        a == b,
{
    if starts_with(a, "codex-"@) {
        let n = "lemurclaw-"@.len() as int;
        assert(spec_rename_package(a).skip(n) =~= a.skip("codex-"@.len() as int));
        assert(spec_rename_package(b).skip(n) =~= b.skip("codex-"@.len() as int));
        assert(a =~= a.take("codex-"@.len() as int) + a.skip("codex-"@.len() as int));
        assert(b =~= b.take("codex-"@.len() as int) + b.skip("codex-"@.len() as int));
    }
}

pub fn rename_with(name: &[char], from: &str, to: &str) -> (r: Vec<char>)
    ensures
        starts_with(name@, from@) ==> r@ == to@ + name@.skip(from@.len() as int),
        !starts_with(name@, from@) ==> r@ == name@,
{
    let f = to_chars(from);
    if crate::text::has_prefix(name, &f) {
        let t = to_chars(to);
        concat(&t, &slice_vec(name, f.len(), name.len()))
    } else {
        slice_vec(name, 0, name.len())
    }
}

pub fn rename_package_chars(name: &[char]) -> (r: Vec<char>)
    ensures
        r@ == spec_rename_package(name@),
{
    let r = rename_with(name, "codex-", "lemurclaw-");
    assert(name@.subrange(0, name@.len() as int) =~= name@);
    r
}

pub fn rename_ident_chars(name: &[char]) -> (r: Vec<char>)
    ensures
        r@ == spec_rename_ident(name@),
{
    let r = rename_with(name, "codex_", "lemurclaw_");
    assert(name@.subrange(0, name@.len() as int) =~= name@);
    r
}

/// Renames a package: `codex-foo` becomes `lemurclaw-foo`; names without
/// the prefix are kept.
pub fn rename_package(name: &str) -> (r: String)
    ensures
        r@ == spec_rename_package(name@),
{
    from_chars(&rename_package_chars(&to_chars(name)))
}

/// Renames a crate identifier: `codex_foo` becomes `lemurclaw_foo`;
/// identifiers without the prefix are kept.
pub fn rename_ident(name: &str) -> (r: String)
    ensures
        r@ == spec_rename_ident(name@),
{
    from_chars(&rename_ident_chars(&to_chars(name)))
}

// ---------------------------------------------------------------------------
// Line helpers
// ---------------------------------------------------------------------------

/// A table header line such as `[dependencies]` or `[dependencies.foo]`.
pub open spec fn is_header(t: Seq<char>) -> bool {
    starts_with(t, "["@) && ends_with(t, "]"@)
}

/// Characters of a bare TOML key.
pub open spec fn is_key_char(c: char) -> bool {
    is_alnum(c) || c == '_' || c == '-'
}

/// Length of the bare key at the start of `s`.
pub open spec fn key_len(s: Seq<char>) -> nat
    decreases s.len(),
{
    if s.len() > 0 && is_key_char(s[0]) {
        1 + key_len(s.drop_first())
    } else {
        0
    }
}

pub proof fn lemma_key_len(s: Seq<char>)
    ensures
        key_len(s) <= s.len(),
    decreases s.len(),
{
    if s.len() > 0 && is_key_char(s[0]) {
        lemma_key_len(s.drop_first());
    }
}

fn key_len_exec(s: &[char]) -> (r: usize)
    ensures
        r == key_len(s@),
        r <= s@.len(),
{
    let mut i: usize = 0;
    assert(s@.skip(0) =~= s@);
    while i < s.len() && (alnum(s[i]) || s[i] == '_' || s[i] == '-')
        invariant
            i <= s@.len(),
            key_len(s@) == i + key_len(s@.skip(i as int)),
        decreases s@.len() - i,
    {
        assert(s@.skip(i as int).drop_first() =~= s@.skip(i + 1));
        i = i + 1;
    }
    i
}

fn is_header_exec(t: &[char]) -> (r: bool)
    ensures
        r == is_header(t@),
{
    starts_lit(t, "[") && crate::text::has_suffix(t, &to_chars("]"))
}

/// If the line is `<ws>codex-foo<ws>=...`, where the key begins.
pub open spec fn spec_find_codex_key(line: Seq<char>) -> Option<nat> {
    let rest = line.skip(lead_ws(line) as int);
    if !starts_with(rest, "codex-"@) {
        None
    } else if starts_with(trim_start(rest.skip(key_len(rest) as int)), "="@) {
        Some(lead_ws(line))
    } else {
        None
    }
}

fn find_codex_key(line: &[char]) -> (r: Option<usize>)
    ensures
        match r {
            Some(k) => spec_find_codex_key(line@) == Some(k as nat),
            None => spec_find_codex_key(line@) is None,
        },
{
    let ws = lead_ws_len(line);
    proof {
        lemma_lead_ws(line@);
    }
    let rest = slice_vec(line, ws, line.len());
    assert(rest@ =~= line@.skip(ws as int));
    if !starts_lit(&rest, "codex-") {
        return None;
    }
    let k = key_len_exec(&rest);
    let after = slice_vec(&rest, k, rest.len());
    assert(after@ =~= rest@.skip(k as int));
    let at = trim_start_vec(&after);
    if starts_lit(&at, "=") {
        Some(ws)
    } else {
        None
    }
}

// ---------------------------------------------------------------------------
// Quoted package names
// ---------------------------------------------------------------------------

/// Every quoted string of `s` whose contents start with `codex-` gets its
/// contents renamed; everything else is kept.
pub open spec fn quoted_rewrite(s: Seq<char>) -> Seq<char>
    decreases s.len(),
{
    if s.len() == 0 {
        seq![]
    } else if s[0] == '"' && find_char(s.drop_first(), '"') is Some {
        let e = find_char(s.drop_first(), '"')->0;
        if 0 <= e && e + 2 <= s.len() {
            let inner = s.subrange(1, e + 1);
            (if starts_with(inner, "codex-"@) {
                seq!['"'] + spec_rename_package(inner) + seq!['"']
            } else {
                s.take(e + 2)
            }) + quoted_rewrite(s.skip(e + 2))
        } else {
            seq![s[0]] + quoted_rewrite(s.drop_first())
        }
    } else {
        seq![s[0]] + quoted_rewrite(s.drop_first())
    }
}

fn quoted_rewrite_exec(s: &[char]) -> (r: Vec<char>)
    ensures
        r@ == quoted_rewrite(s@),
{
    let mut out: Vec<char> = Vec::new();
    let mut i: usize = 0;
    let q: [char; 1] = ['"'];
    assert(q@ =~= seq!['"']);
    assert(s@.skip(0) =~= s@);
    assert(out@ + quoted_rewrite(s@) =~= quoted_rewrite(s@));
    while i < s.len()
        invariant
            i <= s@.len(),
            q@ == seq!['"'],
            out@ + quoted_rewrite(s@.skip(i as int)) == quoted_rewrite(s@),
        decreases s@.len() - i,
    {
        let ghost rest = s@.skip(i as int);
        let ghost prev = out@;
        assert(rest.drop_first() =~= s@.skip(i + 1));
        assert(rest[0] == s@[i as int]);
        if s[i] == '"' {
            proof {
                lemma_find_from_skip(s@, seq!['"'], i + 1, i + 1);
                lemma_find_from(s@.skip(i + 1), seq!['"'], 0);
            }
            match find_seq_from(s, &q, i + 1) {
                Some(e_abs) => {
                    let ghost e = e_abs - (i + 1);
                    assert(find_char(rest.drop_first(), '"') == Some(e));
                    assert(e + 2 <= rest.len());
                    let inner = slice_vec(s, i + 1, e_abs);
                    assert(inner@ =~= rest.subrange(1, e + 1));
                    if starts_lit(&inner, "codex-") {
                        out.push('"');
                        let rn = rename_package_chars(&inner);
                        extend(&mut out, &rn);
                        out.push('"');
                        assert(out@ =~= prev + (seq!['"'] + spec_rename_package(inner@) + seq![
                            '"',
                        ]));
                    } else {
                        let whole = slice_vec(s, i, e_abs + 1);
                        assert(whole@ =~= rest.take(e + 2));
                        extend(&mut out, &whole);
                    }
                    assert(rest.skip(e + 2) =~= s@.skip(e_abs + 1));
                    i = e_abs + 1;
                },
                None => {
                    out.push(s[i]);
                    assert(out@ =~= prev + seq![rest[0]]);
                    i = i + 1;
                },
            }
        } else {
            out.push(s[i]);
            assert(out@ =~= prev + seq![rest[0]]);
            i = i + 1;
        }
    }
    assert(s@.skip(i as int) =~= Seq::<char>::empty());
    assert(out@ + Seq::<char>::empty() =~= out@);
    out
}

/// The lib-name form `name = "codex_x"` is renamed as an identifier; any
/// other line has its quoted `codex-` package names renamed.
pub open spec fn spec_rewrite_codex_strings(line: Seq<char>) -> Seq<char> {
    let t = trim_start(line);
    let r2 = trim(t.skip("name = "@.len() as int));
    let inner = r2.subrange(1, r2.len() - 1);
    if starts_with(t, "name = "@) && r2.len() >= 2 && r2[0] == '"' && r2.last() == '"'
        && starts_with(inner, "codex_"@) {
        line.take(lead_ws(line) as int) + "name = \""@ + spec_rename_ident(inner) + "\""@
    } else {
        quoted_rewrite(line)
    }
}

fn rewrite_codex_strings_in_line(line: &[char]) -> (r: Vec<char>)
    ensures
        r@ == spec_rewrite_codex_strings(line@),
{
    let ws = lead_ws_len(line);
    proof {
        lemma_lead_ws(line@);
    }
    let t = slice_vec(line, ws, line.len());
    assert(t@ =~= trim_start(line@));
    if starts_lit(&t, "name = ") {
        let pre = to_chars("name = ");
        let r2 = trim_vec(&slice_vec(&t, pre.len(), t.len()));
        assert(t@.subrange(pre@.len() as int, t@.len() as int) =~= t@.skip(pre@.len() as int));
        if r2.len() >= 2 && r2[0] == '"' && r2[r2.len() - 1] == '"' {
            let inner = slice_vec(&r2, 1, r2.len() - 1);
            if starts_lit(&inner, "codex_") {
                let mut out = slice_vec(line, 0, ws);
                assert(out@ =~= line@.take(ws as int));
                extend_lit(&mut out, "name = \"");
                extend(&mut out, &rename_ident_chars(&inner));
                extend_lit(&mut out, "\"");
                return out;
            }
        }
    }
    quoted_rewrite_exec(line)
}

/// Renames the key of a `codex-foo = ...` line, a `[section.codex-foo]`
/// header's last segment, and quoted `codex-` names.
pub open spec fn spec_rewrite_manifest_line(line: Seq<char>) -> Seq<char> {
    let t = trim_start(line);
    if is_header(t) {
        match rfind_char(t, '.') {
            Some(d) => {
                let after = t.subrange(d + 1, t.len() - 1);
                if starts_with(after, "codex-"@) {
                    line.take(lead_ws(line) as int) + t.take(d + 1) + spec_rename_package(after)
                        + "]"@
                } else {
                    line
                }
            },
            None => line,
        }
    } else {
        match spec_find_codex_key(line) {
            Some(ks) => {
                let rest = line.skip(ks as int);
                let k = key_len(rest) as int;
                line.take(ks as int) + spec_rename_package(rest.take(k))
                    + spec_rewrite_codex_strings(rest.skip(k))
            },
            None => spec_rewrite_codex_strings(line),
        }
    }
}

fn rewrite_manifest_line(line: &[char]) -> (r: Vec<char>)
    ensures
        r@ == spec_rewrite_manifest_line(line@),
{
    let ws = lead_ws_len(line);
    proof {
        lemma_lead_ws(line@);
        reveal_strlit("]");
        reveal_strlit("[");
    }
    let t = slice_vec(line, ws, line.len());
    assert(t@ =~= trim_start(line@));
    if is_header_exec(&t) {
        match rfind_ch(&t, '.') {
            Some(d) => {
                proof {
                    lemma_rfind_char_before(t@, '.', t@.len() as int);
                    assert(t@.subrange(t@.len() - 1, t@.len() as int) == "]"@);
                    assert(t@.subrange(t@.len() - 1, t@.len() as int)[0] == t@[t@.len() - 1]);
                    assert("]"@[0] == ']');
                    assert(t@[t@.len() - 1] == ']');
                }
                let after = slice_vec(&t, d + 1, t.len() - 1);
                if starts_lit(&after, "codex-") {
                    let mut out = slice_vec(line, 0, ws);
                    assert(out@ =~= line@.take(ws as int));
                    let head = slice_vec(&t, 0, d + 1);
                    assert(head@ =~= t@.take(d + 1));
                    extend(&mut out, &head);
                    extend(&mut out, &rename_package_chars(&after));
                    extend_lit(&mut out, "]");
                    return out;
                }
                return slice_vec(line, 0, line.len());
            },
            None => {
                return slice_vec(line, 0, line.len());
            },
        }
    }
    match find_codex_key(line) {
        Some(ks) => {
            let rest = slice_vec(line, ks, line.len());
            assert(rest@ =~= line@.skip(ks as int));
            let k = key_len_exec(&rest);
            let mut out = slice_vec(line, 0, ks);
            assert(out@ =~= line@.take(ks as int));
            let key = slice_vec(&rest, 0, k);
            assert(key@ =~= rest@.take(k as int));
            extend(&mut out, &rename_package_chars(&key));
            let suffix = slice_vec(&rest, k, rest.len());
            assert(suffix@ =~= rest@.skip(k as int));
            extend(&mut out, &rewrite_codex_strings_in_line(&suffix));
            out
        },
        None => rewrite_codex_strings_in_line(line),
    }
}

// ---------------------------------------------------------------------------
// Dropped dependencies
// ---------------------------------------------------------------------------

/// The names of a list of strings.
pub open spec fn names_view(v: Seq<String>) -> Seq<Seq<char>> {
    v.map_values(|d: String| d@)
}

/// `dep = ...` (possibly with spaces before `=`) names `dep`.
pub open spec fn inline_dep_match(t: Seq<char>, dep: Seq<char>) -> bool {
    ||| starts_with(t, dep) && starts_with(trim_start(t.skip(dep.len() as int)), "="@)
    ||| match find_char(t, '=') {
        Some(e) => trim_end(t.take(e)) == dep,
        None => false,
    }
}

/// A header `[...dep]` names `dep` as its last segment.
pub open spec fn header_dep_match(t: Seq<char>, dep: Seq<char>) -> bool {
    contains(t, "."@ + dep + "]"@)
}

/// The (trimmed) line is a sub-table header for one of `deps`.
pub open spec fn spec_is_drop_dep_subtable_header(t: Seq<char>, deps: Seq<Seq<char>>) -> bool {
    is_header(t) && exists|i: int| 0 <= i < deps.len() && #[trigger] header_dep_match(t, deps[i])
}

/// The (trimmed) line assigns, or is a header for, one of `deps`.
pub open spec fn spec_line_matches_drop_dep(t: Seq<char>, deps: Seq<Seq<char>>) -> bool {
    deps.len() > 0 && ((exists|i: int| 0 <= i < deps.len() && #[trigger] inline_dep_match(t, deps[i]))
        || spec_is_drop_dep_subtable_header(t, deps))
}

fn inline_dep_match_exec(t: &[char], dep: &[char]) -> (r: bool)
    ensures
        r == inline_dep_match(t@, dep@),
{
    if crate::text::has_prefix(t, dep) {
        let after = trim_start_vec(&slice_vec(t, dep.len(), t.len()));
        assert(t@.subrange(dep@.len() as int, t@.len() as int) =~= t@.skip(dep@.len() as int));
        if starts_lit(&after, "=") {
            return true;
        }
    }
    match find_ch(t, '=') {
        Some(e) => {
            proof {
                lemma_find_from(t@, seq!['='], 0);
            }
            let key = trim_end_vec(&slice_vec(t, 0, e));
            assert(t@.subrange(0, e as int) =~= t@.take(e as int));
            seq_eq(&key, dep)
        },
        None => false,
    }
}

fn header_needle(dep: &[char]) -> (r: Vec<char>)
    ensures
        r@ == "."@ + dep@ + "]"@,
{
    let mut n = to_chars(".");
    extend(&mut n, dep);
    extend_lit(&mut n, "]");
    n
}

fn is_drop_dep_subtable_header(t: &[char], deps: &[String]) -> (r: bool)
    ensures
        r == spec_is_drop_dep_subtable_header(t@, names_view(deps@)),
{
    if !is_header_exec(t) {
        return false;
    }
    let mut i: usize = 0;
    while i < deps.len()
        invariant
            i <= deps@.len(),
            is_header(t@),
            forall|j: int| 0 <= j < i ==> !header_dep_match(t@, #[trigger] names_view(deps@)[j]),
        decreases deps@.len() - i,
    {
        let d = to_chars(deps[i].as_str());
        assert(d@ == names_view(deps@)[i as int]);
        if contains_seq(t, &header_needle(&d)) {
            assert(header_dep_match(t@, names_view(deps@)[i as int]));
            return true;
        }
        i = i + 1;
    }
    false
}

fn line_matches_drop_dep(t: &[char], deps: &[String]) -> (r: bool)
    ensures
        r == spec_line_matches_drop_dep(t@, names_view(deps@)),
{
    if deps.len() == 0 {
        return false;
    }
    let mut i: usize = 0;
    while i < deps.len()
        invariant
            i <= deps@.len(),
            forall|j: int| 0 <= j < i ==> !inline_dep_match(t@, #[trigger] names_view(deps@)[j]),
        decreases deps@.len() - i,
    {
        let d = to_chars(deps[i].as_str());
        assert(d@ == names_view(deps@)[i as int]);
        if inline_dep_match_exec(t, &d) {
            assert(inline_dep_match(t@, names_view(deps@)[i as int]));
            return true;
        }
        i = i + 1;
    }
    is_drop_dep_subtable_header(t, deps)
}

// ---------------------------------------------------------------------------
// Crate manifests
// ---------------------------------------------------------------------------

/// Whether a text parses as a TOML document (as the `toml` crate reads it).
pub open spec fn toml_document_valid(text: Seq<char>) -> bool {
    crate::toml_value::toml_parse(text) is Some
}

/// Whether `text` parses as a TOML document.
fn toml_parses(text: &str) -> (r: bool)
    ensures
        r == toml_document_valid(text@),
{
    crate::toml_value::parse_toml(text).is_some()
}

/// Why a manifest could not be rewritten.
#[derive(Debug, Clone, Copy, PartialEq, Eq, Structural)]
pub enum ManifestError {
    /// The manifest is not a TOML document.
    Parse,
}

/// Reading one manifest line in state (inside a dropped `[[bin]]` table,
/// inside a dropped dependency sub-table): the next state and the line to
/// emit, if any.
pub open spec fn crate_line(
    st: (bool, bool),
    line: Seq<char>,
    drop_bins: bool,
    deps: Seq<Seq<char>>,
) -> ((bool, bool), Option<Seq<char>>) {
    let t = trim_start(line);
    let (in_bin, in_drop) = if starts_with(t, "["@) {
        (false, false)
    } else {
        st
    };
    let bin_header = starts_with(t, "[[bin]]"@);
    if bin_header && drop_bins {
        ((true, in_drop), None)
    } else if !bin_header && in_bin {
        ((in_bin, in_drop), None)
    } else if spec_is_drop_dep_subtable_header(t, deps) {
        ((in_bin, true), None)
    } else if in_drop {
        ((in_bin, in_drop), None)
    } else if spec_line_matches_drop_dep(t, deps) {
        ((in_bin, in_drop), None)
    } else {
        ((in_bin, in_drop), Some(spec_rewrite_manifest_line(line)))
    }
}

/// The emitted text for a line choice.
pub open spec fn emitted(o: Option<Seq<char>>) -> Seq<char> {
    match o {
        Some(x) => x + seq!['\n'],
        None => seq![],
    }
}

pub open spec fn crate_fold(ls: Seq<Seq<char>>, drop_bins: bool, deps: Seq<Seq<char>>) -> (
    (bool, bool),
    Seq<char>,
)
    decreases ls.len(),
{
    if ls.len() == 0 {
        ((false, false), seq![])
    } else {
        let (st, out) = crate_fold(ls.drop_last(), drop_bins, deps);
        let (st2, o) = crate_line(st, ls.last(), drop_bins, deps);
        (st2, out + emitted(o))
    }
}

/// The publish-workspace form of a crate manifest: `codex-` names renamed,
/// `[[bin]]` tables dropped when asked, and the dependency entries (inline
/// or sub-table) of `drop_deps` removed. Each kept line ends with a newline.
pub open spec fn spec_rewrite_crate_manifest(
    raw: Seq<char>,
    drop_bins: bool,
    deps: Seq<Seq<char>>,
) -> Result<Seq<char>, ManifestError> {
    if !toml_document_valid(raw) {
        Err(ManifestError::Parse)
    } else {
        Ok(crate_fold(lines(raw), drop_bins, deps).1)
    }
}

/// Rewrites a crate manifest for the publish workspace (see
/// [`spec_rewrite_crate_manifest`]); a manifest that is not TOML is refused.
pub fn rewrite_crate_manifest(raw: &str, drop_bins: bool, drop_deps: &[String]) -> (r: Result<
    String,
    ManifestError,
>)
    ensures
        match (r, spec_rewrite_crate_manifest(raw@, drop_bins, names_view(drop_deps@))) {
            (Ok(s), Ok(t)) => s@ == t,
            (Err(e), Err(f)) => e == f,
            _ => false,
        },
{
    if !toml_parses(raw) {
        return Err(ManifestError::Parse);
    }
    let ghost deps = names_view(drop_deps@);
    let rc = to_chars(raw);
    let ls = split_lines(&rc);
    let mut out: Vec<char> = Vec::new();
    let mut in_bin = false;
    let mut in_drop = false;
    let mut i: usize = 0;
    while i < ls.len()
        invariant
            i <= ls@.len(),
            deps == names_view(drop_deps@),
            crate_fold(views(ls@).take(i as int), drop_bins, deps) == ((in_bin, in_drop), out@),
        decreases ls@.len() - i,
    {
        let line = &ls[i];
        assert(views(ls@).take(i + 1).drop_last() =~= views(ls@).take(i as int));
        assert(views(ls@).take(i + 1).last() == line@);
        let t = trim_start_vec(line);
        if starts_lit(&t, "[") {
            in_bin = false;
            in_drop = false;
        }
        let bin_header = starts_lit(&t, "[[bin]]");
        if bin_header && drop_bins {
            in_bin = true;
        } else if !bin_header && in_bin {
        } else if is_drop_dep_subtable_header(&t, drop_deps) {
            in_drop = true;
        } else if in_drop {
        } else if line_matches_drop_dep(&t, drop_deps) {
        } else {
            let rw = rewrite_manifest_line(line);
            extend(&mut out, &rw);
            out.push('\n');
        }
        i = i + 1;
    }
    assert(views(ls@).take(ls@.len() as int) =~= views(ls@));
    Ok(from_chars(&out))
}

// ---------------------------------------------------------------------------
// Fork aliases in the publish workspace manifest
// ---------------------------------------------------------------------------

/// The dependencies that are published as forks, with the fork's package.
pub open spec fn spec_fork_aliases() -> Seq<(Seq<char>, Seq<char>)> {
    seq![
        ("ratatui"@, "lemurclaw-ratatui"@),
        ("crossterm"@, "lemurclaw-crossterm"@),
        ("tokio-tungstenite"@, "lemurclaw-tokio-tungstenite"@),
        ("tungstenite"@, "lemurclaw-tungstenite"@),
    ]
}

pub open spec fn pairs_view(v: Seq<(&str, &str)>) -> Seq<(Seq<char>, Seq<char>)> {
    v.map_values(|p: (&str, &str)| (p.0@, p.1@))
}

pub fn fork_aliases() -> (r: Vec<(&'static str, &'static str)>)
    ensures
        pairs_view(r@) == spec_fork_aliases(),
{
    let v = vec![
        ("ratatui", "lemurclaw-ratatui"),
        ("crossterm", "lemurclaw-crossterm"),
        ("tokio-tungstenite", "lemurclaw-tokio-tungstenite"),
        ("tungstenite", "lemurclaw-tungstenite"),
    ];
    assert(pairs_view(v@) =~= spec_fork_aliases());
    v
}

/// The workspace dependency line for alias `i` onwards: a bare version
/// `dep = "v"` becomes an inline table with the fork's package; an inline
/// table gets `package = "..."` added before its closing brace unless it
/// already names a package. `None` when no alias matches, or when an inline
/// table has no closing brace.
pub open spec fn fork_line_from(line: Seq<char>, aliases: Seq<(Seq<char>, Seq<char>)>, i: int) -> Option<
    Seq<char>,
>
    decreases aliases.len() - i,
{
    if i < 0 || i >= aliases.len() {
        None
    } else {
        let t = trim_start(line);
        let indent = line.take(lead_ws(line) as int);
        let key = aliases[i].0;
        let name = aliases[i].1;
        if starts_with(t, key + " = \""@) {
            let after = trim(t.skip((key + " = "@).len() as int));
            let version = trim_char(after, '"');
            Some(
                indent + key + " = { version = \""@ + version + "\", package = \""@ + name
                    + "\" }"@,
            )
        } else if starts_with(t, key + " = {"@) {
            if contains(t, "package ="@) {
                Some(line)
            } else {
                match rfind_char(t, '}') {
                    None => None,
                    Some(c) => {
                        let b0 = trim_end_char(trim_end(t.take(c)), ',');
                        let before = if ends_with(b0, "{"@) {
                            b0
                        } else {
                            b0 + ", "@
                        };
                        Some(indent + before + "package = \""@ + name + "\" }"@)
                    },
                }
            }
        } else {
            fork_line_from(line, aliases, i + 1)
        }
    }
}

fn lit_concat(a: &[char], lit: &str) -> (r: Vec<char>)
    ensures
        r@ == a@ + lit@,
{
    let mut v = slice_vec(a, 0, a.len());
    assert(a@.subrange(0, a@.len() as int) =~= a@);
    extend_lit(&mut v, lit);
    v
}

/// Rewrites one `[workspace.dependencies]` line for a fork dependency (see
/// [`fork_line_from`]).
pub fn rewrite_workspace_fork_dep_line(line: &str, aliases: &[(&str, &str)]) -> (r: Option<String>)
    ensures
        match (r, fork_line_from(line@, pairs_view(aliases@), 0)) {
            (Some(a), Some(b)) => a@ == b,
            (None, None) => true,
            _ => false,
        },
{
    let lc = to_chars(line);
    let ws = lead_ws_len(&lc);
    proof {
        lemma_lead_ws(lc@);
    }
    let t = slice_vec(&lc, ws, lc.len());
    assert(t@ =~= trim_start(line@));
    let indent = slice_vec(&lc, 0, ws);
    assert(indent@ =~= line@.take(ws as int));
    let mut i: usize = 0;
    while i < aliases.len()
        invariant
            i <= aliases@.len(),
            lc@ == line@,
            t@ == trim_start(line@),
            indent@ == line@.take(lead_ws(line@) as int),
            fork_line_from(line@, pairs_view(aliases@), 0) == fork_line_from(
                line@,
                pairs_view(aliases@),
                i as int,
            ),
        decreases aliases@.len() - i,
    {
        let (dep_key, fork_name) = aliases[i];
        let key = to_chars(dep_key);
        let name = to_chars(fork_name);
        assert(pairs_view(aliases@)[i as int] == (key@, name@));
        let bare_prefix = lit_concat(&key, " = \"");
        let inline_prefix = lit_concat(&key, " = {");
        if crate::text::has_prefix(&t, &bare_prefix) {
            let eq_prefix = lit_concat(&key, " = ");
            proof {
                reveal_strlit(" = \"");
                reveal_strlit(" = ");
                assert(eq_prefix@.len() < bare_prefix@.len());
            }
            let after = trim_vec(&slice_vec(&t, eq_prefix.len(), t.len()));
            assert(t@.subrange(eq_prefix@.len() as int, t@.len() as int) =~= t@.skip(
                eq_prefix@.len() as int,
            ));
            let version = trim_char_vec(&after, '"');
            let mut out = concat(&indent, &key);
            extend_lit(&mut out, " = { version = \"");
            extend(&mut out, &version);
            extend_lit(&mut out, "\", package = \"");
            extend(&mut out, &name);
            extend_lit(&mut out, "\" }");
            return Some(from_chars(&out));
        }
        if crate::text::has_prefix(&t, &inline_prefix) {
            if contains_seq(&t, &to_chars("package =")) {
                return Some(from_chars(&lc));
            }
            match rfind_ch(&t, '}') {
                None => {
                    return None;
                },
                Some(c) => {
                    proof {
                        lemma_rfind_char_before(t@, '}', t@.len() as int);
                    }
                    let head = slice_vec(&t, 0, c);
                    assert(head@ =~= t@.take(c as int));
                    let b0 = trim_end_char_vec(&trim_end_vec(&head), ',');
                    let before = if has_suffix(&b0, &to_chars("{")) {
                        b0
                    } else {
                        lit_concat(&b0, ", ")
                    };
                    let mut out = concat(&indent, &before);
                    extend_lit(&mut out, "package = \"");
                    extend(&mut out, &name);
                    extend_lit(&mut out, "\" }");
                    return Some(from_chars(&out));
                },
            }
        }
        i = i + 1;
    }
    None
}

/// One line of the publish workspace manifest in state (inside a
/// `[patch.*]` table, inside `[workspace.dependencies]`).
pub open spec fn forks_line(st: (bool, bool), line: Seq<char>) -> ((bool, bool), Option<Seq<char>>) {
    let t = trim_start(line);
    if is_header(t) {
        let ip = starts_with(t, "[patch."@);
        let iw = t == "[workspace.dependencies]"@;
        if ip {
            ((ip, iw), None)
        } else {
            ((ip, iw), Some(line))
        }
    } else if st.0 {
        (st, None)
    } else if st.1 && fork_line_from(line, spec_fork_aliases(), 0) is Some {
        (st, fork_line_from(line, spec_fork_aliases(), 0))
    } else {
        (st, Some(line))
    }
}

pub open spec fn forks_fold(ls: Seq<Seq<char>>) -> ((bool, bool), Seq<char>)
    decreases ls.len(),
{
    if ls.len() == 0 {
        ((false, false), seq![])
    } else {
        let (st, out) = forks_fold(ls.drop_last());
        let (st2, o) = forks_line(st, ls.last());
        (st2, out + emitted(o))
    }
}

/// The publish workspace manifest rewired for the forks: every line through
/// [`forks_line`].
pub open spec fn spec_rewire_forks(raw: Seq<char>) -> Seq<char> {
    forks_fold(lines(raw)).1
}

/// Drops every `[patch.*]` table and gives the fork dependencies of
/// `[workspace.dependencies]` their `package = "lemurclaw-..."` alias; every
/// kept line ends with a newline.
pub fn rewrite_publish_workspace_for_forks(raw: &str) -> (r: Result<String, ManifestError>)
    ensures
        r matches Ok(s) && s@ == spec_rewire_forks(raw@),
{
    let aliases = fork_aliases();
    let rc = to_chars(raw);
    let ls = split_lines(&rc);
    let mut out: Vec<char> = Vec::new();
    let mut in_patch = false;
    let mut in_ws = false;
    let mut i: usize = 0;
    while i < ls.len()
        invariant
            i <= ls@.len(),
            pairs_view(aliases@) == spec_fork_aliases(),
            forks_fold(views(ls@).take(i as int)) == ((in_patch, in_ws), out@),
        decreases ls@.len() - i,
    {
        let line = &ls[i];
        assert(views(ls@).take(i + 1).drop_last() =~= views(ls@).take(i as int));
        assert(views(ls@).take(i + 1).last() == line@);
        let t = trim_start_vec(line);
        if is_header_exec(&t) {
            in_patch = starts_lit(&t, "[patch.");
            in_ws = eq_lit(&t, "[workspace.dependencies]");
            if !in_patch {
                extend(&mut out, line);
                out.push('\n');
            }
        } else if in_patch {
        } else {
            let ls_str = from_chars(line);
            let rewritten = if in_ws {
                rewrite_workspace_fork_dep_line(ls_str.as_str(), &aliases)
            } else {
                None
            };
            match rewritten {
                Some(rw) => {
                    extend(&mut out, &to_chars(rw.as_str()));
                },
                None => {
                    extend(&mut out, line);
                },
            }
            out.push('\n');
        }
        i = i + 1;
    }
    assert(views(ls@).take(ls@.len() as int) =~= views(ls@));
    Ok(from_chars(&out))
}

// ---------------------------------------------------------------------------
// Rewiring the publish workspace twice
// ---------------------------------------------------------------------------

/// A key of the fork alias table: free of newlines and closing braces, and
/// starting with a character that is neither whitespace nor `[`.
pub open spec fn alias_key_ok(key: Seq<char>) -> bool {
    &&& key.len() >= 2
    &&& crate::text::no_newline(key)
    &&& !crate::text::is_ws(key[0])
    &&& key[0] != '['
    &&& forall|j: int| 0 <= j < key.len() ==> key[j] != '}'
}

/// Two keys differ in one of their first two characters.
pub open spec fn keys_differ_early(a: Seq<char>, b: Seq<char>) -> bool {
    a[0] != b[0] || a[1] != b[1]
}

proof fn lemma_alias_table()
    ensures
        spec_fork_aliases().len() == 4,
        forall|i: int|
            0 <= i < 4 ==> #[trigger] alias_key_ok(spec_fork_aliases()[i].0) && crate::text::no_newline(
                spec_fork_aliases()[i].1,
            ),
        forall|i: int, k: int|
            0 <= i < 4 && 0 <= k < 4 && i != k ==> #[trigger] keys_differ_early(
                spec_fork_aliases()[i].0,
                spec_fork_aliases()[k].0,
            ),
{
    reveal_strlit("ratatui");
    reveal_strlit("lemurclaw-ratatui");
    reveal_strlit("crossterm");
    reveal_strlit("lemurclaw-crossterm");
    reveal_strlit("tokio-tungstenite");
    reveal_strlit("lemurclaw-tokio-tungstenite");
    reveal_strlit("tungstenite");
    reveal_strlit("lemurclaw-tungstenite");
    let a = spec_fork_aliases();
    assert forall|i: int| 0 <= i < 4 implies #[trigger] alias_key_ok(a[i].0) && crate::text::no_newline(a[i].1) by {
        if i == 0 {
        } else if i == 1 {
        } else if i == 2 {
        } else {
        }
    }
}

/// A workspace line whose text starts with the inline table of alias `k`
/// and already names a package is kept as it is.
proof fn lemma_fork_line_from_named(y: Seq<char>, k: int, i: int)
    requires
        0 <= i <= k < 4,
        starts_with(trim_start(y), spec_fork_aliases()[k].0 + " = {"@),
        contains(trim_start(y), "package ="@),
    ensures
        fork_line_from(y, spec_fork_aliases(), i) == Some(y),
    decreases k - i,
{
    lemma_alias_table();
    reveal_strlit(" = {");
    reveal_strlit(" = \"");
    let a = spec_fork_aliases();
    let t = trim_start(y);
    let kk = a[k].0;
    assert(alias_key_ok(kk));
    if i < k {
        let ki = a[i].0;
        assert(alias_key_ok(ki));
        assert(keys_differ_early(ki, kk));
        if starts_with(t, ki + " = \""@) {
            crate::text::lemma_prefix_agree(t, ki + " = \""@, kk + " = {"@, 0);
            crate::text::lemma_prefix_agree(t, ki + " = \""@, kk + " = {"@, 1);
            assert(false);
        }
        if starts_with(t, ki + " = {"@) {
            crate::text::lemma_prefix_agree(t, ki + " = {"@, kk + " = {"@, 0);
            crate::text::lemma_prefix_agree(t, ki + " = {"@, kk + " = {"@, 1);
            assert(false);
        }
        lemma_fork_line_from_named(y, k, i + 1);
    } else {
        if starts_with(t, kk + " = \""@) {
            crate::text::lemma_prefix_agree(t, kk + " = \""@, kk + " = {"@, kk.len() + 3int);
            assert((kk + " = \""@)[kk.len() + 3int] == " = \""@[3]);
            assert((kk + " = {"@)[kk.len() + 3int] == " = {"@[3]);
            assert(false);
        }
    }
}

/// A rewritten workspace line is the inline table of some alias `k` that
/// names its package; it is no header, and it is a plain line when the
/// line it came from was one.
proof fn lemma_fork_line_from_result(line: Seq<char>, i: int) -> (k: int)
    requires
        0 <= i,
        fork_line_from(line, spec_fork_aliases(), i) is Some,
    ensures
        i <= k < 4,
        starts_with(
            trim_start(fork_line_from(line, spec_fork_aliases(), i)->Some_0),
            spec_fork_aliases()[k].0 + " = {"@,
        ),
        contains(trim_start(fork_line_from(line, spec_fork_aliases(), i)->Some_0), "package ="@),
        !is_header(trim_start(fork_line_from(line, spec_fork_aliases(), i)->Some_0)),
        crate::text::plain_line(line) ==> crate::text::plain_line(
            fork_line_from(line, spec_fork_aliases(), i)->Some_0,
        ),
    decreases 4 - i,
{
    lemma_alias_table();
    reveal_strlit(" = {");
    reveal_strlit(" = \"");
    reveal_strlit(" = ");
    reveal_strlit(" = { version = \"");
    reveal_strlit("\", package = \"");
    reveal_strlit("package = \"");
    reveal_strlit("package =");
    reveal_strlit("\" }");
    reveal_strlit("[");
    reveal_strlit("{");
    reveal_strlit(", ");
    let a = spec_fork_aliases();
    let x = fork_line_from(line, a, i)->Some_0;
    let t = trim_start(line);
    lemma_lead_ws(line);
    let lw = lead_ws(line) as int;
    let indent = line.take(lw);
    let key = a[i].0;
    let name = a[i].1;
    assert(alias_key_ok(key));
    assert(crate::text::no_newline(name));
    let plain = crate::text::plain_line(line);
    if plain {
        assert(crate::text::no_newline(line));
        crate::text::lemma_no_newline_sub(line, 0, lw);
        crate::text::lemma_no_newline_trims(line, '"');
    }
    if starts_with(t, key + " = \""@) {
        let after = trim(t.skip((key + " = "@).len() as int));
        let version = trim_char(after, '"');
        let rest = key + " = { version = \""@ + version + "\", package = \""@ + name + "\" }"@;
        assert(x =~= indent + rest);
        assert(rest[0] == key[0]);
        crate::text::lemma_lead_ws_concat(indent, rest);
        assert(rest.subrange(0, key.len() + 4int) =~= key + " = {"@);
        let pos = (key + " = { version = \""@ + version).len() + 3int;
        assert(rest.subrange(pos, pos + 9) =~= "package ="@);
        crate::text::lemma_contains_at(rest, pos, "package ="@);
        if starts_with(rest, "["@) {
            assert(rest.subrange(0, 1)[0] == rest[0]);
        }
        if plain {
            crate::text::lemma_no_newline_sub(t, (key + " = "@).len() as int, t.len() as int);
            crate::text::lemma_no_newline_trims(t.skip((key + " = "@).len() as int), '"');
            crate::text::lemma_no_newline_trims(after, '"');
            crate::text::lemma_no_newline_add(indent, key);
            crate::text::lemma_no_newline_add(indent + key, " = { version = \""@);
            crate::text::lemma_no_newline_add(indent + key + " = { version = \""@, version);
            crate::text::lemma_no_newline_add(indent + key + " = { version = \""@ + version, "\", package = \""@);
            crate::text::lemma_no_newline_add(
                indent + key + " = { version = \""@ + version + "\", package = \""@,
                name,
            );
            crate::text::lemma_no_newline_add(
                indent + key + " = { version = \""@ + version + "\", package = \""@ + name,
                "\" }"@,
            );
            assert(x.last() == '}');
        }
        i
    } else if starts_with(t, key + " = {"@) {
        if contains(t, "package ="@) {
            assert(x == line);
            if starts_with(t, "["@) {
                crate::text::lemma_prefix_agree(t, "["@, key + " = {"@, 0);
            }
            i
        } else {
            let c = rfind_char(t, '}')->Some_0;
            lemma_rfind_char_before(t, '}', t.len() as int);
            let p = key + " = {"@;
            if c < key.len() + 4 {
                assert(t.subrange(0, p.len() as int)[c] == t[c]);
                assert(p[c] != '}');
                assert(false);
            }
            let tc = t.take(c);
            assert(tc.subrange(0, p.len() as int) =~= t.subrange(0, p.len() as int));
            assert(p.last() == '{');
            crate::text::lemma_trim_keeps_prefix(tc, p);
            let b0 = trim_end_char(trim_end(tc), ',');
            let before = if ends_with(b0, "{"@) {
                b0
            } else {
                b0 + ", "@
            };
            assert(before.subrange(0, p.len() as int) =~= b0.subrange(0, p.len() as int));
            let rest = before + "package = \""@ + name + "\" }"@;
            assert(x =~= indent + rest);
            assert(rest[0] == before[0]);
            assert(before[0] == p[0]);
            crate::text::lemma_lead_ws_concat(indent, rest);
            assert(rest.subrange(0, p.len() as int) =~= p);
            let pos = before.len() as int;
            assert(rest.subrange(pos, pos + 9) =~= "package ="@);
            crate::text::lemma_contains_at(rest, pos, "package ="@);
            if starts_with(rest, "["@) {
                assert(rest.subrange(0, 1)[0] == rest[0]);
            }
            if plain {
                crate::text::lemma_no_newline_sub(t, 0, c);
                crate::text::lemma_no_newline_sub(tc, 0, b0.len() as int);
                assert(b0 =~= tc.subrange(0, b0.len() as int));
                crate::text::lemma_no_newline_add(b0, ", "@);
                crate::text::lemma_no_newline_add(indent, before);
                crate::text::lemma_no_newline_add(indent + before, "package = \""@);
                crate::text::lemma_no_newline_add(indent + before + "package = \""@, name);
                crate::text::lemma_no_newline_add(indent + before + "package = \""@ + name, "\" }"@);
                assert(x.last() == '}');
            }
            i
        }
    } else {
        lemma_fork_line_from_result(line, i + 1)
    }
}

/// The lines that the fork rewrite of the publish workspace writes, in
/// order.
pub open spec fn forks_kept(ls: Seq<Seq<char>>) -> Seq<Seq<char>>
    decreases ls.len(),
{
    if ls.len() == 0 {
        seq![]
    } else {
        match forks_line(forks_fold(ls.drop_last()).0, ls.last()).1 {
            Some(x) => forks_kept(ls.drop_last()).push(x),
            None => forks_kept(ls.drop_last()),
        }
    }
}

/// The rewrite writes its kept lines, each followed by a newline; they are
/// plain when the lines read were.
proof fn lemma_forks_kept(ls: Seq<Seq<char>>)
    ensures
        forks_fold(ls).1 == crate::text::unlines(forks_kept(ls)),
        (forall|k: int| 0 <= k < ls.len() ==> #[trigger] crate::text::plain_line(ls[k])) ==> forall|
            k: int,
        |
            0 <= k < forks_kept(ls).len() ==> #[trigger] crate::text::plain_line(forks_kept(ls)[k]),
    decreases ls.len(),
{
    if ls.len() > 0 {
        let prev = ls.drop_last();
        lemma_forks_kept(prev);
        let kp = forks_kept(prev);
        let st = forks_fold(prev).0;
        let l = ls.last();
        if forall|k: int| 0 <= k < ls.len() ==> #[trigger] crate::text::plain_line(ls[k]) {
            assert forall|k: int| 0 <= k < prev.len() implies #[trigger] crate::text::plain_line(prev[k]) by {
                assert(prev[k] == ls[k]);
            }
            assert(crate::text::plain_line(ls[ls.len() - 1]));
        }
        match forks_line(st, l).1 {
            Some(x) => {
                assert(kp.push(x).drop_last() =~= kp);
                assert(forks_fold(prev).1 + (x + seq!['\n']) =~= forks_fold(prev).1 + x + seq!['\n']);
                if !is_header(trim_start(l)) && !st.0 && st.1 && fork_line_from(l, spec_fork_aliases(), 0) is Some {
                    lemma_fork_line_from_result(l, 0);
                }
                if forall|k: int| 0 <= k < ls.len() ==> #[trigger] crate::text::plain_line(ls[k]) {
                    assert forall|k: int| 0 <= k < kp.push(x).len() implies #[trigger] crate::text::plain_line(kp.push(x)[k]) by {
                        if k < kp.len() {
                            assert(kp.push(x)[k] == kp[k]);
                        }
                    }
                }
            },
            None => {},
        }
    }
}

/// The second pass over the kept lines: it never stands in a `[patch.*]`
/// table, stands where the first pass stood whenever that one was outside
/// such a table, and writes the kept lines back.
proof fn lemma_forks_second_pass(ls: Seq<Seq<char>>)
    ensures
        !forks_fold(forks_kept(ls)).0.0,
        !forks_fold(ls).0.0 ==> forks_fold(forks_kept(ls)).0 == forks_fold(ls).0,
        forks_fold(forks_kept(ls)).1 == crate::text::unlines(forks_kept(ls)),
    decreases ls.len(),
{
    if ls.len() > 0 {
        let prev = ls.drop_last();
        lemma_forks_second_pass(prev);
        let kp = forks_kept(prev);
        let st = forks_fold(prev).0;
        let st2 = forks_fold(kp).0;
        let l = ls.last();
        match forks_line(st, l).1 {
            Some(x) => {
                let kx = kp.push(x);
                assert(kx.drop_last() =~= kp);
                assert(kx.last() == x);
                assert(forks_fold(kp).1 + (x + seq!['\n']) =~= forks_fold(kp).1 + x + seq!['\n']);
                if is_header(trim_start(l)) {
                } else {
                    assert(!st.0);
                    if st.1 && fork_line_from(l, spec_fork_aliases(), 0) is Some {
                        let k = lemma_fork_line_from_result(l, 0);
                        lemma_fork_line_from_named(x, k, 0);
                    }
                }
            },
            None => {},
        }
    }
}

/// Rewiring the publish workspace for the forks a second time changes
/// nothing: the `[patch.*]` tables are gone already, and every fork
/// dependency of `[workspace.dependencies]` already names its package.
/// (A line that `str::lines` leaves ending in a carriage return is left
/// out: the second pass would drop that character.)
pub proof fn lemma_rewire_forks_idempotent(raw: Seq<char>)
    requires
        forall|k: int| 0 <= k < lines(raw).len() ==> #[trigger] crate::text::plain_line(lines(raw)[k]),
    ensures
        spec_rewire_forks(spec_rewire_forks(raw)) == spec_rewire_forks(raw),
{
    let ls = lines(raw);
    lemma_forks_kept(ls);
    lemma_forks_second_pass(ls);
    crate::text::lemma_lines_unlines(forks_kept(ls));
}

} // verus!
