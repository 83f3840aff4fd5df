//! Source and manifest text rewrites made when sub-crates are merged into
//! one crate: crate paths become module paths, `crate::` self-references
//! get their module, member dependencies collapse into the merged package,
//! and a few fixed repairs.

use vstd::prelude::*;
use crate::brand::{replace_word_boundary, word_replace};
use crate::cluster::{members_view, Cluster};
use crate::manifest::names_view;
use crate::source_rewrite::{ident_len, ident_len_exec, lemma_ident_len, list_contains};
use crate::text::{
    contains, contains_seq, extend, extend_lit, find, find_seq, from_chars, ident_char, is_ident_char,
    lead_ws, lead_ws_len, lemma_find_from, lemma_lead_ws, lines, match_at, matches_at, replace_all,
    replace_vec, seq_eq, slice_vec, split_lines, starts_lit, starts_with, to_chars, trim,
    trim_start, trim_start_vec, trim_vec, views,
};

verus! {

// ---------------------------------------------------------------------------
// Whole-identifier replacement
// ---------------------------------------------------------------------------

/// A whole-word replacement makes at most one replacement per character.
pub proof fn lemma_word_replace_count(s: Seq<char>, needle: Seq<char>, repl: Seq<char>, i: int)
    requires
        0 <= i,
    ensures
        word_replace(s, needle, repl, i).1 <= if i <= s.len() { s.len() - i } else { 0 },
    decreases s.len() - i,
{
    if i < 0 || i >= s.len() || needle.len() == 0 {
    } else if crate::brand::whole_word_at(s, i, needle) {
        lemma_word_replace_count(s, needle, repl, i + needle.len());
    } else {
        lemma_word_replace_count(s, needle, repl, i + 1);
    }
}

/// Replaces `needle` wherever it stands as a whole identifier: not preceded
/// or followed by an ASCII letter, digit or `_` (see [`word_replace`]).
pub fn replace_ident_whole(haystack: &str, needle: &str, replacement: &str) -> (r: String)
    ensures
        r@ == word_replace(haystack@, needle@, replacement@, 0).0,
{
    let h = to_chars(haystack);
    let n = to_chars(needle);
    let rp = to_chars(replacement);
    let mut count: usize = 0;
    proof {
        lemma_word_replace_count(h@, n@, rp@, 0);
        assert(word_replace(h@, n@, rp@, 0).1 <= h@.len());
        assert(h@.len() == h.len());
    }
    let out = replace_word_boundary(&h, &n, &rp, &mut count);
    from_chars(&out)
}

/// How a merged member is referred to: from inside the merged crate
/// (`crate`) or from a downstream crate (the merged library's name).
#[derive(Debug, Clone, Copy, PartialEq, Eq, Structural)]
pub enum RewriteScope {
    IntraCrate,
    Downstream,
}

pub open spec fn scope_prefix(scope: RewriteScope, lib_ident: Seq<char>) -> Seq<char> {
    match scope {
        RewriteScope::IntraCrate => "crate"@,
        RewriteScope::Downstream => lib_ident,
    }
}

impl RewriteScope {
    /// See [`scope_prefix`].
    pub fn prefix(self, cluster: &Cluster) -> (r: String)
        ensures
            r@ == scope_prefix(self, cluster.merged_lib_ident@),
    {
        match self {
            RewriteScope::IntraCrate => "crate".to_owned(),
            RewriteScope::Downstream => cluster.merged_lib_ident.to_owned(),
        }
    }
}

/// Each member's crate identifier (its package with `-` written `_`)
/// replaced, as a whole identifier, by `prefix::module`, member by member.
pub open spec fn spec_rewrite_rs(src: Seq<char>, prefix: Seq<char>, members: Seq<(Seq<char>, Seq<char>, Seq<char>)>) -> Seq<char>
    decreases members.len(),
{
    if members.len() == 0 {
        src
    } else {
        let m = members.last();
        word_replace(
            spec_rewrite_rs(src, prefix, members.drop_last()),
            replace_all(m.1, "-"@, "_"@),
            prefix + "::"@ + m.2,
            0,
        ).0
    }
}

/// Rewrites references to the cluster's member crates into paths of the
/// merged crate (see [`spec_rewrite_rs`]).
pub fn rewrite_rs(src: &str, scope: RewriteScope, cluster: &Cluster) -> (r: String)
    ensures
        r@ == spec_rewrite_rs(src@, scope_prefix(scope, cluster.merged_lib_ident@), members_view(cluster.members@)),
{
    let prefix = scope.prefix(cluster);
    let ghost mv = members_view(cluster.members@);
    let mut out = src.to_owned();
    let mut i: usize = 0;
    proof {
        reveal_strlit("-");
    }
    assert(mv.take(0) =~= Seq::<(Seq<char>, Seq<char>, Seq<char>)>::empty());
    while i < cluster.members.len()
        invariant
            i <= cluster.members@.len(),
            mv == members_view(cluster.members@),
            prefix@ == scope_prefix(scope, cluster.merged_lib_ident@),
            out@ == spec_rewrite_rs(src@, prefix@, mv.take(i as int)),
        decreases cluster.members@.len() - i,
    {
        let sc = &cluster.members[i];
        proof {
            reveal_strlit("-");
        }
        let ident = from_chars(&replace_vec(&to_chars(sc.package.as_str()), &to_chars("-"), &to_chars("_")));
        let mut rep = to_chars(prefix.as_str());
        extend_lit(&mut rep, "::");
        extend(&mut rep, &to_chars(sc.module.as_str()));
        let repl = from_chars(&rep);
        out = replace_ident_whole(out.as_str(), ident.as_str(), repl.as_str());
        assert(mv.take(i + 1).drop_last() =~= mv.take(i as int));
        assert(mv.take(i + 1).last() == crate::cluster::sub_view(*sc));
        i = i + 1;
    }
    assert(mv.take(cluster.members@.len() as int) =~= mv);
    out
}


// ---------------------------------------------------------------------------
// `crate::` self-references
// ---------------------------------------------------------------------------

/// End of the identifier segment after a `crate::` at `i`.
pub open spec fn seg_end(s: Seq<char>, i: int) -> int {
    i + 7 + ident_len(s.skip(i + 7))
}

/// A `crate::X` at `i` is a self-reference of the module: `crate::` not
/// inside a longer identifier, followed by a segment `X` that is a local
/// module, or not a known module, or the module itself, and is not the
/// root macro `feedback_tags`.
pub open spec fn self_ref_at(
    s: Seq<char>,
    i: int,
    module: Seq<char>,
    modules: Seq<Seq<char>>,
    locals: Seq<Seq<char>>,
) -> bool {
    &&& matches_at(s, i, "crate::"@)
    &&& (i == 0 || !is_ident_char(s[i - 1]))
    &&& seg_end(s, i) > i + 7
    &&& {
        let seg = s.subrange(i + 7, seg_end(s, i));
        (locals.contains(seg) || !modules.contains(seg) || seg == module) && seg != "feedback_tags"@
    }
}

/// The text from `i` on with each self-reference `crate::X` written
/// `crate::module::X`.
pub open spec fn self_refs(
    s: Seq<char>,
    module: Seq<char>,
    modules: Seq<Seq<char>>,
    locals: Seq<Seq<char>>,
    i: int,
) -> Seq<char>
    decreases s.len() - i,
{
    if i < 0 || i >= s.len() {
        seq![]
    } else if self_ref_at(s, i, module, modules, locals) {
        proof {
            reveal_strlit("crate::");
            lemma_ident_len(s.skip(i + 7));
        }
        "crate::"@ + module + "::"@ + s.subrange(i + 7, seg_end(s, i)) + self_refs(
            s,
            module,
            modules,
            locals,
            seg_end(s, i),
        )
    } else {
        seq![s[i]] + self_refs(s, module, modules, locals, i + 1)
    }
}

/// Rewrites the self-references of a merged member's source (see
/// [`self_refs`]); `modules` are the merged crate's module names and
/// `local_mods` the member's own submodules.
pub fn fix_self_refs_in_src(src: &str, module: &str, modules: &[String], local_mods: &[String]) -> (r: String)
    ensures
        r@ == self_refs(src@, module@, names_view(modules@), names_view(local_mods@), 0),
{
    let ghost ms = names_view(modules@);
    let ghost ls = names_view(local_mods@);
    let s = to_chars(src);
    let needle = to_chars("crate::");
    proof {
        reveal_strlit("crate::");
        reveal_strlit("feedback_tags");
    }
    let mut out: Vec<char> = Vec::new();
    let mut i: usize = 0;
    assert(out@ + self_refs(s@, module@, ms, ls, 0) =~= self_refs(s@, module@, ms, ls, 0));
    while i < s.len()
        invariant
            i <= s@.len(),
            s@ == src@,
            needle@ == "crate::"@,
            ms == names_view(modules@),
            ls == names_view(local_mods@),
            out@ + self_refs(s@, module@, ms, ls, i as int) == self_refs(s@, module@, ms, ls, 0),
        decreases s@.len() - i,
    {
        let ghost prev = out@;
        proof {
            reveal_strlit("crate::");
            reveal_strlit("feedback_tags");
        }
        if match_at(&s, i, &needle) && (i == 0 || !ident_char(s[i - 1])) {
            let e = ident_len_exec(&s, i + 7);
            assert(e == seg_end(s@, i as int));
            if e > i + 7 {
                let seg = slice_vec(&s, i + 7, e);
                let is_local = list_contains(local_mods, &seg);
                let is_module = list_contains(modules, &seg);
                let is_self = (is_local || !is_module || crate::text::eq_lit(&seg, module))
                    && !crate::text::eq_lit(&seg, "feedback_tags");
                if is_self {
                    extend_lit(&mut out, "crate::");
                    extend_lit(&mut out, module);
                    extend_lit(&mut out, "::");
                    extend(&mut out, &seg);
                    assert(out@ =~= prev + ("crate::"@ + module@ + "::"@ + s@.subrange(i + 7, e as int)));
                    i = e;
                    continue;
                }
            }
        }
        out.push(s[i]);
        assert(out@ =~= prev + seq![s@[i as int]]);
        i = i + 1;
    }
    assert(out@ + Seq::<char>::empty() =~= out@);
    from_chars(&out)
}


// ---------------------------------------------------------------------------
// Definitions in a source file
// ---------------------------------------------------------------------------

/// A name for what `char::is_alphanumeric` says of a character (Unicode's
/// alphabetic or numeric property).
pub uninterp spec fn unicode_alphanumeric(c: char) -> bool;

/// Calls `char::is_alphanumeric`; claims only that the answer is
/// [`unicode_alphanumeric`] of the character.
#[verifier::external_body]
fn is_alphanumeric(c: char) -> (r: bool)
    ensures
        r == unicode_alphanumeric(c),
{
    c.is_alphanumeric()
}

/// The module a line declares (`mod x;`, `pub mod x;`, `pub(crate) mod x;`
/// or `mod x {`): the name before the first `;`, trimmed, without a
/// trailing ` {`, when it is non-empty and every character of it is
/// alphanumeric or `_`.
pub open spec fn local_mod_of_line(line: Seq<char>) -> Option<Seq<char>> {
    let t = trim_start(line);
    let av = if starts_with(t, "pub(crate) "@) {
        t.skip(11)
    } else if starts_with(t, "pub "@) {
        t.skip(4)
    } else {
        t
    };
    if starts_with(av, "mod "@) {
        let rest = av.skip(4);
        let head = match crate::text::find_char(rest, ';') {
            Some(i) => rest.take(i),
            None => rest,
        };
        let name = trim_end_str(trim(head), " {"@);
        if mod_name_ok(name) {
            Some(name)
        } else {
            None
        }
    } else {
        None
    }
}

/// A module name: non-empty, each character alphanumeric or `_`.
pub open spec fn mod_name_ok(name: Seq<char>) -> bool {
    name.len() > 0 && forall|i: int| 0 <= i < name.len() ==> unicode_alphanumeric(#[trigger] name[i]) || name[i] == '_'
}

/// The modules the lines declare, in order.
pub open spec fn spec_local_mods(ls: Seq<Seq<char>>) -> Seq<Seq<char>>
    decreases ls.len(),
{
    if ls.len() == 0 {
        seq![]
    } else {
        let r = spec_local_mods(ls.drop_last());
        match local_mod_of_line(ls.last()) {
            Some(n) => r.push(n),
            None => r,
        }
    }
}

fn local_mod_of_line_exec(line: &[char]) -> (r: Option<Vec<char>>)
    ensures
        match r {
            Some(n) => local_mod_of_line(line@) == Some(n@),
            None => local_mod_of_line(line@) is None,
        },
{
    proof {
        reveal_strlit("pub(crate) ");
        reveal_strlit("pub ");
        reveal_strlit("mod ");
    }
    let t = trim_start_vec(line);
    let av = if starts_lit(&t, "pub(crate) ") {
        let v = slice_vec(&t, 11, t.len());
        assert(v@ =~= t@.skip(11));
        v
    } else if starts_lit(&t, "pub ") {
        let v = slice_vec(&t, 4, t.len());
        assert(v@ =~= t@.skip(4));
        v
    } else {
        t
    };
    if !starts_lit(&av, "mod ") {
        return None;
    }
    let rest = slice_vec(&av, 4, av.len());
    assert(rest@ =~= av@.skip(4));
    let head = match crate::text::find_ch(&rest, ';') {
        Some(i) => {
            proof {
                lemma_find_from(rest@, seq![';'], 0);
            }
            let h = slice_vec(&rest, 0, i);
            assert(h@ =~= rest@.take(i as int));
            h
        },
        None => rest,
    };
    let name = trim_end_str_exec(&trim_vec(&head), &to_chars(" {"));
    if name.len() == 0 {
        return None;
    }
    let mut i: usize = 0;
    let mut ok = true;
    while i < name.len()
        invariant
            i <= name@.len(),
            ok ==> forall|j: int| 0 <= j < i ==> unicode_alphanumeric(#[trigger] name@[j]) || name@[j] == '_',
            !ok ==> !mod_name_ok(name@),
        decreases name@.len() - i,
    {
        if !(is_alphanumeric(name[i]) || name[i] == '_') {
            ok = false;
        }
        i = i + 1;
    }
    if ok {
        Some(name)
    } else {
        None
    }
}

/// The modules a `mod.rs` declares (see [`local_mod_of_line`]), in line
/// order: the names its `crate::` references are resolved against.
pub fn collect_local_mods_text(mod_rs: &str) -> (r: Vec<String>)
    ensures
        names_view(r@) == spec_local_mods(lines(mod_rs@)),
{
    let ls = split_lines(&to_chars(mod_rs));
    let ghost lv = views(ls@);
    let mut out: Vec<String> = Vec::new();
    let mut i: usize = 0;
    assert(lv.take(0) =~= Seq::<Seq<char>>::empty());
    assert(names_view(out@) =~= Seq::<Seq<char>>::empty());
    while i < ls.len()
        invariant
            i <= ls@.len(),
            lv == views(ls@),
            lv == lines(mod_rs@),
            names_view(out@) == spec_local_mods(lv.take(i as int)),
        decreases ls@.len() - i,
    {
        assert(lv.take(i + 1).drop_last() =~= lv.take(i as int));
        assert(lv.take(i + 1).last() == ls@[i as int]@);
        match local_mod_of_line_exec(&ls[i]) {
            Some(n) => {
                let ghost before = names_view(out@);
                out.push(from_chars(&n));
                assert(names_view(out@) =~= before.push(n@));
            },
            None => {},
        }
        i = i + 1;
    }
    assert(lv.take(ls@.len() as int) =~= lv);
    out
}

/// The keywords a definition line starts with.
pub open spec fn def_keywords() -> Seq<Seq<char>> {
    seq![
        "pub struct "@,
        "pub(crate) struct "@,
        "pub enum "@,
        "pub(crate) enum "@,
        "pub fn "@,
        "pub(crate) fn "@,
        "pub type "@,
        "pub(crate) type "@,
        "pub trait "@,
        "pub(crate) trait "@,
        "pub const "@,
        "pub(crate) const "@,
        "pub static "@,
        "pub(crate) static "@,
        "pub mod "@,
        "pub(crate) mod "@,
        "mod "@,
    ]
}

fn def_keywords_exec() -> (r: Vec<&'static str>)
    ensures
        r@.map_values(|s: &str| s@) == def_keywords(),
{
    let v = vec![
        "pub struct ",
        "pub(crate) struct ",
        "pub enum ",
        "pub(crate) enum ",
        "pub fn ",
        "pub(crate) fn ",
        "pub type ",
        "pub(crate) type ",
        "pub trait ",
        "pub(crate) trait ",
        "pub const ",
        "pub(crate) const ",
        "pub static ",
        "pub(crate) static ",
        "pub mod ",
        "pub(crate) mod ",
        "mod ",
    ];
    assert(v@.map_values(|s: &str| s@) =~= def_keywords());
    v
}

/// `t` defines `item` after the keyword `kw`: the item's name follows the
/// keyword and is followed by a character that is not alphanumeric or `_`.
pub open spec fn defines_after(t: Seq<char>, kw: Seq<char>, item: Seq<char>) -> bool {
    let at = kw.len() + item.len();
    &&& starts_with(t, kw)
    &&& starts_with(t.skip(kw.len() as int), item)
    &&& at < t.len()
    &&& !(unicode_alphanumeric(t[at as int]) || t[at as int] == '_')
}

/// What follows `pub use ` or `pub(crate) use ` on a line.
pub open spec fn after_pub_use(t: Seq<char>) -> Option<Seq<char>> {
    if starts_with(t, "pub use "@) {
        Some(t.skip(8))
    } else if starts_with(t, "pub(crate) use "@) {
        Some(t.skip(15))
    } else {
        None
    }
}

/// A line defines or re-exports `item` (a `pub use item...` not followed
/// by `:`).
pub open spec fn line_defines(line: Seq<char>, item: Seq<char>) -> bool {
    let t = trim_start(line);
    ||| exists|k: int| 0 <= k < def_keywords().len() && #[trigger] defines_after(t, def_keywords()[k], item)
    ||| (after_pub_use(t) matches Some(a) && starts_with(a, item) && !starts_with(a.skip(item.len() as int), ":"@))
}

/// Some line of the text defines `item` (see [`line_defines`]).
pub open spec fn spec_check_defs(raw: Seq<char>, item: Seq<char>) -> bool {
    exists|k: int| 0 <= k < lines(raw).len() && #[trigger] line_defines(lines(raw)[k], item)
}

fn line_defines_exec(line: &[char], item: &[char], kws: &Vec<&'static str>) -> (r: bool)
    requires
        kws@.map_values(|s: &str| s@) == def_keywords(),
    ensures
        r == line_defines(line@, item@),
{
    let t = trim_start_vec(line);
    let mut k: usize = 0;
    while k < kws.len()
        invariant
            k <= kws@.len(),
            kws@.map_values(|s: &str| s@) == def_keywords(),
            t@ == trim_start(line@),
            forall|q: int| 0 <= q < k ==> !defines_after(t@, #[trigger] def_keywords()[q], item@),
        decreases kws@.len() - k,
    {
        let kw = to_chars(kws[k]);
        assert(kw@ == def_keywords()[k as int]);
        if crate::text::has_prefix(&t, &kw) {
            let rest = slice_vec(&t, kw.len(), t.len());
            assert(rest@ =~= t@.skip(kw@.len() as int));
            if crate::text::has_prefix(&rest, item) {
                let at = kw.len() + item.len();
                if at < t.len() {
                    let c = t[at];
                    if !(is_alphanumeric(c) || c == '_') {
                        assert(defines_after(t@, def_keywords()[k as int], item@));
                        return true;
                    }
                }
            }
        }
        k = k + 1;
    }
    proof {
        reveal_strlit("pub use ");
        reveal_strlit("pub(crate) use ");
        reveal_strlit(":");
    }
    let after = if starts_lit(&t, "pub use ") {
        Some(slice_vec(&t, 8, t.len()))
    } else if starts_lit(&t, "pub(crate) use ") {
        Some(slice_vec(&t, 15, t.len()))
    } else {
        None
    };
    match after {
        Some(a) => {
            assert(a@ == after_pub_use(t@)->0);
            if crate::text::has_prefix(&a, item) {
                let tail = slice_vec(&a, item.len(), a.len());
                assert(tail@ =~= a@.skip(item@.len() as int));
                !starts_lit(&tail, ":")
            } else {
                false
            }
        },
        None => false,
    }
}

/// Whether some line of `raw` defines `item` (see [`spec_check_defs`]).
pub fn check_defs(raw: &str, item: &str) -> (r: bool)
    ensures
        r == spec_check_defs(raw@, item@),
{
    let kws = def_keywords_exec();
    let ls = split_lines(&to_chars(raw));
    let ghost lv = views(ls@);
    let it = to_chars(item);
    let mut k: usize = 0;
    while k < ls.len()
        invariant
            k <= ls@.len(),
            lv == views(ls@),
            lv == lines(raw@),
            it@ == item@,
            kws@.map_values(|s: &str| s@) == def_keywords(),
            forall|q: int| 0 <= q < k ==> !line_defines(#[trigger] lines(raw@)[q], item@),
        decreases ls@.len() - k,
    {
        assert(lv[k as int] == ls@[k as int]@);
        if line_defines_exec(&ls[k], &it, &kws) {
            return true;
        }
        k = k + 1;
    }
    false
}


// ---------------------------------------------------------------------------
// Member dependencies collapsed into the merged package
// ---------------------------------------------------------------------------

/// The key of a `key = value` line: what stands before the first ` = `,
/// trimmed.
pub open spec fn spec_extract_dep_key(t: Seq<char>) -> Option<Seq<char>> {
    match find(t, " = "@) {
        Some(eq) => Some(trim(t.take(eq))),
        None => None,
    }
}

/// See [`spec_extract_dep_key`].
pub fn extract_dep_key(trimmed: &[char]) -> (r: Option<String>)
    ensures
        match r {
            Some(k) => spec_extract_dep_key(trimmed@) == Some(k@),
            None => spec_extract_dep_key(trimmed@) is None,
        },
{
    let sep = to_chars(" = ");
    match find_seq(trimmed, &sep) {
        Some(eq) => {
            proof {
                lemma_find_from(trimmed@, sep@, 0);
            }
            let k = trim_vec(&slice_vec(trimmed, 0, eq));
            assert(trimmed@.subrange(0, eq as int) =~= trimmed@.take(eq as int));
            Some(from_chars(&k))
        },
        None => None,
    }
}

/// The package alias of a dependency line: the text between
/// `package = "` and the next `"`.
pub open spec fn alias_of_line(t: Seq<char>) -> Option<Seq<char>> {
    match find(t, "package = \""@) {
        Some(i) => {
            let rest = t.skip(i + 11);
            match crate::text::find_char(rest, '"') {
                Some(e) => Some(rest.take(e)),
                None => None,
            }
        },
        None => None,
    }
}

fn alias_of_line_exec(t: &[char]) -> (r: Option<Vec<char>>)
    ensures
        match r {
            Some(a) => alias_of_line(t@) == Some(a@),
            None => alias_of_line(t@) is None,
        },
{
    let p = to_chars("package = \"");
    proof {
        reveal_strlit("package = \"");
    }
    match find_seq(t, &p) {
        Some(i) => {
            proof {
                lemma_find_from(t@, p@, 0);
                assert(p@.len() == 11);
                assert(crate::text::find_from(t@, p@, 0) == Some(i as int));
                assert(matches_at(t@, i as int, p@));
            }
            let tl = t.len();
            assert(i + 11 <= tl);
            let rest = slice_vec(t, i + 11, tl);
            assert(rest@ =~= t@.skip(i + 11));
            match crate::text::find_ch(&rest, '"') {
                Some(e) => {
                    proof {
                        lemma_find_from(rest@, seq!['"'], 0);
                    }
                    let a = slice_vec(&rest, 0, e);
                    assert(a@ =~= rest@.take(e as int));
                    Some(a)
                },
                None => None,
            }
        },
        None => None,
    }
}

/// One manifest line: a dependency on a member (by key or by package
/// alias) becomes, the first time, `merged = { workspace = true }` at the
/// line's indentation, and is dropped after; the merged package's own
/// entry is kept the first time and dropped after; other lines are kept.
/// The flag says whether the merged entry was written.
pub open spec fn collapse_line(emitted: bool, line: Seq<char>, pkgs: Seq<Seq<char>>, merged: Seq<char>) -> (bool, Seq<char>) {
    let t = trim_start(line);
    match spec_extract_dep_key(t) {
        Some(pkg) => if pkgs.contains(pkg) || (alias_of_line(t) matches Some(a) && pkgs.contains(a)) {
            if emitted {
                (true, seq![])
            } else {
                (true, line.take(lead_ws(line) as int) + merged + " = { workspace = true }\n"@)
            }
        } else if pkg == merged {
            if emitted {
                (true, seq![])
            } else {
                (true, line + "\n"@)
            }
        } else {
            (emitted, line + "\n"@)
        },
        None => (emitted, line + "\n"@),
    }
}

pub open spec fn collapse_fold(ls: Seq<Seq<char>>, pkgs: Seq<Seq<char>>, merged: Seq<char>, k: int) -> (bool, Seq<char>)
    decreases k,
{
    if k <= 0 {
        (false, seq![])
    } else {
        let (e, out) = collapse_fold(ls, pkgs, merged, k - 1);
        let (e2, add) = collapse_line(e, ls[k - 1], pkgs, merged);
        (e2, out + add)
    }
}

/// The member packages of a cluster.
pub open spec fn member_packages(members: Seq<(Seq<char>, Seq<char>, Seq<char>)>) -> Seq<Seq<char>> {
    members.map_values(|m: (Seq<char>, Seq<char>, Seq<char>)| m.1)
}

/// A crate manifest with the cluster's member dependencies collapsed into
/// one dependency on the merged package (see [`collapse_line`]).
pub open spec fn spec_collapse_deps(raw: Seq<char>, members: Seq<(Seq<char>, Seq<char>, Seq<char>)>, merged: Seq<char>) -> Seq<char> {
    collapse_fold(lines(raw), member_packages(members), merged, lines(raw).len() as int).1
}

fn packages_of(cluster: &Cluster) -> (r: Vec<String>)
    ensures
        names_view(r@) == member_packages(members_view(cluster.members@)),
{
    let ghost mv = members_view(cluster.members@);
    let mut out: Vec<String> = Vec::new();
    let mut i: usize = 0;
    while i < cluster.members.len()
        invariant
            i <= cluster.members@.len(),
            mv == members_view(cluster.members@),
            names_view(out@) == member_packages(mv.take(i as int)),
        decreases cluster.members@.len() - i,
    {
        let ghost prev = out@;
        out.push(cluster.members[i].package.clone());
        assert(names_view(out@) =~= names_view(prev).push(cluster.members@[i as int].package@));
        assert(member_packages(mv.take(i + 1)) =~= member_packages(mv.take(i as int)).push(mv[i as int].1));
        i = i + 1;
    }
    assert(mv.take(cluster.members@.len() as int) =~= mv);
    out
}

/// See [`spec_collapse_deps`].
pub fn collapse_deps_text(raw: &str, cluster: &Cluster) -> (r: String)
    ensures
        r@ == spec_collapse_deps(raw@, members_view(cluster.members@), cluster.merged_package@),
{
    let pkgs = packages_of(cluster);
    let ghost pv = names_view(pkgs@);
    let merged = to_chars(cluster.merged_package);
    let ls = split_lines(&to_chars(raw));
    let ghost lv = views(ls@);
    let mut emitted = false;
    let mut out: Vec<char> = Vec::new();
    let mut i: usize = 0;
    while i < ls.len()
        invariant
            i <= ls@.len(),
            lv == views(ls@),
            lv == lines(raw@),
            pv == names_view(pkgs@),
            pv == member_packages(members_view(cluster.members@)),
            merged@ == cluster.merged_package@,
            (emitted, out@) == collapse_fold(lv, pv, merged@, i as int),
        decreases ls@.len() - i,
    {
        let l = &ls[i];
        assert(lv[i as int] == l@);
        let ghost o = out@;
        let t = trim_start_vec(l);
        let key = extract_dep_key(&t);
        match key {
            Some(pkg) => {
                let pc = to_chars(pkg.as_str());
                let by_key = list_contains(&pkgs, &pc);
                let by_alias = match alias_of_line_exec(&t) {
                    Some(a) => list_contains(&pkgs, &a),
                    None => false,
                };
                if by_key || by_alias {
                    if !emitted {
                        let w = lead_ws_len(l);
                        proof {
                            lemma_lead_ws(l@);
                        }
                        extend(&mut out, &slice_vec(l, 0, w));
                        extend(&mut out, &merged);
                        extend_lit(&mut out, " = { workspace = true }\n");
                        assert(out@ =~= o + (l@.take(w as int) + merged@ + " = { workspace = true }\n"@));
                        emitted = true;
                    }
                } else if seq_eq(&pc, &merged) {
                    if !emitted {
                        extend(&mut out, l);
                        extend_lit(&mut out, "\n");
                        emitted = true;
                    }
                } else {
                    extend(&mut out, l);
                    extend_lit(&mut out, "\n");
                }
            },
            None => {
                extend(&mut out, l);
                extend_lit(&mut out, "\n");
            },
        }
        assert(out@ =~= o + collapse_line(collapse_fold(lv, pv, merged@, i as int).0, l@, pv, merged@).1);
        i = i + 1;
    }
    from_chars(&out)
}


// ---------------------------------------------------------------------------
// Fixed repairs after the core merge
// ---------------------------------------------------------------------------

/// An ASCII capital letter.
pub open spec fn is_upper(c: char) -> bool {
    'A' <= c && c <= 'Z'
}

/// Each `crate::protocol::X` whose `X` starts with a capital letter (a type
/// or constant of the exec-server protocol) becomes
/// `crate::exec_server_protocol::X`; lower-case `X` (submodules of the
/// member `protocol`) stay.
pub open spec fn protocol_refs(rest: Seq<char>) -> Seq<char>
    decreases rest.len(),
{
    match find(rest, "crate::protocol::"@) {
        None => rest,
        Some(pos) => {
            proof {
                reveal_strlit("crate::protocol::");
                lemma_find_from(rest, "crate::protocol::"@, 0);
            }
            let after = rest.skip(pos + 17);
            let n = ident_len(after);
            proof {
                lemma_ident_len(after);
            }
            let item = after.take(n as int);
            (if n > 0 && is_upper(item[0]) {
                rest.take(pos) + "crate::exec_server_protocol::"@
            } else {
                rest.take(pos + 17)
            }) + item + protocol_refs(after.skip(n as int))
        },
    }
}

/// See [`protocol_refs`].
pub fn rewrite_protocol_refs(raw: &str) -> (r: String)
    ensures
        r@ == protocol_refs(raw@),
{
    let needle = to_chars("crate::protocol::");
    let mut rest = to_chars(raw);
    let mut out: Vec<char> = Vec::new();
    loop
        invariant
            needle@ == "crate::protocol::"@,
            out@ + protocol_refs(rest@) == protocol_refs(raw@),
        decreases rest@.len(),
    {
        proof {
            reveal_strlit("crate::protocol::");
            reveal_strlit("crate::exec_server_protocol::");
        }
        match find_seq(&rest, &needle) {
            None => {
                extend(&mut out, &rest);
                return from_chars(&out);
            },
            Some(pos) => {
                proof {
                    lemma_find_from(rest@, needle@, 0);
                    assert(matches_at(rest@, pos as int, needle@));
                }
                let rl = rest.len();
                assert(pos + 17 <= rl);
                let after = slice_vec(&rest, pos + 17, rl);
                assert(after@ =~= rest@.skip(pos + 17));
                let n = ident_len_exec(&after, 0);
                proof {
                    lemma_ident_len(after@);
                    assert(after@.skip(0) =~= after@);
                }
                let item = slice_vec(&after, 0, n);
                assert(item@ =~= after@.take(n as int));
                let ghost o = out@;
                if n > 0 && 'A' <= item[0] && item[0] <= 'Z' {
                    extend(&mut out, &slice_vec(&rest, 0, pos));
                    extend_lit(&mut out, "crate::exec_server_protocol::");
                    assert(rest@.subrange(0, pos as int) =~= rest@.take(pos as int));
                } else {
                    extend(&mut out, &slice_vec(&rest, 0, pos + 17));
                    assert(rest@.subrange(0, pos + 17) =~= rest@.take(pos + 17));
                }
                extend(&mut out, &item);
                let next = slice_vec(&after, n, after.len());
                assert(next@ =~= after@.skip(n as int));
                rest = next;
            },
        }
    }
}

/// A line that starts, after its indentation, with `use lemurclaw_core::`
/// imports from its own crate: `use crate::`.
pub open spec fn use_crate_line(l: Seq<char>) -> Seq<char> {
    let w = lead_ws(l) as int;
    if starts_with(l.skip(w), "use lemurclaw_core::"@) {
        l.take(w) + "use crate::"@ + l.skip(w + 20)
    } else {
        l
    }
}

/// Lines joined by newlines, without one after the last.
pub open spec fn join_lines(ls: Seq<Seq<char>>) -> Seq<char>
    decreases ls.len(),
{
    if ls.len() == 0 {
        seq![]
    } else if ls.len() == 1 {
        ls[0]
    } else {
        join_lines(ls.drop_last()) + "\n"@ + ls.last()
    }
}

/// The text with each line passed through [`use_crate_line`], joined by
/// newlines (no newline after the last line).
pub open spec fn spec_fix_use_crate(raw: Seq<char>) -> Seq<char> {
    join_lines(lines(raw).map_values(|l: Seq<char>| use_crate_line(l)))
}

/// See [`spec_fix_use_crate`].
pub fn fix_use_crate_lines(raw: &str) -> (r: String)
    ensures
        r@ == spec_fix_use_crate(raw@),
{
    let ls = split_lines(&to_chars(raw));
    let ghost lv = views(ls@);
    let ghost mapped = lv.map_values(|l: Seq<char>| use_crate_line(l));
    let mut out: Vec<char> = Vec::new();
    let mut i: usize = 0;
    while i < ls.len()
        invariant
            i <= ls@.len(),
            lv == views(ls@),
            lv == lines(raw@),
            mapped == lv.map_values(|l: Seq<char>| use_crate_line(l)),
            out@ == join_lines(mapped.take(i as int)),
        decreases ls@.len() - i,
    {
        let l = &ls[i];
        assert(lv[i as int] == l@);
        proof {
            reveal_strlit("use lemurclaw_core::");
            reveal_strlit("\n");
        }
        let w = lead_ws_len(l);
        proof {
            lemma_lead_ws(l@);
        }
        let t = slice_vec(l, w, l.len());
        assert(t@ =~= l@.skip(w as int));
        let line = if starts_lit(&t, "use lemurclaw_core::") {
            let mut v = slice_vec(l, 0, w);
            extend_lit(&mut v, "use crate::");
            extend(&mut v, &slice_vec(l, w + 20, l.len()));
            assert(v@ =~= l@.take(w as int) + "use crate::"@ + l@.skip(w + 20));
            v
        } else {
            slice_vec(l, 0, l.len())
        };
        assert(line@ =~= use_crate_line(l@));
        let ghost o = out@;
        if i > 0 {
            extend_lit(&mut out, "\n");
        }
        extend(&mut out, &line);
        assert(mapped.take(i + 1).drop_last() =~= mapped.take(i as int));
        assert(mapped.take(i + 1).last() == line@);
        assert(out@ =~= join_lines(mapped.take(i + 1)));
        i = i + 1;
    }
    assert(mapped.take(ls@.len() as int) =~= mapped);
    from_chars(&out)
}

/// `pub use router::ToolCall;` put before the tools module's text when it
/// does not re-export the call type yet and the router defines it as a
/// public struct or enum; nothing to do otherwise.
pub open spec fn spec_tool_call_export(tools: Seq<char>, router: Option<Seq<char>>) -> Option<Seq<char>> {
    if contains(tools, "pub use router::ToolCall"@) {
        None
    } else {
        match router {
            Some(r) => if contains(r, "pub struct ToolCall"@) || contains(r, "pub enum ToolCall"@) {
                Some("pub use router::ToolCall;\n"@ + tools)
            } else {
                None
            },
            None => None,
        }
    }
}

/// See [`spec_tool_call_export`]; `router_raw` is the router's source when
/// the file exists.
pub fn tool_call_export_text(tools_raw: &str, router_raw: Option<&str>) -> (r: Option<String>)
    ensures
        match r {
            Some(s) => spec_tool_call_export(
                tools_raw@,
                match router_raw {
                    Some(x) => Some(x@),
                    None => None,
                },
            ) == Some(s@),
            None => spec_tool_call_export(
                tools_raw@,
                match router_raw {
                    Some(x) => Some(x@),
                    None => None,
                },
            ) is None,
        },
{
    let t = to_chars(tools_raw);
    if contains_seq(&t, &to_chars("pub use router::ToolCall")) {
        return None;
    }
    match router_raw {
        Some(r) => {
            let rc = to_chars(r);
            if contains_seq(&rc, &to_chars("pub struct ToolCall")) || contains_seq(&rc, &to_chars("pub enum ToolCall")) {
                let mut v = to_chars("pub use router::ToolCall;\n");
                extend(&mut v, &t);
                Some(from_chars(&v))
            } else {
                None
            }
        },
        None => None,
    }
}

/// The frames include paths of the merged TUI: `../frames/` becomes
/// `frames/`.
pub open spec fn spec_tui_frames(raw: Seq<char>) -> Seq<char> {
    replace_all(raw, "../frames/"@, "frames/"@)
}

/// See [`spec_tui_frames`].
pub fn tui_frames_text(raw: &str) -> (r: String)
    ensures
        r@ == spec_tui_frames(raw@),
{
    proof {
        reveal_strlit("../frames/");
    }
    from_chars(&replace_vec(&to_chars(raw), &to_chars("../frames/"), &to_chars("frames/")))
}

/// The merged TUI manifest with `arboard` added after `anyhow` when it
/// names no `arboard`, then `libc` after `lemurclaw-server` when no line
/// starts with `libc`.
pub open spec fn spec_tui_cargo_deps(raw: Seq<char>) -> Seq<char> {
    let a = if contains(raw, "arboard"@) {
        raw
    } else {
        replace_all(
            raw,
            "anyhow = { workspace = true }\n"@,
            "anyhow = { workspace = true }\narboard = { workspace = true }\n"@,
        )
    };
    if contains(a, "\nlibc"@) {
        a
    } else {
        replace_all(
            a,
            "lemurclaw-server = { workspace = true }\n"@,
            "lemurclaw-server = { workspace = true }\nlibc = { workspace = true }\n"@,
        )
    }
}

/// See [`spec_tui_cargo_deps`].
pub fn tui_cargo_deps_text(raw: &str) -> (r: String)
    ensures
        r@ == spec_tui_cargo_deps(raw@),
{
    proof {
        reveal_strlit("anyhow = { workspace = true }\n");
        reveal_strlit("lemurclaw-server = { workspace = true }\n");
    }
    let rc = to_chars(raw);
    let a = if contains_seq(&rc, &to_chars("arboard")) {
        rc
    } else {
        replace_vec(
            &rc,
            &to_chars("anyhow = { workspace = true }\n"),
            &to_chars("anyhow = { workspace = true }\narboard = { workspace = true }\n"),
        )
    };
    let b = if contains_seq(&a, &to_chars("\nlibc")) {
        a
    } else {
        replace_vec(
            &a,
            &to_chars("lemurclaw-server = { workspace = true }\n"),
            &to_chars("lemurclaw-server = { workspace = true }\nlibc = { workspace = true }\n"),
        )
    };
    from_chars(&b)
}


// ---------------------------------------------------------------------------
// The publish workspace manifest after a merge
// ---------------------------------------------------------------------------

/// `str::trim_start_matches` with a text pattern: every leading copy of
/// `p` removed (nothing when `p` is empty).
pub open spec fn trim_start_str(s: Seq<char>, p: Seq<char>) -> Seq<char>
    decreases s.len(),
{
    if p.len() > 0 && starts_with(s, p) {
        trim_start_str(s.skip(p.len() as int), p)
    } else {
        s
    }
}

/// `str::trim_end_matches` with a text pattern.
pub open spec fn trim_end_str(s: Seq<char>, p: Seq<char>) -> Seq<char>
    decreases s.len(),
{
    if p.len() > 0 && crate::text::ends_with(s, p) {
        trim_end_str(s.take(s.len() - p.len()), p)
    } else {
        s
    }
}

pub(crate) fn trim_start_str_exec(s: &[char], p: &[char]) -> (r: Vec<char>)
    ensures
        r@ == trim_start_str(s@, p@),
{
    let mut cur = slice_vec(s, 0, s.len());
    assert(cur@ =~= s@);
    while p.len() > 0 && crate::text::has_prefix(&cur, p)
        invariant
            trim_start_str(cur@, p@) == trim_start_str(s@, p@),
        decreases cur@.len(),
    {
        let next = slice_vec(&cur, p.len(), cur.len());
        assert(next@ =~= cur@.skip(p@.len() as int));
        cur = next;
    }
    cur
}

fn trim_end_str_exec(s: &[char], p: &[char]) -> (r: Vec<char>)
    ensures
        r@ == trim_end_str(s@, p@),
{
    let mut cur = slice_vec(s, 0, s.len());
    assert(cur@ =~= s@);
    while p.len() > 0 && crate::text::has_suffix(&cur, p)
        invariant
            trim_end_str(cur@, p@) == trim_end_str(s@, p@),
        decreases cur@.len(),
    {
        let next = slice_vec(&cur, 0, cur.len() - p.len());
        assert(next@ =~= cur@.take(cur@.len() - p@.len()));
        cur = next;
    }
    cur
}

/// What the rewrite needs of the cluster: member directories and
/// packages, the member prefix in `members` entries (`subdir/`, or nothing
/// for a cluster at the root), the merged member entry, the merged
/// dependency line and its key test.
pub struct PublishView {
    pub dirs: Seq<Seq<char>>,
    pub pkgs: Seq<Seq<char>>,
    pub member_str: Seq<char>,
    pub member_line: Seq<char>,
    pub dep_line: Seq<char>,
    pub dep_check: Seq<char>,
    pub merged_package: Seq<char>,
}

pub open spec fn publish_view(c: Cluster) -> PublishView {
    let mv = members_view(c.members@);
    PublishView {
        dirs: mv.map_values(|m: (Seq<char>, Seq<char>, Seq<char>)| m.0),
        pkgs: member_packages(mv),
        member_str: "\""@ + (if c.source_subdir@.len() == 0 {
            seq![]
        } else {
            c.source_subdir@ + "/"@
        }),
        member_line: "\""@ + c.merged_member_path@ + "\""@,
        dep_line: c.merged_package@ + " = { path = \""@ + c.merged_member_path@ + "\" }"@,
        dep_check: c.merged_package@ + " = "@,
        merged_package: c.merged_package@,
    }
}

/// The text so far after one more line: in `[workspace]`, a member entry
/// of a merged directory becomes the merged member entry (once); in
/// `[workspace.dependencies]`, a dependency on a member or on the merged
/// package becomes the merged dependency line (once); everything else is
/// kept.
pub open spec fn publish_line(in_ws: bool, in_deps: bool, out: Seq<char>, line: Seq<char>, v: PublishView) -> (bool, bool, Seq<char>) {
    let t = trim_start(line);
    let indent = line.take(lead_ws(line) as int);
    if crate::manifest::is_header(t) {
        (t == "[workspace]"@, t == "[workspace.dependencies]"@, out + line + "\n"@)
    } else if in_ws && starts_with(t, v.member_str) {
        let dir = trim_end_str(trim_start_str(t, v.member_str), "\","@);
        if v.dirs.contains(dir) {
            if contains(out, v.member_line) {
                (in_ws, in_deps, out)
            } else {
                (in_ws, in_deps, out + indent + v.member_line + ",\n"@)
            }
        } else {
            (in_ws, in_deps, out + line + "\n"@)
        }
    } else if in_deps && (spec_extract_dep_key(t) matches Some(pkg) && (v.pkgs.contains(pkg) || pkg == v.merged_package)) {
        if contains(out, v.dep_check) {
            (in_ws, in_deps, out)
        } else {
            (in_ws, in_deps, out + indent + v.dep_line + "\n"@)
        }
    } else {
        (in_ws, in_deps, out + line + "\n"@)
    }
}

pub open spec fn publish_fold(ls: Seq<Seq<char>>, v: PublishView, k: int) -> (bool, bool, Seq<char>)
    decreases k,
{
    if k <= 0 {
        (false, false, seq![])
    } else {
        let (a, b, out) = publish_fold(ls, v, k - 1);
        publish_line(a, b, out, ls[k - 1], v)
    }
}

/// The workspace manifest with the cluster's members and their
/// workspace dependencies replaced by the merged crate (see
/// [`publish_line`]).
pub open spec fn spec_rewrite_publish_manifest(raw: Seq<char>, c: Cluster) -> Seq<char> {
    publish_fold(lines(raw), publish_view(c), lines(raw).len() as int).2
}

fn dirs_of(cluster: &Cluster) -> (r: Vec<String>)
    ensures
        names_view(r@) == publish_view(*cluster).dirs,
{
    let ghost mv = members_view(cluster.members@);
    let ghost dv = mv.map_values(|m: (Seq<char>, Seq<char>, Seq<char>)| m.0);
    let mut out: Vec<String> = Vec::new();
    let mut i: usize = 0;
    while i < cluster.members.len()
        invariant
            i <= cluster.members@.len(),
            mv == members_view(cluster.members@),
            dv == mv.map_values(|m: (Seq<char>, Seq<char>, Seq<char>)| m.0),
            names_view(out@) == dv.take(i as int),
        decreases cluster.members@.len() - i,
    {
        let ghost prev = out@;
        out.push(cluster.members[i].dir.clone());
        assert(names_view(out@) =~= names_view(prev).push(cluster.members@[i as int].dir@));
        assert(dv.take(i + 1) =~= dv.take(i as int).push(dv[i as int]));
        i = i + 1;
    }
    assert(dv.take(cluster.members@.len() as int) =~= dv);
    out
}

/// See [`spec_rewrite_publish_manifest`].
pub fn rewrite_publish_manifest_text(raw: &str, cluster: &Cluster) -> (r: String)
    ensures
        r@ == spec_rewrite_publish_manifest(raw@, *cluster),
{
    let ghost v = publish_view(*cluster);
    let dirs = dirs_of(cluster);
    let pkgs = packages_of(cluster);
    let mut member_str = to_chars("\"");
    if !cluster.source_subdir.is_empty() {
        extend_lit(&mut member_str, cluster.source_subdir);
        extend_lit(&mut member_str, "/");
    }
    proof {
        reveal_strlit("");
    }
    assert(member_str@ =~= v.member_str);
    let mut member_line = to_chars("\"");
    extend_lit(&mut member_line, cluster.merged_member_path);
    extend_lit(&mut member_line, "\"");
    let mut dep_line = to_chars(cluster.merged_package);
    extend_lit(&mut dep_line, " = { path = \"");
    extend_lit(&mut dep_line, cluster.merged_member_path);
    extend_lit(&mut dep_line, "\" }");
    let mut dep_check = to_chars(cluster.merged_package);
    extend_lit(&mut dep_check, " = ");
    let merged = to_chars(cluster.merged_package);
    let quote_comma = to_chars("\",");
    let ls = split_lines(&to_chars(raw));
    let ghost lv = views(ls@);
    let mut in_ws = false;
    let mut in_deps = false;
    let mut out: Vec<char> = Vec::new();
    let mut i: usize = 0;
    while i < ls.len()
        invariant
            i <= ls@.len(),
            lv == views(ls@),
            lv == lines(raw@),
            v == publish_view(*cluster),
            names_view(dirs@) == v.dirs,
            names_view(pkgs@) == v.pkgs,
            member_str@ == v.member_str,
            member_line@ == v.member_line,
            dep_line@ == v.dep_line,
            dep_check@ == v.dep_check,
            merged@ == v.merged_package,
            quote_comma@ == "\","@,
            (in_ws, in_deps, out@) == publish_fold(lv, v, i as int),
        decreases ls@.len() - i,
    {
        let l = &ls[i];
        assert(lv[i as int] == l@);
        let ghost o = out@;
        let t = trim_start_vec(l);
        let w = lead_ws_len(l);
        proof {
            lemma_lead_ws(l@);
        }
        if starts_lit(&t, "[") && crate::text::has_suffix(&t, &to_chars("]")) {
            in_ws = crate::text::eq_lit(&t, "[workspace]");
            in_deps = crate::text::eq_lit(&t, "[workspace.dependencies]");
            extend(&mut out, l);
            extend_lit(&mut out, "\n");
        } else if in_ws && crate::text::has_prefix(&t, &member_str) {
            let dir = trim_end_str_exec(&trim_start_str_exec(&t, &member_str), &quote_comma);
            if list_contains(&dirs, &dir) {
                if !contains_seq(&out, &member_line) {
                    extend(&mut out, &slice_vec(l, 0, w));
                    extend(&mut out, &member_line);
                    extend_lit(&mut out, ",\n");
                    assert(out@ =~= o + l@.take(w as int) + member_line@ + ",\n"@);
                }
            } else {
                extend(&mut out, l);
                extend_lit(&mut out, "\n");
            }
        } else {
            let is_dep = if in_deps {
                match extract_dep_key(&t) {
                    Some(pkg) => {
                        let pc = to_chars(pkg.as_str());
                        list_contains(&pkgs, &pc) || seq_eq(&pc, &merged)
                    },
                    None => false,
                }
            } else {
                false
            };
            if is_dep {
                if !contains_seq(&out, &dep_check) {
                    extend(&mut out, &slice_vec(l, 0, w));
                    extend(&mut out, &dep_line);
                    extend_lit(&mut out, "\n");
                    assert(out@ =~= o + l@.take(w as int) + dep_line@ + "\n"@);
                }
            } else {
                extend(&mut out, l);
                extend_lit(&mut out, "\n");
            }
        }
        i = i + 1;
    }
    from_chars(&out)
}

} // verus!
