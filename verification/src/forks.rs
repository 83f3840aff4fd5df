//! The four git forks published as `lemurclaw-*` crates: their description,
//! and the rewrite of a fork's `Cargo.toml` for publication (package
//! renamed, sibling-fork dependencies aliased, `[lib].name` pinned).

use vstd::prelude::*;
use crate::text::{
    contains, contains_seq, ends_with, eq_lit, extend, extend_lit, from_chars, has_prefix,
    has_suffix, lead_ws, lead_ws_len, lemma_lead_ws, lines, rfind_ch, rfind_char, seq_eq, slice_vec,
    split_lines, starts_lit, starts_with, to_chars, trail_run, trim, trim_char, trim_char_vec,
    trim_end, trim_end_char, trim_end_char_vec, trim_end_vec, trim_start, trim_vec, views,
};

verus! {

/// One fork: its directory under `publish.forks/`, where it is cloned from,
/// the upstream package name and version, the crate name its code is
/// imported by, and its dependencies on sibling forks (dependency key,
/// published package name).
pub struct ForkSpec {
    pub dir: &'static str,
    pub repo: &'static str,
    pub rev: &'static str,
    pub upstream_name: &'static str,
    pub version: &'static str,
    pub lib_name: &'static str,
    pub internal_fork_deps: Vec<(&'static str, &'static str)>,
}

/// The four forks, leaves first: crossterm and tungstenite, then ratatui
/// (on crossterm) and tokio-tungstenite (on tungstenite).
pub fn forks() -> (r: Vec<ForkSpec>)
    ensures
        r@.len() == 4,
        r@[0].upstream_name@ == "crossterm"@,
        r@[1].upstream_name@ == "tungstenite"@,
        r@[2].upstream_name@ == "ratatui"@,
        r@[3].upstream_name@ == "tokio-tungstenite"@,
        r@[0].internal_fork_deps@.len() == 0,
        r@[1].internal_fork_deps@.len() == 0,
        r@[2].internal_fork_deps@ == seq![("crossterm", "lemurclaw-crossterm")],
        r@[3].internal_fork_deps@ == seq![("tungstenite", "lemurclaw-tungstenite")],
{
    vec![
        ForkSpec {
            dir: "crossterm",
            repo: "https://github.com/nornagon/crossterm",
            rev: "87db8bfa6dc99427fd3b071681b07fc31c6ce995",
            upstream_name: "crossterm",
            version: "0.28.1",
            lib_name: "crossterm",
            internal_fork_deps: vec![],
        },
        ForkSpec {
            dir: "tungstenite",
            repo: "https://github.com/openai-oss-forks/tungstenite-rs",
            rev: "4fffad30fe373adbdcffab9545e9e9bf4f2fc19f",
            upstream_name: "tungstenite",
            version: "0.27.0",
            lib_name: "tungstenite",
            internal_fork_deps: vec![],
        },
        ForkSpec {
            dir: "ratatui",
            repo: "https://github.com/nornagon/ratatui",
            rev: "9b2ad1298408c45918ee9f8241a6f95498cdbed2",
            upstream_name: "ratatui",
            version: "0.29.0",
            lib_name: "ratatui",
            internal_fork_deps: vec![("crossterm", "lemurclaw-crossterm")],
        },
        ForkSpec {
            dir: "tokio-tungstenite",
            repo: "https://github.com/openai-oss-forks/tokio-tungstenite",
            rev: "0e5b2d73aa18dd9f0a50ee9ff199d5aef7594186",
            upstream_name: "tokio-tungstenite",
            version: "0.28.0",
            lib_name: "tokio_tungstenite",
            internal_fork_deps: vec![("tungstenite", "lemurclaw-tungstenite")],
        },
    ]
}

/// `repo_root/publish.forks`.
pub fn forks_root(repo_root: &str) -> (r: String)
    ensures
        r@ == repo_root@ + "/publish.forks"@,
{
    let mut v = to_chars(repo_root);
    extend_lit(&mut v, "/publish.forks");
    from_chars(&v)
}

/// The dependency named by a sub-table header `[dependencies.X]`,
/// `[dev-dependencies.X]` or `[build-dependencies.X]`.
pub open spec fn spec_find_fork_dep_subtable(s: Seq<char>) -> Option<Seq<char>> {
    if starts_with(s, "[dependencies."@) && ends_with(s.skip(14), "]"@) {
        Some(s.skip(14).drop_last())
    } else if starts_with(s, "[dev-dependencies."@) && ends_with(s.skip(18), "]"@) {
        Some(s.skip(18).drop_last())
    } else if starts_with(s, "[build-dependencies."@) && ends_with(s.skip(20), "]"@) {
        Some(s.skip(20).drop_last())
    } else {
        None
    }
}

fn strip_header_prefix(s: &[char], prefix: &str) -> (r: Option<Vec<char>>)
    ensures
        r matches Some(x) ==> starts_with(s@, prefix@) && ends_with(s@.skip(prefix@.len() as int), "]"@)
            && x@ == s@.skip(prefix@.len() as int).drop_last(),
        r is None ==> !(starts_with(s@, prefix@) && ends_with(s@.skip(prefix@.len() as int), "]"@)),
{
    let p = to_chars(prefix);
    if !has_prefix(s, &p) {
        return None;
    }
    let rest = slice_vec(s, p.len(), s.len());
    let close: [char; 1] = [']'];
    assert(close@ =~= "]"@) by {
        reveal_strlit("]");
    }
    if !has_suffix(&rest, &close) {
        return None;
    }
    Some(slice_vec(&rest, 0, rest.len() - 1))
}

/// See [`spec_find_fork_dep_subtable`].
pub fn find_fork_dep_subtable(s: &[char]) -> (r: Option<Vec<char>>)
    ensures
        r matches Some(x) ==> spec_find_fork_dep_subtable(s@) == Some(x@),
        r is None ==> spec_find_fork_dep_subtable(s@) is None,
{
    proof {
        reveal_strlit("[dependencies.");
        reveal_strlit("[dev-dependencies.");
        reveal_strlit("[build-dependencies.");
    }
    match strip_header_prefix(s, "[dependencies.") {
        Some(x) => {
            return Some(x);
        },
        None => {},
    }
    match strip_header_prefix(s, "[dev-dependencies.") {
        Some(x) => {
            return Some(x);
        },
        None => {},
    }
    strip_header_prefix(s, "[build-dependencies.")
}

/// The version a sibling-fork dependency is pinned to.
pub open spec fn spec_internal_dep_version(dep: Seq<char>) -> Seq<char> {
    if dep == "crossterm"@ {
        "0.28.1"@
    } else if dep == "tungstenite"@ {
        "0.27.0"@
    } else {
        "0.0.0"@
    }
}

/// See [`spec_internal_dep_version`].
pub fn find_internal_dep_version(dep_name: &[char]) -> (r: &'static str)
    ensures
        r@ == spec_internal_dep_version(dep_name@),
{
    if eq_lit(dep_name, "crossterm") {
        "0.28.1"
    } else if eq_lit(dep_name, "tungstenite") {
        "0.27.0"
    } else {
        "0.0.0"
    }
}

pub open spec fn deps_view(v: Seq<(&str, &str)>) -> Seq<(Seq<char>, Seq<char>)> {
    v.map_values(|p: (&str, &str)| (p.0@, p.1@))
}

/// The published name aliased for the first sibling-fork dependency keyed
/// `dep`.
pub open spec fn alias_of(deps: Seq<(Seq<char>, Seq<char>)>, dep: Seq<char>) -> Option<Seq<char>>
    decreases deps.len(),
{
    if deps.len() == 0 {
        None
    } else if deps[0].0 == dep {
        Some(deps[0].1)
    } else {
        alias_of(deps.drop_first(), dep)
    }
}

fn alias_of_exec(deps: &Vec<(&'static str, &'static str)>, dep: &[char]) -> (r: Option<&'static str>)
    ensures
        r matches Some(x) ==> alias_of(deps_view(deps@), dep@) == Some(x@),
        r is None ==> alias_of(deps_view(deps@), dep@) is None,
{
    let ghost dv = deps_view(deps@);
    let mut i: usize = 0;
    assert(dv.skip(0) =~= dv);
    while i < deps.len()
        invariant
            i <= deps@.len(),
            dv == deps_view(deps@),
            alias_of(dv.skip(i as int), dep@) == alias_of(dv, dep@),
        decreases deps@.len() - i,
    {
        let (k, v) = deps[i];
        assert(dv.skip(i as int)[0] == (k@, v@));
        if seq_eq(&to_chars(k), dep) {
            return Some(v);
        }
        assert(dv.skip(i as int).drop_first() =~= dv.skip(i + 1));
        i = i + 1;
    }
    assert(dv.skip(i as int) =~= Seq::<(Seq<char>, Seq<char>)>::empty());
    None
}

/// An inline sibling-fork dependency `X = { .. }` gets `package = "alias"`
/// inserted before its closing brace (trailing whitespace and commas
/// before the brace dropped, and `, ` added unless the table is empty);
/// it is kept as it is when it already names a package; with no closing
/// brace nothing is rewritten. Only the first dependency whose `X = {`
/// prefix matches is considered.
pub open spec fn inline_fork_dep(t: Seq<char>, deps: Seq<(Seq<char>, Seq<char>)>) -> Option<Seq<char>>
    decreases deps.len(),
{
    if deps.len() == 0 {
        None
    } else if starts_with(t, deps[0].0 + " = {"@) {
        if contains(t, "package ="@) {
            Some(t)
        } else {
            match rfind_char(t, '}') {
                None => None,
                Some(close) => {
                    let before = trim_end_char(trim_end(t.take(close)), ',');
                    let sep = if ends_with(before, "{"@) {
                        seq![]
                    } else {
                        ", "@
                    };
                    Some(before + sep + "package = \""@ + deps[0].1 + "\" }"@)
                },
            }
        }
    } else {
        inline_fork_dep(t, deps.drop_first())
    }
}

/// See [`inline_fork_dep`].
pub fn rewrite_inline_fork_dep(trimmed: &[char], fork: &ForkSpec) -> (r: Option<Vec<char>>)
    ensures
        r matches Some(x) ==> inline_fork_dep(trimmed@, deps_view(fork.internal_fork_deps@)) == Some(x@),
        r is None ==> inline_fork_dep(trimmed@, deps_view(fork.internal_fork_deps@)) is None,
{
    let deps = &fork.internal_fork_deps;
    let ghost dv = deps_view(deps@);
    let mut i: usize = 0;
    assert(dv.skip(0) =~= dv);
    while i < deps.len()
        invariant
            i <= deps@.len(),
            dv == deps_view(deps@),
            dv == deps_view(fork.internal_fork_deps@),
            inline_fork_dep(trimmed@, dv.skip(i as int)) == inline_fork_dep(trimmed@, dv),
        decreases deps@.len() - i,
    {
        let (k, alias) = deps[i];
        assert(dv.skip(i as int)[0] == (k@, alias@));
        let mut prefix = to_chars(k);
        extend_lit(&mut prefix, " = {");
        let ghost rest = dv.skip(i as int);
        assert(prefix@ == rest[0].0 + " = {"@);
        if has_prefix(trimmed, &prefix) {
            assert(starts_with(trimmed@, rest[0].0 + " = {"@));
            if contains_seq(trimmed, &to_chars("package =")) {
                assert(inline_fork_dep(trimmed@, rest) == Some(trimmed@));
                assert(trimmed@.subrange(0, trimmed@.len() as int) =~= trimmed@);
                return Some(slice_vec(trimmed, 0, trimmed.len()));
            }
            proof {
                crate::text::lemma_rfind_char_before(trimmed@, '}', trimmed@.len() as int);
            }
            let close = match rfind_ch(trimmed, '}') {
                Some(c) => c,
                None => {
                    assert(inline_fork_dep(trimmed@, rest) is None);
                    return None;
                },
            };
            let before = trim_end_char_vec(&trim_end_vec(&slice_vec(trimmed, 0, close)), ',');
            let mut out = before;
            let brace: [char; 1] = ['{'];
            assert(brace@ =~= "{"@) by {
                reveal_strlit("{");
            }
            if !has_suffix(&out, &brace) {
                extend_lit(&mut out, ", ");
            } else {
                assert(out@ + Seq::<char>::empty() =~= out@);
            }
            extend_lit(&mut out, "package = \"");
            extend(&mut out, &to_chars(alias));
            extend_lit(&mut out, "\" }");
            return Some(out);
        }
        assert(dv.skip(i as int).drop_first() =~= dv.skip(i + 1));
        i = i + 1;
    }
    assert(dv.skip(i as int) =~= Seq::<(Seq<char>, Seq<char>)>::empty());
    None
}

/// Where the pass over a fork manifest stands: inside a rewritten
/// sibling-fork sub-table, in which section, whether a `[lib]` header was
/// seen, and whether `[lib].name` was written.
pub struct ForkPass {
    pub in_sub: bool,
    pub section: Option<Seq<char>>,
    pub saw_lib: bool,
    pub ensured: bool,
}

pub open spec fn fork_pass_start() -> ForkPass {
    ForkPass { in_sub: false, section: None, saw_lib: false, ensured: false }
}

/// The text of one line of a fork manifest after the rewrite, and the pass
/// after it: a sibling-fork sub-table header becomes a `[dependencies.X]`
/// table with version, package alias and `default-features = false`, and
/// the lines under it are dropped; other headers are kept, a first `[lib]`
/// getting `name = "<lib name>"` after it; `name = "<upstream>"` in
/// `[package]` becomes `lemurclaw-<upstream>`; other `name =` lines of
/// `[lib]` are dropped; inline sibling-fork dependencies get their alias.
pub open spec fn fork_line(fork: ForkSpec, st: ForkPass, l: Seq<char>) -> (ForkPass, Seq<char>) {
    let t = trim_start(l);
    let ind = l.take(lead_ws(l) as int);
    let deps = deps_view(fork.internal_fork_deps@);
    if starts_with(t, "["@) && ends_with(t, "]"@) {
        let is_lib = t == "[lib]"@;
        let st1 = ForkPass { in_sub: false, section: Some(t), saw_lib: st.saw_lib || is_lib, ensured: st.ensured };
        let alias = match spec_find_fork_dep_subtable(t) {
            Some(dep) => alias_of(deps, dep),
            None => None,
        };
        match alias {
            Some(a) => {
                let dep = spec_find_fork_dep_subtable(t)->Some_0;
                (
                    ForkPass { in_sub: true, ..st1 },
                    ind + "[dependencies."@ + dep + "]\n"@ + ind + "version = \""@
                        + spec_internal_dep_version(dep) + "\"\n"@ + ind + "package = \""@ + a
                        + "\"\n"@ + ind + "default-features = false\n"@,
                )
            },
            None => if is_lib && !st1.ensured {
                (
                    ForkPass { ensured: true, ..st1 },
                    l + "\n"@ + ind + "name = \""@ + fork.lib_name@ + "\"\n"@,
                )
            } else {
                (st1, l + "\n"@)
            },
        }
    } else if st.in_sub {
        (st, seq![])
    } else if st.section == Some("[package]"@) && starts_with(t, "name = "@) && trim_char(
        trim(t.skip(7)),
        '"',
    ) == fork.upstream_name@ {
        (st, ind + "name = \""@ + "lemurclaw-"@ + fork.upstream_name@ + "\"\n"@)
    } else if st.section == Some("[lib]"@) && starts_with(t, "name = "@) {
        (st, seq![])
    } else {
        match inline_fork_dep(t, deps) {
            Some(rw) => (st, ind + rw + "\n"@),
            None => (st, l + "\n"@),
        }
    }
}

pub open spec fn fork_fold(fork: ForkSpec, ls: Seq<Seq<char>>, k: int) -> (ForkPass, Seq<char>)
    decreases k,
{
    if k <= 0 {
        (fork_pass_start(), seq![])
    } else {
        let (st, out) = fork_fold(fork, ls, k - 1);
        let (st2, add) = fork_line(fork, st, ls[k - 1]);
        (st2, out + add)
    }
}

/// The whole rewrite: every line through [`fork_line`], then a `[lib]`
/// section with the lib name appended when the manifest had none.
pub open spec fn spec_rewrite_fork_manifest(raw: Seq<char>, fork: ForkSpec) -> Seq<char> {
    let ls = lines(raw);
    let (st, out) = fork_fold(fork, ls, ls.len() as int);
    if !st.saw_lib {
        out + "\n[lib]\n"@ + "name = \""@ + fork.lib_name@ + "\"\n"@
    } else {
        out
    }
}

struct ForkPassExec {
    in_sub: bool,
    section: Option<Vec<char>>,
    saw_lib: bool,
    ensured: bool,
}

impl View for ForkPassExec {
    type V = ForkPass;

    closed spec fn view(&self) -> ForkPass {
        ForkPass {
            in_sub: self.in_sub,
            section: match self.section {
                Some(v) => Some(v@),
                None => None,
            },
            saw_lib: self.saw_lib,
            ensured: self.ensured,
        }
    }
}

fn section_is(st: &ForkPassExec, lit: &str) -> (r: bool)
    ensures
        r == (st@.section == Some(lit@)),
{
    match &st.section {
        Some(v) => eq_lit(v, lit),
        None => false,
    }
}

fn fork_line_exec(fork: &ForkSpec, st: &mut ForkPassExec, l: &[char], out: &mut Vec<char>)
    ensures
        (final(st)@, final(out)@) == ({
            let (s2, add) = fork_line(*fork, old(st)@, l@);
            (s2, old(out)@ + add)
        }),
{
    let ghost o = out@;
    let ghost sv = st@;
    let k = lead_ws_len(l);
    proof {
        lemma_lead_ws(l@);
    }
    let t = slice_vec(l, k, l.len());
    let ind = slice_vec(l, 0, k);
    let open: [char; 1] = ['['];
    let close: [char; 1] = [']'];
    assert(open@ =~= "["@) by {
        reveal_strlit("[");
    }
    assert(close@ =~= "]"@) by {
        reveal_strlit("]");
    }
    let ghost res = fork_line(*fork, sv, l@);
    if has_prefix(&t, &open) && has_suffix(&t, &close) {
        let is_lib = eq_lit(&t, "[lib]");
        st.in_sub = false;
        st.section = Some(slice_vec(&t, 0, t.len()));
        assert(t@.subrange(0, t@.len() as int) =~= t@);
        st.saw_lib = st.saw_lib || is_lib;
        match find_fork_dep_subtable(&t) {
            Some(dep) => match alias_of_exec(&fork.internal_fork_deps, &dep) {
                Some(a) => {
                    st.in_sub = true;
                    extend(out, &ind);
                    extend_lit(out, "[dependencies.");
                    extend(out, &dep);
                    extend_lit(out, "]\n");
                    extend(out, &ind);
                    extend_lit(out, "version = \"");
                    extend(out, &to_chars(find_internal_dep_version(&dep)));
                    extend_lit(out, "\"\n");
                    extend(out, &ind);
                    extend_lit(out, "package = \"");
                    extend(out, &to_chars(a));
                    extend_lit(out, "\"\n");
                    extend(out, &ind);
                    extend_lit(out, "default-features = false\n");
                    assert(out@ =~= o + res.1);
                    return;
                },
                None => {},
            },
            None => {},
        }
        extend(out, l);
        extend_lit(out, "\n");
        if is_lib && !st.ensured {
            extend(out, &ind);
            extend_lit(out, "name = \"");
            extend(out, &to_chars(fork.lib_name));
            extend_lit(out, "\"\n");
            st.ensured = true;
        }
        assert(out@ =~= o + res.1);
        return;
    }
    if st.in_sub {
        assert(out@ =~= o + Seq::<char>::empty());
        return;
    }
    let is_name = starts_lit(&t, "name = ");
    if is_name && section_is(st, "[package]") {
        proof {
            reveal_strlit("name = ");
        }
        let value = trim_char_vec(&trim_vec(&slice_vec(&t, 7, t.len())), '"');
        if seq_eq(&value, &to_chars(fork.upstream_name)) {
            extend(out, &ind);
            extend_lit(out, "name = \"");
            extend_lit(out, "lemurclaw-");
            extend(out, &to_chars(fork.upstream_name));
            extend_lit(out, "\"\n");
            assert(out@ =~= o + res.1);
            return;
        }
    }
    if is_name && section_is(st, "[lib]") {
        assert(out@ =~= o + Seq::<char>::empty());
        return;
    }
    match rewrite_inline_fork_dep(&t, fork) {
        Some(rw) => {
            extend(out, &ind);
            extend(out, &rw);
            extend_lit(out, "\n");
        },
        None => {
            extend(out, l);
            extend_lit(out, "\n");
        },
    }
    assert(out@ =~= o + res.1);
}

/// Rewrites a fork's `Cargo.toml` for publication (see
/// [`spec_rewrite_fork_manifest`]).
pub fn rewrite_fork_manifest(raw: &str, fork: &ForkSpec) -> (r: String)
    ensures
        r@ == spec_rewrite_fork_manifest(raw@, *fork),
{
    let ls = split_lines(&to_chars(raw));
    let ghost lv = views(ls@);
    proof {
        assert(lv =~= lines(raw@));
    }
    let mut st = ForkPassExec { in_sub: false, section: None, saw_lib: false, ensured: false };
    let mut out: Vec<char> = Vec::new();
    let mut i: usize = 0;
    while i < ls.len()
        invariant
            i <= ls@.len(),
            lv == views(ls@),
            lv == lines(raw@),
            (st@, out@) == fork_fold(*fork, lv, i as int),
        decreases ls@.len() - i,
    {
        assert(lv[i as int] == ls@[i as int]@);
        fork_line_exec(fork, &mut st, &ls[i], &mut out);
        i = i + 1;
    }
    if !st.saw_lib {
        extend_lit(&mut out, "\n[lib]\n");
        extend_lit(&mut out, "name = \"");
        extend(&mut out, &to_chars(fork.lib_name));
        extend_lit(&mut out, "\"\n");
    }
    from_chars(&out)
}

// ---------------------------------------------------------------------------
// Rewriting a fork manifest twice
// ---------------------------------------------------------------------------

/// The pass over a list of lines from a given state.
pub open spec fn fork_run(fork: ForkSpec, st: ForkPass, ls: Seq<Seq<char>>) -> (ForkPass, Seq<char>)
    decreases ls.len(),
{
    if ls.len() == 0 {
        (st, seq![])
    } else {
        let (s1, out) = fork_run(fork, st, ls.drop_last());
        let (s2, add) = fork_line(fork, s1, ls.last());
        (s2, out + add)
    }
}

proof fn lemma_fold_is_run(fork: ForkSpec, ls: Seq<Seq<char>>, k: int)
    requires
        0 <= k <= ls.len(),
    ensures
        fork_fold(fork, ls, k) == fork_run(fork, fork_pass_start(), ls.take(k)),
    decreases k,
{
    if k > 0 {
        lemma_fold_is_run(fork, ls, k - 1);
        assert(ls.take(k).drop_last() =~= ls.take(k - 1));
        assert(ls.take(k).last() == ls[k - 1]);
    } else {
        assert(ls.take(k).len() == 0);
    }
}

proof fn lemma_run_concat(fork: ForkSpec, st: ForkPass, a: Seq<Seq<char>>, b: Seq<Seq<char>>)
    ensures
        fork_run(fork, st, a + b) == ({
            let (s1, o1) = fork_run(fork, st, a);
            let (s2, o2) = fork_run(fork, s1, b);
            (s2, o1 + o2)
        }),
    decreases b.len(),
{
    if b.len() == 0 {
        assert(a + b =~= a);
        assert(fork_run(fork, st, a).1 + Seq::<char>::empty() =~= fork_run(fork, st, a).1);
    } else {
        assert((a + b).drop_last() =~= a + b.drop_last());
        assert((a + b).last() == b.last());
        lemma_run_concat(fork, st, a, b.drop_last());
        let o1 = fork_run(fork, st, a).1;
        let o2 = fork_run(fork, fork_run(fork, st, a).0, b.drop_last()).1;
        let add = fork_line(fork, fork_run(fork, fork_run(fork, st, a).0, b.drop_last()).0, b.last()).1;
        assert(o1 + o2 + add =~= o1 + (o2 + add));
    }
}

/// Two pass states that act alike: they differ at most in the section
/// while lines are being dropped.
pub open spec fn pass_equiv(a: ForkPass, b: ForkPass) -> bool {
    &&& a.in_sub == b.in_sub
    &&& a.saw_lib == b.saw_lib
    &&& a.ensured == b.ensured
    &&& (a.in_sub || a.section == b.section)
}

proof fn lemma_run_equiv(fork: ForkSpec, a: ForkPass, b: ForkPass, ls: Seq<Seq<char>>)
    requires
        pass_equiv(a, b),
    ensures
        pass_equiv(fork_run(fork, a, ls).0, fork_run(fork, b, ls).0),
        fork_run(fork, a, ls).1 == fork_run(fork, b, ls).1,
    decreases ls.len(),
{
    if ls.len() > 0 {
        lemma_run_equiv(fork, a, b, ls.drop_last());
        let sa = fork_run(fork, a, ls.drop_last()).0;
        let sb = fork_run(fork, b, ls.drop_last()).0;
        if !sa.in_sub {
            assert(sa == sb);
        }
    }
}

/// The lines that [`fork_line`] writes for one line, each without its
/// newline.
pub open spec fn fork_line_lines(fork: ForkSpec, st: ForkPass, l: Seq<char>) -> Seq<Seq<char>> {
    let t = trim_start(l);
    let ind = l.take(lead_ws(l) as int);
    let deps = deps_view(fork.internal_fork_deps@);
    if starts_with(t, "["@) && ends_with(t, "]"@) {
        let is_lib = t == "[lib]"@;
        let alias = match spec_find_fork_dep_subtable(t) {
            Some(dep) => alias_of(deps, dep),
            None => None,
        };
        match alias {
            Some(a) => {
                let dep = spec_find_fork_dep_subtable(t)->Some_0;
                seq![
                    ind + "[dependencies."@ + dep + "]"@,
                    ind + "version = \""@ + spec_internal_dep_version(dep) + "\""@,
                    ind + "package = \""@ + a + "\""@,
                    ind + "default-features = false"@,
                ]
            },
            None => if is_lib && !st.ensured {
                seq![l, ind + "name = \""@ + fork.lib_name@ + "\""@]
            } else {
                seq![l]
            },
        }
    } else if st.in_sub {
        seq![]
    } else if st.section == Some("[package]"@) && starts_with(t, "name = "@) && trim_char(
        trim(t.skip(7)),
        '"',
    ) == fork.upstream_name@ {
        seq![ind + "name = \""@ + "lemurclaw-"@ + fork.upstream_name@ + "\""@]
    } else if st.section == Some("[lib]"@) && starts_with(t, "name = "@) {
        seq![]
    } else {
        match inline_fork_dep(t, deps) {
            Some(rw) => seq![ind + rw],
            None => seq![l],
        }
    }
}

proof fn lemma_unlines_small(a: Seq<char>, b: Seq<char>, c: Seq<char>, d: Seq<char>)
    ensures
        crate::text::unlines(seq![]) == Seq::<char>::empty(),
        crate::text::unlines(seq![a]) == a + seq!['\n'],
        crate::text::unlines(seq![a, b]) == a + seq!['\n'] + b + seq!['\n'],
        crate::text::unlines(seq![a, b, c, d]) == a + seq!['\n'] + b + seq!['\n'] + c + seq!['\n'] + d
            + seq!['\n'],
{
    reveal_with_fuel(crate::text::unlines, 5);
    assert(seq![a].drop_last() =~= Seq::<Seq<char>>::empty());
    assert(seq![a, b].drop_last() =~= seq![a]);
    assert(seq![a, b, c, d].drop_last() =~= seq![a, b, c]);
    assert(seq![a, b, c].drop_last() =~= seq![a, b]);
    assert(crate::text::unlines(seq![a]) =~= a + seq!['\n']);
    assert(crate::text::unlines(seq![a, b]) =~= a + seq!['\n'] + b + seq!['\n']);
    assert(crate::text::unlines(seq![a, b, c]) =~= a + seq!['\n'] + b + seq!['\n'] + c + seq!['\n']);
}

#[verifier::rlimit(40)]
proof fn lemma_fork_line_lines(fork: ForkSpec, st: ForkPass, l: Seq<char>)
    ensures
        crate::text::unlines(fork_line_lines(fork, st, l)) == fork_line(fork, st, l).1,
{
    reveal_strlit("]\n");
    reveal_strlit("]");
    reveal_strlit("\"\n");
    reveal_strlit("\"");
    reveal_strlit("default-features = false\n");
    reveal_strlit("default-features = false");
    reveal_strlit("\n");
    let t = trim_start(l);
    let ind = l.take(lead_ws(l) as int);
    let deps = deps_view(fork.internal_fork_deps@);
    let ls = fork_line_lines(fork, st, l);
    let out = fork_line(fork, st, l).1;
    if starts_with(t, "["@) && ends_with(t, "]"@) {
        let alias = match spec_find_fork_dep_subtable(t) {
            Some(dep) => alias_of(deps, dep),
            None => None,
        };
        match alias {
            Some(a) => {
                let dep = spec_find_fork_dep_subtable(t)->Some_0;
                let l0 = ind + "[dependencies."@ + dep + "]"@;
                let l1 = ind + "version = \""@ + spec_internal_dep_version(dep) + "\""@;
                let l2 = ind + "package = \""@ + a + "\""@;
                let l3 = ind + "default-features = false"@;
                lemma_unlines_small(l0, l1, l2, l3);
                assert(crate::text::unlines(ls) =~= out);
            },
            None => {
                let l1 = ind + "name = \""@ + fork.lib_name@ + "\""@;
                lemma_unlines_small(l, l1, l, l);
                if t == "[lib]"@ && !st.ensured {
                    assert(crate::text::unlines(ls) =~= out);
                } else {
                    assert(crate::text::unlines(ls) =~= out);
                }
            },
        }
    } else if st.in_sub {
        lemma_unlines_small(l, l, l, l);
    } else {
        let l0 = ind + "name = \""@ + "lemurclaw-"@ + fork.upstream_name@ + "\""@;
        lemma_unlines_small(l0, l, l, l);
        if st.section == Some("[package]"@) && starts_with(t, "name = "@) && trim_char(
            trim(t.skip(7)),
            '"',
        ) == fork.upstream_name@ {
            assert(crate::text::unlines(ls) =~= out);
        } else if st.section == Some("[lib]"@) && starts_with(t, "name = "@) {
        } else {
            match inline_fork_dep(t, deps) {
                Some(rw) => {
                    lemma_unlines_small(ind + rw, l, l, l);
                    assert(crate::text::unlines(ls) =~= out);
                },
                None => {
                    lemma_unlines_small(l, l, l, l);
                    assert(crate::text::unlines(ls) =~= out);
                },
            }
        }
    }
}

/// A name made of bare-key characters only.
pub open spec fn bare_name(s: Seq<char>) -> bool {
    s.len() > 0 && forall|j: int| 0 <= j < s.len() ==> crate::manifest::is_key_char(#[trigger] s[j])
}

/// The names of a fork (upstream package, lib name, sibling dependency keys
/// and their published names) are bare names.
pub open spec fn fork_names_ok(fork: ForkSpec) -> bool {
    &&& bare_name(fork.upstream_name@)
    &&& bare_name(fork.lib_name@)
    &&& forall|i: int|
        0 <= i < fork.internal_fork_deps@.len() ==> bare_name(
            #[trigger] deps_view(fork.internal_fork_deps@)[i].0,
        ) && bare_name(deps_view(fork.internal_fork_deps@)[i].1)
}

pub open spec fn deps_bare(deps: Seq<(Seq<char>, Seq<char>)>) -> bool {
    forall|i: int| 0 <= i < deps.len() ==> bare_name(#[trigger] deps[i].0) && bare_name(deps[i].1)
}

proof fn lemma_bare_facts(s: Seq<char>)
    requires
        bare_name(s),
    ensures
        crate::text::no_newline(s),
        forall|j: int|
            0 <= j < s.len() ==> {
                let c = #[trigger] s[j];
                c != '{' && c != '}' && c != '"' && c != '[' && c != '\r' && c != ' ' && c != '='
                    && !crate::text::is_ws(c)
            },
{
}

/// `k = {` of a bare key `k` has its only brace at its end.
proof fn lemma_brace_prefix(s: Seq<char>, t: Seq<char>, k0: Seq<char>, kj: Seq<char>)
    requires
        bare_name(k0),
        bare_name(kj),
        starts_with(s, k0 + " = {"@),
        starts_with(t, k0 + " = {"@),
        starts_with(s, kj + " = {"@),
    ensures
        starts_with(t, kj + " = {"@),
{
    reveal_strlit(" = {");
    lemma_bare_facts(k0);
    lemma_bare_facts(kj);
    let p0 = k0 + " = {"@;
    let pj = kj + " = {"@;
    if pj.len() <= p0.len() {
        assert(t.subrange(0, pj.len() as int) =~= s.subrange(0, pj.len() as int)) by {
            assert forall|m: int| 0 <= m < pj.len() implies t.subrange(0, pj.len() as int)[m] == s.subrange(0, pj.len() as int)[m] by {
                assert(t.subrange(0, p0.len() as int)[m] == t[m]);
                assert(s.subrange(0, p0.len() as int)[m] == s[m]);
            }
        }
    } else {
        let m = p0.len() - 1;
        crate::text::lemma_prefix_agree(s, p0, pj, m);
        assert(p0[m] == '{');
        if m < kj.len() {
            assert(pj[m] == kj[m]);
        } else {
            assert(pj[m] == " = {"@[m - kj.len()]);
        }
        assert(false);
    }
}

/// A text without `{` is no inline sibling-fork dependency.
proof fn lemma_inline_no_brace(t: Seq<char>, deps: Seq<(Seq<char>, Seq<char>)>)
    requires
        forall|j: int| 0 <= j < t.len() ==> t[j] != '{',
    ensures
        inline_fork_dep(t, deps) is None,
    decreases deps.len(),
{
    reveal_strlit(" = {");
    if deps.len() > 0 {
        let p = deps[0].0 + " = {"@;
        if starts_with(t, p) {
            assert(t.subrange(0, p.len() as int)[p.len() - 1] == t[p.len() - 1]);
        }
        lemma_inline_no_brace(t, deps.drop_first());
    }
}

/// What an inline sibling-fork rewrite gives: a text that starts with the
/// same `k = {` as the original, names a package, and is rewritten to
/// itself.
proof fn lemma_inline_fixed(t: Seq<char>, deps: Seq<(Seq<char>, Seq<char>)>) -> (k0: Seq<char>)
    requires
        deps_bare(deps),
        inline_fork_dep(t, deps) is Some,
    ensures
        inline_fork_dep(inline_fork_dep(t, deps)->Some_0, deps) == inline_fork_dep(t, deps),
        bare_name(k0),
        starts_with(t, k0 + " = {"@),
        starts_with(inline_fork_dep(t, deps)->Some_0, k0 + " = {"@),
        contains(inline_fork_dep(t, deps)->Some_0, "package ="@),
        inline_fork_dep(t, deps)->Some_0 != t ==> (inline_fork_dep(t, deps)->Some_0).last() == '}',
        crate::text::no_newline(t) ==> crate::text::no_newline(inline_fork_dep(t, deps)->Some_0),
    decreases deps.len(),
{
    reveal_strlit(" = {");
    reveal_strlit("package = \"");
    reveal_strlit("package =");
    reveal_strlit("\" }");
    reveal_strlit("{");
    reveal_strlit(", ");
    let rw = inline_fork_dep(t, deps)->Some_0;
    let d0 = deps[0];
    assert(bare_name(deps[0].0) && bare_name(deps[0].1));
    lemma_bare_facts(d0.0);
    lemma_bare_facts(d0.1);
    let p = d0.0 + " = {"@;
    if starts_with(t, p) {
        if contains(t, "package ="@) {
            d0.0
        } else {
            let c = rfind_char(t, '}')->Some_0;
            crate::text::lemma_rfind_char_before(t, '}', t.len() as int);
            if c < p.len() {
                assert(t.subrange(0, p.len() as int)[c] == t[c]);
                if c < d0.0.len() {
                    assert(p[c] == d0.0[c]);
                } else {
                    assert(p[c] == " = {"@[c - d0.0.len()]);
                }
                assert(false);
            }
            let tc = t.take(c);
            assert(tc.subrange(0, p.len() as int) =~= t.subrange(0, p.len() as int));
            assert(p.last() == '{');
            crate::text::lemma_trim_keeps_prefix(tc, p);
            let b0 = trim_end_char(trim_end(tc), ',');
            let before = if ends_with(b0, "{"@) {
                b0
            } else {
                b0 + ", "@
            };
            assert(before.subrange(0, p.len() as int) =~= b0.subrange(0, p.len() as int));
            assert(rw == before + "package = \""@ + d0.1 + "\" }"@);
            assert(rw.subrange(0, p.len() as int) =~= p);
            let pos = before.len() as int;
            assert(rw.subrange(pos, pos + 9) =~= "package ="@);
            crate::text::lemma_contains_at(rw, pos, "package ="@);
            assert(rw.last() == '}');
            if crate::text::no_newline(t) {
                crate::text::lemma_no_newline_sub(t, 0, c);
                crate::text::lemma_no_newline_sub(tc, 0, b0.len() as int);
                assert(b0 =~= tc.subrange(0, b0.len() as int));
                crate::text::lemma_no_newline_add(b0, ", "@);
                crate::text::lemma_no_newline_add(before, "package = \""@);
                crate::text::lemma_no_newline_add(before + "package = \""@, d0.1);
                crate::text::lemma_no_newline_add(before + "package = \""@ + d0.1, "\" }"@);
            }
            d0.0
        }
    } else {
        let rest = deps.drop_first();
        assert forall|i: int| 0 <= i < rest.len() implies bare_name(#[trigger] rest[i].0) && bare_name(rest[i].1) by {
            assert(rest[i] == deps[i + 1]);
        }
        let k0 = lemma_inline_fixed(t, rest);
        if starts_with(rw, p) {
            lemma_brace_prefix(rw, t, k0, d0.0);
        }
        k0
    }
}

proof fn lemma_run_small(fork: ForkSpec, st: ForkPass, a: Seq<char>, b: Seq<char>, c: Seq<char>, d: Seq<char>)
    ensures
        fork_run(fork, st, seq![]) == (st, Seq::<char>::empty()),
        fork_run(fork, st, seq![a]) == fork_line(fork, st, a),
        fork_run(fork, st, seq![a, b]) == ({
            let (s1, o1) = fork_line(fork, st, a);
            let (s2, o2) = fork_line(fork, s1, b);
            (s2, o1 + o2)
        }),
        fork_run(fork, st, seq![a, b, c, d]) == ({
            let (s1, o1) = fork_line(fork, st, a);
            let (s2, o2) = fork_line(fork, s1, b);
            let (s3, o3) = fork_line(fork, s2, c);
            let (s4, o4) = fork_line(fork, s3, d);
            (s4, o1 + o2 + o3 + o4)
        }),
{
    reveal_with_fuel(fork_run, 5);
    assert(seq![a].drop_last() =~= Seq::<Seq<char>>::empty());
    assert(seq![a, b].drop_last() =~= seq![a]);
    assert(seq![a, b, c].drop_last() =~= seq![a, b]);
    assert(seq![a, b, c, d].drop_last() =~= seq![a, b, c]);
    assert(Seq::<char>::empty() + fork_line(fork, st, a).1 =~= fork_line(fork, st, a).1);
}

proof fn lemma_alias_of_bare(deps: Seq<(Seq<char>, Seq<char>)>, dep: Seq<char>)
    requires
        deps_bare(deps),
    ensures
        alias_of(deps, dep) matches Some(a) ==> bare_name(a),
    decreases deps.len(),
{
    if deps.len() > 0 {
        assert(bare_name(deps[0].1));
        let rest = deps.drop_first();
        assert forall|i: int| 0 <= i < rest.len() implies bare_name(#[trigger] rest[i].0) && bare_name(rest[i].1) by {
            assert(rest[i] == deps[i + 1]);
        }
        lemma_alias_of_bare(rest, dep);
    }
}

/// A text that starts with `k = {` for a bare `k` starts with `name = `
/// only when `k` is `name`, its brace then standing right after.
proof fn lemma_name_prefix(rw: Seq<char>, k0: Seq<char>)
    requires
        bare_name(k0),
        starts_with(rw, k0 + " = {"@),
        starts_with(rw, "name = "@),
    ensures
        k0.len() == 4,
        rw[7] == '{',
        starts_with(k0 + " = {"@, "name = "@),
{
    reveal_strlit(" = {");
    reveal_strlit("name = ");
    lemma_bare_facts(k0);
    let p0 = k0 + " = {"@;
    let n = k0.len() as int;
    crate::text::lemma_prefix_agree(rw, p0, "name = "@, if n + 1 < 7 { n + 1 } else { 4 });
    if n + 1 >= 7 {
        assert(p0[4] == k0[4]);
        assert(false);
    }
    assert(p0[n + 1] == '=');
    assert(n == 4);
    assert(rw.subrange(0, p0.len() as int)[7] == rw[7]);
    assert(p0.subrange(0, 7) =~= rw.subrange(0, 7));
}

/// Whether a line is a sibling-fork sub-table header of `fork`.
pub open spec fn is_fork_subtable_header(fork: ForkSpec, l: Seq<char>) -> bool {
    let t = trim_start(l);
    &&& starts_with(t, "["@) && ends_with(t, "]"@)
    &&& spec_find_fork_dep_subtable(t) is Some
    &&& alias_of(deps_view(fork.internal_fork_deps@), spec_find_fork_dep_subtable(t)->Some_0) is Some
}

proof fn lemma_replay_subtable(fork: ForkSpec, st: ForkPass, l: Seq<char>)
    requires
        fork_names_ok(fork),
        crate::text::plain_line(l),
        is_fork_subtable_header(fork, l),
    ensures
        fork_run(fork, st, fork_line_lines(fork, st, l)).1 == fork_line(fork, st, l).1,
        pass_equiv(fork_run(fork, st, fork_line_lines(fork, st, l)).0, fork_line(fork, st, l).0),
        forall|k: int|
            0 <= k < fork_line_lines(fork, st, l).len() ==> #[trigger] crate::text::plain_line(
                fork_line_lines(fork, st, l)[k],
            ),
{
    reveal_strlit("[");
    reveal_strlit("]");
    reveal_strlit("[lib]");
    reveal_strlit("[dependencies.");
    reveal_strlit("[dev-dependencies.");
    reveal_strlit("[build-dependencies.");
    reveal_strlit("version = \"");
    reveal_strlit("package = \"");
    reveal_strlit("default-features = false");
    reveal_strlit("\"");
    reveal_strlit("0.28.1");
    reveal_strlit("0.27.0");
    reveal_strlit("0.0.0");
    let deps = deps_view(fork.internal_fork_deps@);
    let t = trim_start(l);
    crate::text::lemma_lead_ws(l);
    let lw = lead_ws(l) as int;
    let ind = l.take(lw);
    assert(l =~= ind + t);
    let dep = spec_find_fork_dep_subtable(t)->Some_0;
    let a = alias_of(deps, dep)->Some_0;
    assert(deps_bare(deps));
    lemma_alias_of_bare(deps, dep);
    lemma_bare_facts(a);
    let ver = spec_internal_dep_version(dep);
    let th = "[dependencies."@ + dep + "]"@;
    let h = ind + th;
    let v = ind + ("version = \""@ + ver + "\""@);
    let pk = ind + ("package = \""@ + a + "\""@);
    let d = ind + "default-features = false"@;
    assert(fork_line_lines(fork, st, l) =~= seq![h, v, pk, d]) by {
        assert(h =~= ind + "[dependencies."@ + dep + "]"@);
        assert(v =~= ind + "version = \""@ + ver + "\""@);
        assert(pk =~= ind + "package = \""@ + a + "\""@);
    }
    assert(t.len() >= 14);
    assert(t != "[lib]"@);
    // The header line rewrites to the same text.
    crate::text::lemma_lead_ws_concat(ind, th);
    assert(h.take(lead_ws(h) as int) =~= ind);
    assert(th.subrange(0, 1) =~= "["@);
    assert(th.subrange(th.len() - 1, th.len() as int) =~= "]"@);
    assert(th.subrange(0, 14) =~= "[dependencies."@);
    assert(th.skip(14).subrange(th.skip(14).len() - 1, th.skip(14).len() as int) =~= "]"@);
    assert(th.skip(14).drop_last() =~= dep);
    assert(spec_find_fork_dep_subtable(th) == Some(dep));
    assert(th != "[lib]"@);
    let s1 = fork_line(fork, st, h).0;
    assert(s1.in_sub);
    assert(fork_line(fork, st, h).1 == fork_line(fork, st, l).1);
    // The three lines under it are dropped.
    crate::text::lemma_lead_ws_concat(ind, "version = \""@ + ver + "\""@);
    crate::text::lemma_lead_ws_concat(ind, "package = \""@ + a + "\""@);
    crate::text::lemma_lead_ws_concat(ind, "default-features = false"@);
    assert(!starts_with("version = \""@ + ver + "\""@, "["@)) by {
        assert(("version = \""@ + ver + "\""@).subrange(0, 1)[0] == 'v');
    }
    assert(!starts_with("package = \""@ + a + "\""@, "["@)) by {
        assert(("package = \""@ + a + "\""@).subrange(0, 1)[0] == 'p');
    }
    assert(!starts_with("default-features = false"@, "["@)) by {
        assert(("default-features = false"@).subrange(0, 1)[0] == 'd');
    }
    lemma_run_small(fork, st, h, v, pk, d);
    assert(fork_line(fork, s1, v) == (s1, Seq::<char>::empty()));
    assert(fork_line(fork, s1, pk) == (s1, Seq::<char>::empty()));
    assert(fork_line(fork, s1, d) == (s1, Seq::<char>::empty()));
    assert(fork_line(fork, st, l).1 + Seq::<char>::empty() + Seq::<char>::empty() + Seq::<char>::empty()
        =~= fork_line(fork, st, l).1);
    // The written lines are plain.
    assert(crate::text::no_newline(l));
    crate::text::lemma_no_newline_sub(l, 0, lw);
    crate::text::lemma_no_newline_trims(l, ' ');
    if starts_with(t, "[dependencies."@) {
        assert(t.skip(14).subrange(t.len() - 15, t.len() - 14) =~= t.subrange(t.len() - 1, t.len() as int));
        crate::text::lemma_no_newline_sub(t, 14, t.len() - 1);
        assert(dep =~= t.subrange(14, t.len() - 1));
    } else if starts_with(t, "[dev-dependencies."@) {
        assert(t.skip(18).subrange(t.len() - 19, t.len() - 18) =~= t.subrange(t.len() - 1, t.len() as int));
        crate::text::lemma_no_newline_sub(t, 18, t.len() - 1);
        assert(dep =~= t.subrange(18, t.len() - 1));
    } else {
        assert(t.skip(20).subrange(t.len() - 21, t.len() - 20) =~= t.subrange(t.len() - 1, t.len() as int));
        crate::text::lemma_no_newline_sub(t, 20, t.len() - 1);
        assert(dep =~= t.subrange(20, t.len() - 1));
    }
    crate::text::lemma_no_newline_add(ind, "[dependencies."@);
    crate::text::lemma_no_newline_add("[dependencies."@, dep);
    crate::text::lemma_no_newline_add("[dependencies."@ + dep, "]"@);
    crate::text::lemma_no_newline_add(ind, th);
    crate::text::lemma_no_newline_add("version = \""@, ver);
    crate::text::lemma_no_newline_add("version = \""@ + ver, "\""@);
    crate::text::lemma_no_newline_add(ind, "version = \""@ + ver + "\""@);
    crate::text::lemma_no_newline_add("package = \""@, a);
    crate::text::lemma_no_newline_add("package = \""@ + a, "\""@);
    crate::text::lemma_no_newline_add(ind, "package = \""@ + a + "\""@);
    crate::text::lemma_no_newline_add(ind, "default-features = false"@);
    assert(h.last() == ']');
    assert(v.last() == '"');
    assert(pk.last() == '"');
    assert(d.last() == 'e');
}

proof fn lemma_replay_lib(fork: ForkSpec, st: ForkPass, l: Seq<char>)
    requires
        fork_names_ok(fork),
        crate::text::plain_line(l),
        trim_start(l) == "[lib]"@,
        !st.ensured,
    ensures
        fork_run(fork, st, fork_line_lines(fork, st, l)).1 == fork_line(fork, st, l).1,
        fork_run(fork, st, fork_line_lines(fork, st, l)).0 == fork_line(fork, st, l).0,
        forall|k: int|
            0 <= k < fork_line_lines(fork, st, l).len() ==> #[trigger] crate::text::plain_line(
                fork_line_lines(fork, st, l)[k],
            ),
{
    reveal_strlit("[");
    reveal_strlit("]");
    reveal_strlit("[lib]");
    reveal_strlit("[package]");
    reveal_strlit("[dependencies.");
    reveal_strlit("[dev-dependencies.");
    reveal_strlit("[build-dependencies.");
    reveal_strlit("name = \"");
    reveal_strlit("name = ");
    reveal_strlit("\"");
    let t = trim_start(l);
    crate::text::lemma_lead_ws(l);
    let lw = lead_ws(l) as int;
    let ind = l.take(lw);
    assert(t.subrange(0, 1) =~= "["@);
    assert(t.subrange(t.len() - 1, t.len() as int) =~= "]"@);
    assert(spec_find_fork_dep_subtable(t) is None);
    let body = "name = \""@ + fork.lib_name@ + "\""@;
    let n = ind + body;
    assert(fork_line_lines(fork, st, l) =~= seq![l, n]) by {
        assert(n =~= ind + "name = \""@ + fork.lib_name@ + "\""@);
    }
    let s1 = fork_line(fork, st, l).0;
    assert(s1.section == Some("[lib]"@) && !s1.in_sub);
    crate::text::lemma_lead_ws_concat(ind, body);
    assert(!starts_with(body, "["@)) by {
        assert(body.subrange(0, 1)[0] == 'n');
    }
    assert(body.subrange(0, 7) =~= "name = "@);
    assert(Some("[lib]"@) != Some("[package]"@)) by {
        assert("[lib]"@.len() != "[package]"@.len());
    }
    lemma_run_small(fork, st, l, n, l, l);
    assert(fork_line(fork, s1, n) == (s1, Seq::<char>::empty()));
    assert(fork_line(fork, st, l).1 + Seq::<char>::empty() =~= fork_line(fork, st, l).1);
    assert(crate::text::no_newline(l));
    crate::text::lemma_no_newline_sub(l, 0, lw);
    lemma_bare_facts(fork.lib_name@);
    crate::text::lemma_no_newline_add("name = \""@, fork.lib_name@);
    crate::text::lemma_no_newline_add("name = \""@ + fork.lib_name@, "\""@);
    crate::text::lemma_no_newline_add(ind, body);
    assert(n.last() == '"');
}

proof fn lemma_replay_package_name(fork: ForkSpec, st: ForkPass, l: Seq<char>)
    requires
        fork_names_ok(fork),
        crate::text::plain_line(l),
        !(starts_with(trim_start(l), "["@) && ends_with(trim_start(l), "]"@)),
        !st.in_sub,
        st.section == Some("[package]"@),
        starts_with(trim_start(l), "name = "@),
        trim_char(trim(trim_start(l).skip(7)), '"') == fork.upstream_name@,
    ensures
        fork_run(fork, st, fork_line_lines(fork, st, l)).1 == fork_line(fork, st, l).1,
        fork_run(fork, st, fork_line_lines(fork, st, l)).0 == fork_line(fork, st, l).0,
        forall|k: int|
            0 <= k < fork_line_lines(fork, st, l).len() ==> #[trigger] crate::text::plain_line(
                fork_line_lines(fork, st, l)[k],
            ),
{
    reveal_strlit("[");
    reveal_strlit("[lib]");
    reveal_strlit("[package]");
    reveal_strlit("name = \"");
    reveal_strlit("name = ");
    reveal_strlit("lemurclaw-");
    reveal_strlit("\"");
    let up = fork.upstream_name@;
    lemma_bare_facts(up);
    let t = trim_start(l);
    crate::text::lemma_lead_ws(l);
    let lw = lead_ws(l) as int;
    let ind = l.take(lw);
    let body = "name = \""@ + "lemurclaw-"@ + up + "\""@;
    let n2 = ind + body;
    assert(fork_line_lines(fork, st, l) =~= seq![n2]) by {
        assert(n2 =~= ind + "name = \""@ + "lemurclaw-"@ + up + "\""@);
    }
    crate::text::lemma_lead_ws_concat(ind, body);
    assert(!starts_with(body, "["@)) by {
        assert(body.subrange(0, 1)[0] == 'n');
    }
    assert(body.subrange(0, 7) =~= "name = "@);
    // The renamed package no longer reads as the upstream name.
    let x = body.skip(7);
    assert(x =~= "\""@ + "lemurclaw-"@ + up + "\""@);
    assert(lead_ws(x) == 0);
    assert(crate::text::trail_ws(x) == 0);
    assert(trim(x) =~= x);
    let y = x.drop_first();
    assert(y[0] == 'l');
    assert(crate::text::lead_run(y, '"') == 0);
    assert(crate::text::lead_run(x, '"') == 1);
    let z = crate::text::trim_start_char(x, '"');
    assert(z =~= "lemurclaw-"@ + up + "\""@);
    assert(z.drop_last() =~= "lemurclaw-"@ + up);
    assert(z.drop_last().last() == up.last());
    assert(crate::text::trail_run(z.drop_last(), '"') == 0);
    assert(crate::text::trail_run(z, '"') == 1);
    assert(trim_char(trim(x), '"').len() == up.len() + 10);
    assert(Some("[package]"@) != Some("[lib]"@)) by {
        assert("[lib]"@.len() != "[package]"@.len());
    }
    assert forall|j: int| 0 <= j < body.len() implies body[j] != '{' by {
        if j >= 18 && j < 18 + up.len() {
            assert(body[j] == up[j - 18]);
        }
    }
    lemma_inline_no_brace(body, deps_view(fork.internal_fork_deps@));
    lemma_run_small(fork, st, n2, l, l, l);
    reveal_strlit("\"\n");
    reveal_strlit("\n");
    assert(trim_start(n2) == body);
    assert(trim_char(trim(body.skip(7)), '"') != up);
    assert(fork_line(fork, st, n2).1 == n2 + "\n"@);
    assert(n2 + "\n"@ =~= ind + "name = \""@ + "lemurclaw-"@ + up + "\"\n"@);
    assert(crate::text::no_newline(l));
    crate::text::lemma_no_newline_sub(l, 0, lw);
    crate::text::lemma_no_newline_add("name = \""@, "lemurclaw-"@);
    crate::text::lemma_no_newline_add("name = \""@ + "lemurclaw-"@, up);
    crate::text::lemma_no_newline_add("name = \""@ + "lemurclaw-"@ + up, "\""@);
    crate::text::lemma_no_newline_add(ind, body);
    assert(n2.last() == '"');
}

#[verifier::rlimit(40)]
proof fn lemma_replay_inline(fork: ForkSpec, st: ForkPass, l: Seq<char>)
    requires
        fork_names_ok(fork),
        crate::text::plain_line(l),
        !(starts_with(trim_start(l), "["@) && ends_with(trim_start(l), "]"@)),
        !st.in_sub,
        !(st.section == Some("[package]"@) && starts_with(trim_start(l), "name = "@) && trim_char(
            trim(trim_start(l).skip(7)),
            '"',
        ) == fork.upstream_name@),
        !(st.section == Some("[lib]"@) && starts_with(trim_start(l), "name = "@)),
        inline_fork_dep(trim_start(l), deps_view(fork.internal_fork_deps@)) is Some,
    ensures
        fork_run(fork, st, fork_line_lines(fork, st, l)).1 == fork_line(fork, st, l).1,
        fork_run(fork, st, fork_line_lines(fork, st, l)).0 == fork_line(fork, st, l).0,
        forall|k: int|
            0 <= k < fork_line_lines(fork, st, l).len() ==> #[trigger] crate::text::plain_line(
                fork_line_lines(fork, st, l)[k],
            ),
{
    reveal_strlit("[");
    reveal_strlit(" = {");
    reveal_strlit("name = ");
    let deps = deps_view(fork.internal_fork_deps@);
    let t = trim_start(l);
    crate::text::lemma_lead_ws(l);
    let lw = lead_ws(l) as int;
    let ind = l.take(lw);
    assert(l =~= ind + t);
    let rw = inline_fork_dep(t, deps)->Some_0;
    let y = ind + rw;
    assert(fork_line_lines(fork, st, l) =~= seq![y]);
    lemma_run_small(fork, st, y, l, l, l);
    if rw == t {
        assert(y == l);
    } else {
        assert(deps_bare(deps));
        let k0 = lemma_inline_fixed(t, deps);
        lemma_bare_facts(k0);
        let p0 = k0 + " = {"@;
        assert(rw.subrange(0, p0.len() as int)[0] == rw[0]);
        assert(rw[0] == k0[0]);
        crate::text::lemma_lead_ws_concat(ind, rw);
        assert(y.take(lead_ws(y) as int) =~= ind);
        assert(!starts_with(rw, "["@)) by {
            assert(rw.subrange(0, 1)[0] == rw[0]);
        }
        if starts_with(rw, "name = "@) {
            lemma_name_prefix(rw, k0);
            let x = rw.skip(7);
            assert(x[0] == '{');
            assert(x.last() == '}');
            assert(lead_ws(x) == 0);
            assert(crate::text::trail_ws(x) == 0);
            assert(trim(x) =~= x);
            assert(crate::text::lead_run(x, '"') == 0);
            assert(crate::text::trail_run(x, '"') == 0);
            assert(trim_char(x, '"') =~= x);
            lemma_bare_facts(fork.upstream_name@);
            assert(x[0] != fork.upstream_name@[0]);
            assert(t.subrange(0, 7) =~= p0.subrange(0, 7)) by {
                assert forall|m: int| 0 <= m < 7 implies t.subrange(0, 7)[m] == p0.subrange(0, 7)[m] by {
                    assert(t.subrange(0, p0.len() as int)[m] == t[m]);
                }
            }
            assert(starts_with(t, "name = "@));
        }
        assert(fork_line(fork, st, y).1 == fork_line(fork, st, l).1);
        assert(crate::text::no_newline(l));
        crate::text::lemma_no_newline_trims(l, ' ');
        crate::text::lemma_no_newline_sub(l, 0, lw);
        crate::text::lemma_no_newline_add(ind, rw);
    }
}

/// Reading back the lines that [`fork_line`] wrote for one line gives the
/// same text, from a state that acts like the one it left.
proof fn lemma_fork_line_replay(fork: ForkSpec, st: ForkPass, l: Seq<char>)
    requires
        fork_names_ok(fork),
        crate::text::plain_line(l),
    ensures
        fork_run(fork, st, fork_line_lines(fork, st, l)).1 == fork_line(fork, st, l).1,
        pass_equiv(fork_run(fork, st, fork_line_lines(fork, st, l)).0, fork_line(fork, st, l).0),
        forall|k: int|
            0 <= k < fork_line_lines(fork, st, l).len() ==> #[trigger] crate::text::plain_line(
                fork_line_lines(fork, st, l)[k],
            ),
{
    let t = trim_start(l);
    let deps = deps_view(fork.internal_fork_deps@);
    lemma_run_small(fork, st, l, l, l, l);
    assert(Seq::<char>::empty() + Seq::<char>::empty() =~= Seq::<char>::empty());
    if starts_with(t, "["@) && ends_with(t, "]"@) {
        if is_fork_subtable_header(fork, l) {
            lemma_replay_subtable(fork, st, l);
        } else if t == "[lib]"@ && !st.ensured {
            lemma_replay_lib(fork, st, l);
        } else {
            assert(fork_line_lines(fork, st, l) =~= seq![l]);
        }
    } else if st.in_sub {
        assert(fork_line_lines(fork, st, l) =~= Seq::<Seq<char>>::empty());
    } else if st.section == Some("[package]"@) && starts_with(t, "name = "@) && trim_char(
        trim(t.skip(7)),
        '"',
    ) == fork.upstream_name@ {
        lemma_replay_package_name(fork, st, l);
    } else if st.section == Some("[lib]"@) && starts_with(t, "name = "@) {
        assert(fork_line_lines(fork, st, l) =~= Seq::<Seq<char>>::empty());
    } else if inline_fork_dep(t, deps) is Some {
        lemma_replay_inline(fork, st, l);
    } else {
        assert(fork_line_lines(fork, st, l) =~= seq![l]);
    }
}

proof fn lemma_unlines_concat(a: Seq<Seq<char>>, b: Seq<Seq<char>>)
    ensures
        crate::text::unlines(a + b) == crate::text::unlines(a) + crate::text::unlines(b),
    decreases b.len(),
{
    if b.len() == 0 {
        assert(a + b =~= a);
        assert(crate::text::unlines(a) + Seq::<char>::empty() =~= crate::text::unlines(a));
    } else {
        assert((a + b).drop_last() =~= a + b.drop_last());
        assert((a + b).last() == b.last());
        lemma_unlines_concat(a, b.drop_last());
        assert(crate::text::unlines(a) + crate::text::unlines(b.drop_last()) + b.last() + seq!['\n']
            =~= crate::text::unlines(a) + (crate::text::unlines(b.drop_last()) + b.last() + seq!['\n']));
    }
}

/// The lines that the rewrite of a fork manifest writes for its lines (the
/// closing `[lib]` section aside), each without its newline.
pub open spec fn fork_kept_lines(fork: ForkSpec, ls: Seq<Seq<char>>) -> Seq<Seq<char>>
    decreases ls.len(),
{
    if ls.len() == 0 {
        seq![]
    } else {
        fork_kept_lines(fork, ls.drop_last()) + fork_line_lines(
            fork,
            fork_run(fork, fork_pass_start(), ls.drop_last()).0,
            ls.last(),
        )
    }
}

proof fn lemma_fork_second_pass(fork: ForkSpec, ls: Seq<Seq<char>>)
    requires
        fork_names_ok(fork),
        forall|k: int| 0 <= k < ls.len() ==> #[trigger] crate::text::plain_line(ls[k]),
    ensures
        fork_run(fork, fork_pass_start(), ls).1 == crate::text::unlines(fork_kept_lines(fork, ls)),
        fork_run(fork, fork_pass_start(), fork_kept_lines(fork, ls)).1 == fork_run(
            fork,
            fork_pass_start(),
            ls,
        ).1,
        pass_equiv(
            fork_run(fork, fork_pass_start(), fork_kept_lines(fork, ls)).0,
            fork_run(fork, fork_pass_start(), ls).0,
        ),
        forall|k: int|
            0 <= k < fork_kept_lines(fork, ls).len() ==> #[trigger] crate::text::plain_line(
                fork_kept_lines(fork, ls)[k],
            ),
        fork_run(fork, fork_pass_start(), ls).0.ensured ==> fork_run(fork, fork_pass_start(), ls).0.saw_lib,
    decreases ls.len(),
{
    let start = fork_pass_start();
    if ls.len() == 0 {
        assert(crate::text::unlines(Seq::<Seq<char>>::empty()) == Seq::<char>::empty());
    } else {
        let prev = ls.drop_last();
        assert forall|k: int| 0 <= k < prev.len() implies #[trigger] crate::text::plain_line(prev[k]) by {
            assert(prev[k] == ls[k]);
        }
        lemma_fork_second_pass(fork, prev);
        let l = ls.last();
        assert(crate::text::plain_line(ls[ls.len() - 1]));
        let st = fork_run(fork, start, prev).0;
        let kp = fork_kept_lines(fork, prev);
        let piece = fork_line_lines(fork, st, l);
        lemma_unlines_concat(kp, piece);
        lemma_fork_line_lines(fork, st, l);
        lemma_run_concat(fork, start, kp, piece);
        let s1 = fork_run(fork, start, kp).0;
        lemma_run_equiv(fork, s1, st, piece);
        lemma_fork_line_replay(fork, st, l);
        let kk = kp + piece;
        assert forall|k: int| 0 <= k < kk.len() implies #[trigger] crate::text::plain_line(kk[k]) by {
            if k < kp.len() {
                assert(kk[k] == kp[k]);
            } else {
                assert(kk[k] == piece[k - kp.len()]);
            }
        }
    }
}


/// The `[lib]` section appended to a manifest that had none, line by line.
pub open spec fn lib_tail(fork: ForkSpec) -> Seq<Seq<char>> {
    seq![Seq::<char>::empty(), "[lib]"@, "name = \""@ + fork.lib_name@ + "\""@]
}

#[verifier::rlimit(40)]
proof fn lemma_lib_tail(fork: ForkSpec, st: ForkPass)
    requires
        fork_names_ok(fork),
        !st.in_sub,
        !st.ensured,
    ensures
        crate::text::unlines(lib_tail(fork)) == "\n[lib]\n"@ + "name = \""@ + fork.lib_name@ + "\"\n"@,
        forall|k: int| 0 <= k < lib_tail(fork).len() ==> #[trigger] crate::text::plain_line(lib_tail(fork)[k]),
        fork_run(fork, st, lib_tail(fork)).1 == "\n[lib]\n"@ + "name = \""@ + fork.lib_name@ + "\"\n"@,
        fork_run(fork, st, lib_tail(fork)).0.saw_lib,
{
    reveal_strlit("\n[lib]\n");
    reveal_strlit("name = \"");
    reveal_strlit("\"\n");
    reveal_strlit("[lib]");
    reveal_strlit("[");
    reveal_strlit("]");
    reveal_strlit("\n");
    reveal_strlit("\"");
    reveal_strlit("name = ");
    reveal_strlit("[package]");
    reveal_strlit("[dependencies.");
    reveal_strlit("[dev-dependencies.");
    reveal_strlit("[build-dependencies.");
    let lib = fork.lib_name@;
    lemma_bare_facts(lib);
    let e = Seq::<char>::empty();
    let lb = "[lib]"@;
    let nm = "name = \""@ + lib + "\""@;
    let tail = lib_tail(fork);
    reveal_with_fuel(crate::text::unlines, 4);
    assert(tail.drop_last() =~= seq![e, lb]);
    assert(tail.drop_last().drop_last() =~= seq![e]);
    assert(tail.drop_last().drop_last().drop_last() =~= Seq::<Seq<char>>::empty());
    assert(crate::text::unlines(tail) =~= "\n[lib]\n"@ + "name = \""@ + lib + "\"\n"@);
    crate::text::lemma_no_newline_add("name = \""@, lib);
    crate::text::lemma_no_newline_add("name = \""@ + lib, "\""@);
    assert(crate::text::plain_line(nm));
    assert(crate::text::plain_line(lb));
    assert(crate::text::plain_line(e));
    assert forall|k: int| 0 <= k < tail.len() implies #[trigger] crate::text::plain_line(tail[k]) by {
        if k == 0 {
        } else if k == 1 {
        } else {
        }
    }
    // The blank line.
    lemma_inline_no_brace(e, deps_view(fork.internal_fork_deps@));
    assert(lead_ws(e) == 0);
    assert(trim_start(e) =~= e);
    assert(!starts_with(e, "["@));
    assert(!starts_with(e, "name = "@));
    assert(e + "\n"@ =~= "\n"@);
    assert(fork_line(fork, st, e) == (st, "\n"@));
    // The header.
    assert(lead_ws(lb) == 0);
    assert(trim_start(lb) =~= lb);
    assert(lb.take(0) =~= e);
    assert(spec_find_fork_dep_subtable(lb) is None);
    assert(lb.subrange(0, 1) =~= "["@);
    assert(lb.subrange(4, 5) =~= "]"@);
    let s2 = fork_line(fork, st, lb).0;
    assert(fork_line(fork, st, lb).1 == lb + "\n"@ + e + "name = \""@ + lib + "\"\n"@);
    assert(s2.section == Some(lb) && s2.saw_lib && !s2.in_sub);
    // The name line under it.
    assert(nm[0] == 'n');
    assert(lead_ws(nm) == 0);
    assert(trim_start(nm) =~= nm);
    assert(!starts_with(nm, "["@)) by {
        assert(nm.subrange(0, 1)[0] == 'n');
    }
    assert(nm.subrange(0, 7) =~= "name = "@);
    assert(Some(lb) != Some("[package]"@)) by {
        assert(lb.len() != "[package]"@.len());
    }
    assert(fork_line(fork, s2, nm) == (s2, e));
    assert(tail.drop_last().drop_last().last() == e);
    assert(tail.drop_last().last() == lb);
    assert(tail.last() == nm);
    reveal_with_fuel(fork_run, 4);
    let run_tail = fork_run(fork, st, tail);
    assert(run_tail.0 == s2);
    assert(run_tail.1 =~= "\n[lib]\n"@ + "name = \""@ + lib + "\"\n"@);
}

/// Whether a fork manifest has no `[lib]` header and ends inside a
/// sibling-fork sub-table, whose lines the rewrite drops.
pub open spec fn fork_manifest_ends_in_subtable_without_lib(raw: Seq<char>, fork: ForkSpec) -> bool {
    let ls = lines(raw);
    let st = fork_fold(fork, ls, ls.len() as int).0;
    st.in_sub && !st.saw_lib
}

/// Rewriting a fork manifest a second time changes nothing: the package is
/// renamed already, sibling-fork dependencies already name their package,
/// and `[lib].name` is already pinned. Left out are a manifest that has no
/// `[lib]` header and ends inside a sibling-fork sub-table (the blank line
/// written before the appended `[lib]` section is then dropped as part of
/// that table) and a line that `str::lines` leaves ending in a carriage
/// return; the fork's names are bare names.
pub proof fn lemma_rewrite_fork_manifest_idempotent(raw: Seq<char>, fork: ForkSpec)
    requires
        fork_names_ok(fork),
        forall|k: int| 0 <= k < lines(raw).len() ==> #[trigger] crate::text::plain_line(lines(raw)[k]),
        !fork_manifest_ends_in_subtable_without_lib(raw, fork),
    ensures
        spec_rewrite_fork_manifest(spec_rewrite_fork_manifest(raw, fork), fork)
            == spec_rewrite_fork_manifest(raw, fork),
{
    let start = fork_pass_start();
    let ls = lines(raw);
    lemma_fold_is_run(fork, ls, ls.len() as int);
    assert(ls.take(ls.len() as int) =~= ls);
    lemma_fork_second_pass(fork, ls);
    let kept = fork_kept_lines(fork, ls);
    let st = fork_run(fork, start, ls).0;
    let r1 = spec_rewrite_fork_manifest(raw, fork);
    if st.saw_lib {
        crate::text::lemma_lines_unlines(kept);
        lemma_fold_is_run(fork, kept, kept.len() as int);
        assert(kept.take(kept.len() as int) =~= kept);
    } else {
        let tail = lib_tail(fork);
        let all = kept + tail;
        lemma_lib_tail(fork, st);
        lemma_unlines_concat(kept, tail);
        assert(r1 =~= crate::text::unlines(all));
        assert forall|k: int| 0 <= k < all.len() implies #[trigger] crate::text::plain_line(all[k]) by {
            if k < kept.len() {
                assert(all[k] == kept[k]);
            } else {
                assert(all[k] == tail[k - kept.len()]);
            }
        }
        crate::text::lemma_lines_unlines(all);
        lemma_fold_is_run(fork, all, all.len() as int);
        assert(all.take(all.len() as int) =~= all);
        lemma_run_concat(fork, start, kept, tail);
        assert(fork_run(fork, start, kept).0 == st);
        assert(spec_rewrite_fork_manifest(r1, fork) =~= r1);
    }
}

} // verus!
