//! The parsed views of crate and workspace manifests, and the publish
//! workspace's `Cargo.toml` built from the source workspace's.

use vstd::prelude::*;
use crate::graph::{text_lt, text_lt_exec, lemma_text_lt_total, lemma_text_lt_trans};
use crate::manifest::{rename_package_chars, spec_rename_package};
use crate::text::{
    alnum, ends_with, eq_lit, extend, extend_lit, from_chars, has_prefix, is_alnum, seq_eq,
    slice_vec, starts_lit, starts_with, to_chars,
};
use crate::toml_value::{
    entries_get, lemma_teviews, lemma_tviews, render, render_toml_value, teviews, tget, tget_exec,
    tlookup, toget, tview, tviews, Toml, TomlV,
};

verus! {

// ---------------------------------------------------------------------------
// Reading manifests
// ---------------------------------------------------------------------------

/// `doc.get(a).and_then(|v| v.get(b))`.
pub open spec fn tget2(doc: TomlV, a: Seq<char>, b: Seq<char>) -> Option<TomlV> {
    toget(tget(doc, a), b)
}

pub open spec fn as_text(o: Option<TomlV>) -> Option<Seq<char>> {
    match o {
        Some(TomlV::Str(s)) => Some(s),
        _ => None,
    }
}

pub open spec fn as_flag(o: Option<TomlV>) -> bool {
    match o {
        Some(TomlV::Bool(b)) => b,
        _ => false,
    }
}

pub(crate) fn get2<'a>(doc: &'a Toml, a: &str, b: &str) -> (r: Option<&'a Toml>)
    ensures
        r matches Some(x) ==> tget2(doc@, a@, b@) == Some(x@),
        r is None ==> tget2(doc@, a@, b@) is None,
{
    match tget_exec(doc, a) {
        Some(x) => tget_exec(x, b),
        None => None,
    }
}

fn text_of(o: Option<&Toml>) -> (r: Option<String>)
    ensures
        match r {
            Some(s) => as_text(match o {
                Some(x) => Some(x@),
                None => None,
            }) == Some(s@),
            None => as_text(match o {
                Some(x) => Some(x@),
                None => None,
            }) is None,
        },
{
    match o {
        Some(Toml::Str(s)) => Some(s.clone()),
        _ => None,
    }
}

fn flag_of(o: Option<&Toml>) -> (r: bool)
    ensures
        r == as_flag(match o {
            Some(x) => Some(x@),
            None => None,
        }),
{
    match o {
        Some(Toml::Bool(b)) => *b,
        _ => false,
    }
}

/// A crate's manifest: where it was read from, its text, and the parsed
/// document.
pub struct CrateManifest {
    pub path: String,
    pub raw: String,
    pub doc: Toml,
}

/// Why a manifest could not be read.
pub enum ManifestReadError {
    /// The text is not a TOML document.
    Parse,
    /// A field the caller needs is missing; the field's dotted name.
    Missing(String),
}

/// A workspace's manifest.
pub struct WorkspaceManifest {
    pub path: String,
    pub raw: String,
    pub doc: Toml,
}

impl CrateManifest {
    /// The manifest read from `raw`; a text that is not TOML is refused.
    pub fn parse(path: &str, raw: &str) -> (r: Result<CrateManifest, ManifestReadError>)
        ensures
            r matches Ok(m) ==> crate::toml_value::toml_parse(raw@) == Some(m.doc@) && m.raw@ == raw@
                && m.path@ == path@,
            r is Err ==> crate::toml_value::toml_parse(raw@) is None,
    {
        match crate::toml_value::parse_toml(raw) {
            Some(doc) => Ok(CrateManifest { path: path.to_owned(), raw: raw.to_owned(), doc }),
            None => Err(ManifestReadError::Parse),
        }
    }

    /// `package.name`.
    pub fn package_name(&self) -> (r: Result<String, ManifestReadError>)
        ensures
            r matches Ok(s) ==> as_text(tget2(self.doc@, "package"@, "name"@)) == Some(s@),
            r is Err ==> as_text(tget2(self.doc@, "package"@, "name"@)) is None,
    {
        match text_of(get2(&self.doc, "package", "name")) {
            Some(s) => Ok(s),
            None => Err(ManifestReadError::Missing("package.name".to_owned())),
        }
    }

    /// `package.version`.
    pub fn version(&self) -> (r: Result<String, ManifestReadError>)
        ensures
            r matches Ok(s) ==> as_text(tget2(self.doc@, "package"@, "version"@)) == Some(s@),
            r is Err ==> as_text(tget2(self.doc@, "package"@, "version"@)) is None,
    {
        match text_of(get2(&self.doc, "package", "version")) {
            Some(s) => Ok(s),
            None => Err(ManifestReadError::Missing("package.version".to_owned())),
        }
    }

    /// Whether `lib.proc-macro` is `true`.
    pub fn is_proc_macro(&self) -> (r: bool)
        ensures
            r == as_flag(tget2(self.doc@, "lib"@, "proc-macro"@)),
    {
        flag_of(get2(&self.doc, "lib", "proc-macro"))
    }

    /// Whether the crate's `[[bin]]` targets are dropped for publishing:
    /// when it has a `bin` or a `lib` entry (a library-only crate has no
    /// `[[bin]]` to drop).
    pub fn should_drop_bins(&self) -> (r: bool)
        ensures
            r == (tget(self.doc@, "bin"@) is Some || tget(self.doc@, "lib"@) is Some),
    {
        tget_exec(&self.doc, "bin").is_some() || tget_exec(&self.doc, "lib").is_some()
    }

    /// Whether `publish = false` keeps the crate from being published.
    pub fn is_unpublishable(&self) -> (r: bool)
        ensures
            r == (tget2(self.doc@, "package"@, "publish"@) == Some(TomlV::Bool(false))),
    {
        match get2(&self.doc, "package", "publish") {
            Some(Toml::Bool(b)) => !*b,
            _ => false,
        }
    }

    /// The dependency keys starting with `codex-` in `[dependencies]`,
    /// `[dev-dependencies]` and `[build-dependencies]`, sorted, each once.
    pub fn workspace_codex_deps(&self) -> (r: Vec<String>)
        ensures
            strictly_sorted(texts(r@)),
            forall|k: Seq<char>| texts(r@).contains(k) <==> starts_with(k, "codex-"@) && (
                has_key(tget(self.doc@, "dependencies"@), k) || has_key(
                    tget(self.doc@, "dev-dependencies"@),
                    k,
                ) || has_key(tget(self.doc@, "build-dependencies"@), k)),
    {
        let mut out: Vec<Vec<char>> = Vec::new();
        let ghost mut seen: Set<Seq<char>> = Set::empty();
        assert(crate::text::views(out@) =~= Seq::<Seq<char>>::empty());
        let ghost v0 = crate::text::views(out@);
        let t1 = tget_exec(&self.doc, "dependencies");
        assert((match t1 {
            Some(t) => Some(t@),
            None => None,
        }) == tget(self.doc@, "dependencies"@));
        add_codex_keys(&mut out, t1);
        let ghost v1 = crate::text::views(out@);
        let t2 = tget_exec(&self.doc, "dev-dependencies");
        assert((match t2 {
            Some(t) => Some(t@),
            None => None,
        }) == tget(self.doc@, "dev-dependencies"@));
        add_codex_keys(&mut out, t2);
        let ghost v2 = crate::text::views(out@);
        let t3 = tget_exec(&self.doc, "build-dependencies");
        assert((match t3 {
            Some(t) => Some(t@),
            None => None,
        }) == tget(self.doc@, "build-dependencies"@));
        add_codex_keys(&mut out, t3);
        let ghost v3 = crate::text::views(out@);
        assert forall|k: Seq<char>| v3.contains(k) <==> starts_with(k, "codex-"@) && (has_key(
            tget(self.doc@, "dependencies"@),
            k,
        ) || has_key(tget(self.doc@, "dev-dependencies"@), k) || has_key(
            tget(self.doc@, "build-dependencies"@),
            k,
        )) by {
            assert(!v0.contains(k));
            let c = starts_with(k, "codex-"@);
            assert(v1.contains(k) <==> v0.contains(k) || (c && has_key(tget(self.doc@, "dependencies"@), k)));
            assert(v2.contains(k) <==> v1.contains(k) || (c && has_key(tget(self.doc@, "dev-dependencies"@), k)));
            assert(v3.contains(k) <==> v2.contains(k) || (c && has_key(tget(self.doc@, "build-dependencies"@), k)));
        }
        let mut r: Vec<String> = Vec::new();
        let mut i: usize = 0;
        while i < out.len()
            invariant
                i <= out@.len(),
                texts(r@) == crate::text::views(out@).take(i as int),
            decreases out@.len() - i,
        {
            let ghost prev = r@;
            r.push(from_chars(&out[i]));
            assert(texts(r@) =~= texts(prev).push(crate::text::views(out@)[i as int]));
            assert(crate::text::views(out@).take(i + 1) =~= crate::text::views(out@).take(i as int).push(
                crate::text::views(out@)[i as int],
            ));
            i = i + 1;
        }
        assert(crate::text::views(out@).take(out@.len() as int) =~= crate::text::views(out@));
        r
    }
}

pub open spec fn texts(v: Seq<String>) -> Seq<Seq<char>> {
    v.map_values(|s: String| s@)
}

/// The table (if it is one) has an entry named `k`.
pub open spec fn has_key(o: Option<TomlV>, k: Seq<char>) -> bool {
    match o {
        Some(TomlV::Table(m)) => exists|i: int| 0 <= i < m.len() && #[trigger] m[i].0 == k,
        _ => false,
    }
}

/// Increasing, without repeats.
pub open spec fn strictly_sorted(s: Seq<Seq<char>>) -> bool {
    forall|i: int, j: int| 0 <= i < j < s.len() ==> text_lt(#[trigger] s[i], #[trigger] s[j])
}

/// Inserts `x` into an increasing vector unless it is there.
fn insert_sorted_unique(out: &mut Vec<Vec<char>>, x: Vec<char>)
    requires
        strictly_sorted(crate::text::views(old(out)@)),
    ensures
        strictly_sorted(crate::text::views(final(out)@)),
        forall|k: Seq<char>| crate::text::views(final(out)@).contains(k) <==> crate::text::views(old(out)@).contains(k) || k == x@,
{
    let ghost ov = crate::text::views(out@);
    let mut p: usize = 0;
    while p < out.len() && text_lt_exec(&out[p], &x)
        invariant
            p <= out@.len(),
            ov == crate::text::views(out@),
            forall|t: int| 0 <= t < p ==> text_lt(#[trigger] ov[t], x@),
        decreases out@.len() - p,
    {
        p = p + 1;
    }
    if p < out.len() && seq_eq(&out[p], &x) {
        assert(ov[p as int] == x@);
        return;
    }
    let ghost xv = x@;
    out.insert(p, x);
    proof {
        let nv = crate::text::views(out@);
        assert(nv =~= ov.insert(p as int, xv));
        if p < ov.len() {
            assert(!text_lt(ov[p as int], xv));
            assert(ov[p as int] != xv);
            lemma_text_lt_total(ov[p as int], xv);
        }
        assert forall|i: int, j: int| 0 <= i < j < nv.len() implies text_lt(#[trigger] nv[i], #[trigger] nv[j]) by {
            if i < p && j < p {
                assert(nv[i] == ov[i] && nv[j] == ov[j]);
            } else if i < p && j == p {
            } else if i < p && j > p {
                assert(nv[i] == ov[i] && nv[j] == ov[j - 1]);
            } else if i == p {
                assert(nv[j] == ov[j - 1]);
                if j - 1 > p {
                    lemma_text_lt_trans(xv, ov[p as int], ov[j - 1]);
                }
            } else {
                assert(nv[i] == ov[i - 1] && nv[j] == ov[j - 1]);
            }
        }
        assert forall|k: Seq<char>| nv.contains(k) <==> ov.contains(k) || k == xv by {
            if nv.contains(k) {
                let q = choose|q: int| 0 <= q < nv.len() && nv[q] == k;
                if q < p {
                    assert(ov[q] == k);
                } else if q > p {
                    assert(ov[q - 1] == k);
                }
            }
            if ov.contains(k) {
                let q = choose|q: int| 0 <= q < ov.len() && ov[q] == k;
                if q < p {
                    assert(nv[q] == k);
                } else {
                    assert(nv[q + 1] == k);
                }
            }
            if k == xv {
                assert(nv[p as int] == xv);
            }
        }
    }
}

/// Some of the first `n` entries is named `k`.
pub open spec fn key_among(m: Seq<(Seq<char>, TomlV)>, n: int, k: Seq<char>) -> bool {
    exists|t: int| 0 <= t < n && #[trigger] m[t].0 == k
}

proof fn lemma_key_among_step(m: Seq<(Seq<char>, TomlV)>, n: int, k: Seq<char>)
    requires
        0 <= n < m.len(),
    ensures
        key_among(m, n + 1, k) <==> key_among(m, n, k) || m[n].0 == k,
{
    if key_among(m, n + 1, k) {
        let t = choose|t: int| 0 <= t < n + 1 && #[trigger] m[t].0 == k;
        if t < n {
            assert(key_among(m, n, k));
        }
    }
    if key_among(m, n, k) {
        let t = choose|t: int| 0 <= t < n && #[trigger] m[t].0 == k;
        assert(m[t].0 == k);
    }
}

fn add_codex_keys(out: &mut Vec<Vec<char>>, table: Option<&Toml>)
    requires
        strictly_sorted(crate::text::views(old(out)@)),
    ensures
        strictly_sorted(crate::text::views(final(out)@)),
        forall|k: Seq<char>| crate::text::views(final(out)@).contains(k) <==> crate::text::views(old(out)@).contains(k)
            || (starts_with(k, "codex-"@) && has_key(
            match table {
                Some(t) => Some(t@),
                None => None,
            },
            k,
        )),
{
    match table {
        Some(Toml::Table(m)) => {
            proof {
                lemma_teviews(m@);
            }
            let ghost mv = teviews(m@);
            let ghost ov = crate::text::views(out@);
            let mut i: usize = 0;
            while i < m.len()
                invariant
                    i <= m@.len(),
                    mv == teviews(m@),
                    mv.len() == m@.len(),
                    forall|t: int| 0 <= t < m@.len() ==> #[trigger] mv[t] == (m@[t].0@, tview(m@[t].1)),
                    strictly_sorted(crate::text::views(out@)),
                    forall|k: Seq<char>| #[trigger] crate::text::views(out@).contains(k) <==> ov.contains(k) || (
                        starts_with(k, "codex-"@) && key_among(mv, i as int, k)),
                decreases m@.len() - i,
            {
                let key = to_chars(m[i].0.as_str());
                assert(mv[i as int].0 == key@);
                let ghost before = crate::text::views(out@);
                if starts_lit(&key, "codex-") {
                    insert_sorted_unique(out, key);
                }
                proof {
                    assert forall|k: Seq<char>| #[trigger] crate::text::views(out@).contains(k) <==> ov.contains(k) || (
                        starts_with(k, "codex-"@) && key_among(mv, i + 1, k)) by {
                        lemma_key_among_step(mv, i as int, k);
                        assert(before.contains(k) <==> ov.contains(k) || (starts_with(k, "codex-"@)
                            && key_among(mv, i as int, k)));
                    }
                }
                i = i + 1;
            }
            proof {
                assert(table.unwrap()@ == TomlV::Table(mv));
                assert forall|k: Seq<char>| #[trigger] crate::text::views(out@).contains(k) <==> ov.contains(k) || (
                    starts_with(k, "codex-"@) && has_key(Some(TomlV::Table(mv)), k)) by {
                    assert(has_key(Some(TomlV::Table(mv)), k) == key_among(mv, mv.len() as int, k));
                }
            }
        },
        _ => {},
    }
}

impl WorkspaceManifest {
    /// The manifest read from `raw`; a text that is not TOML is refused.
    pub fn parse(path: &str, raw: &str) -> (r: Result<WorkspaceManifest, ManifestReadError>)
        ensures
            r matches Ok(m) ==> crate::toml_value::toml_parse(raw@) == Some(m.doc@) && m.raw@ == raw@
                && m.path@ == path@,
            r is Err ==> crate::toml_value::toml_parse(raw@) is None,
    {
        match crate::toml_value::parse_toml(raw) {
            Some(doc) => Ok(WorkspaceManifest { path: path.to_owned(), raw: raw.to_owned(), doc }),
            None => Err(ManifestReadError::Parse),
        }
    }

    /// The string entries of `workspace.members`, in order.
    pub fn members(&self) -> (r: Result<Vec<String>, ManifestReadError>)
        ensures
            r matches Ok(v) ==> tget2(self.doc@, "workspace"@, "members"@) matches Some(TomlV::Array(a))
                && texts(v@) == str_items(a),
            r is Err ==> !(tget2(self.doc@, "workspace"@, "members"@) matches Some(TomlV::Array(_))),
    {
        match get2(&self.doc, "workspace", "members") {
            Some(Toml::Array(a)) => Ok(str_items_exec(a)),
            _ => Err(ManifestReadError::Missing("workspace.members".to_owned())),
        }
    }
}

/// The strings among the items, in order.
pub open spec fn str_items(a: Seq<TomlV>) -> Seq<Seq<char>>
    decreases a.len(),
{
    if a.len() == 0 {
        seq![]
    } else {
        match a.last() {
            TomlV::Str(s) => str_items(a.drop_last()).push(s),
            _ => str_items(a.drop_last()),
        }
    }
}

fn str_items_exec(a: &Vec<Toml>) -> (r: Vec<String>)
    ensures
        texts(r@) == str_items(tviews(a@)),
{
    let ghost av = tviews(a@);
    proof {
        lemma_tviews(a@);
    }
    let mut out: Vec<String> = Vec::new();
    let mut i: usize = 0;
    assert(av.take(0) =~= Seq::<TomlV>::empty());
    while i < a.len()
        invariant
            i <= a@.len(),
            av == tviews(a@),
            av.len() == a@.len(),
            forall|t: int| 0 <= t < a@.len() ==> #[trigger] av[t] == tview(a@[t]),
            texts(out@) == str_items(av.take(i as int)),
        decreases a@.len() - i,
    {
        assert(av.take(i + 1).drop_last() =~= av.take(i as int));
        assert(av.take(i + 1).last() == a@[i as int]@);
        match &a[i] {
            Toml::Str(s) => {
                let ghost prev = out@;
                out.push(s.clone());
                assert(texts(out@) =~= texts(prev).push(s@));
            },
            _ => {},
        }
        i = i + 1;
    }
    assert(av.take(a@.len() as int) =~= av);
    out
}

// ---------------------------------------------------------------------------
// The publish workspace manifest
// ---------------------------------------------------------------------------

/// `workspace.dependencies` as entries (none when it is not a table).
pub open spec fn ws_deps(doc: TomlV) -> Seq<(Seq<char>, TomlV)> {
    match tget2(doc, "workspace"@, "dependencies"@) {
        Some(TomlV::Table(m)) => m,
        _ => seq![],
    }
}

impl WorkspaceManifest {
    /// The `[workspace.dependencies]` entries (in the table's order, which
    /// is key order).
    pub fn workspace_deps(&self) -> (r: Vec<(String, Toml)>)
        ensures
            teviews(r@) == ws_deps(self.doc@),
    {
        match get2(&self.doc, "workspace", "dependencies") {
            Some(Toml::Table(m)) => crate::toml_value::copy_entries(m),
            _ => {
                let v: Vec<(String, Toml)> = Vec::new();
                assert(teviews(v@) =~= Seq::<(Seq<char>, TomlV)>::empty());
                v
            },
        }
    }
}

/// `k = v` lines for the entries.
pub open spec fn entry_lines(m: Seq<(Seq<char>, TomlV)>) -> Seq<char>
    decreases m.len(),
{
    if m.len() == 0 {
        seq![]
    } else {
        entry_lines(m.drop_last()) + m.last().0 + " = "@ + render(m.last().1) + "\n"@
    }
}

/// `k = v` lines for the entries other than `clippy`.
pub open spec fn lint_lines(m: Seq<(Seq<char>, TomlV)>) -> Seq<char>
    decreases m.len(),
{
    if m.len() == 0 {
        seq![]
    } else if m.last().0 == "clippy"@ {
        lint_lines(m.drop_last())
    } else {
        lint_lines(m.drop_last()) + m.last().0 + " = "@ + render(m.last().1) + "\n"@
    }
}

/// A `"member",` line for each member that is kept.
pub open spec fn member_lines(ms: Seq<Seq<char>>, keep: Seq<Seq<char>>) -> Seq<char>
    decreases ms.len(),
{
    if ms.len() == 0 {
        seq![]
    } else if keep.contains(ms.last()) {
        member_lines(ms.drop_last(), keep) + "    \""@ + ms.last() + "\",\n"@
    } else {
        member_lines(ms.drop_last(), keep)
    }
}

pub open spec fn package_section(o: Option<TomlV>) -> Seq<char> {
    match o {
        Some(v) => "\n[workspace.package]\n"@ + match v {
            TomlV::Table(t) => entry_lines(t),
            _ => seq![],
        },
        None => seq![],
    }
}

pub open spec fn lints_section(o: Option<TomlV>) -> Seq<char> {
    match o {
        Some(TomlV::Table(t)) => "\n[workspace.lints]\n"@ + lint_lines(t) + match tlookup(t, "clippy"@) {
            Some(TomlV::Table(c)) => "\n[workspace.lints.clippy]\n"@ + entry_lines(c),
            _ => seq![],
        },
        _ => seq![],
    }
}

/// A path without its leading `./`.
pub open spec fn strip_dot(p: Seq<char>) -> Seq<char> {
    if starts_with(p, "./"@) {
        p.skip(2)
    } else {
        p
    }
}

/// A path dependency whose directory is not a kept member.
pub open spec fn dep_excluded(v: TomlV, keep: Seq<Seq<char>>) -> bool {
    match v {
        TomlV::Table(t) => match tlookup(t, "path"@) {
            Some(TomlV::Str(p)) => !keep.contains(strip_dot(p)),
            _ => false,
        },
        _ => false,
    }
}

/// The entries with `(k, v)` placed before the first entry whose key
/// sorts after `k` (a key-ordered map's insert of a new key).
pub open spec fn insert_key_sorted(m: Seq<(Seq<char>, TomlV)>, k: Seq<char>, v: TomlV) -> Seq<
    (Seq<char>, TomlV),
>
    decreases m.len(),
{
    if m.len() == 0 {
        seq![(k, v)]
    } else if text_lt(k, m[0].0) {
        seq![(k, v)] + m
    } else {
        seq![m[0]] + insert_key_sorted(m.drop_first(), k, v)
    }
}

/// An own-crate table dependency without a version gets
/// `version = "0.0.0"`; anything else is kept.
pub open spec fn ensure_version(v: TomlV, key: Seq<char>) -> TomlV {
    if !starts_with(key, "lemurclaw-"@) {
        v
    } else {
        match v {
            TomlV::Table(t) => if tlookup(t, "version"@) is Some {
                v
            } else {
                TomlV::Table(insert_key_sorted(t, "version"@, TomlV::Str("0.0.0"@)))
            },
            _ => v,
        }
    }
}

/// One part of an inline dependency table; a `package` alias is renamed.
pub open spec fn dep_part(k: Seq<char>, v: TomlV) -> Seq<char> {
    if k == "package"@ && v is Str {
        "package = \""@ + spec_rename_package(v->Str_0) + "\""@
    } else {
        k + " = "@ + render(v)
    }
}

pub open spec fn dep_parts(m: Seq<(Seq<char>, TomlV)>) -> Seq<char>
    decreases m.len(),
{
    if m.len() == 0 {
        seq![]
    } else if m.len() == 1 {
        dep_part(m[0].0, m[0].1)
    } else {
        dep_parts(m.drop_last()) + ", "@ + dep_part(m.last().0, m.last().1)
    }
}

pub open spec fn render_dep(v: TomlV) -> Seq<char> {
    match v {
        TomlV::Table(t) => "{ "@ + dep_parts(t) + " }"@,
        _ => render(v),
    }
}

/// A line per dependency that is kept: the key renamed, the value with
/// its version ensured and its package alias renamed.
pub open spec fn dep_lines(d: Seq<(Seq<char>, TomlV)>, keep: Seq<Seq<char>>) -> Seq<char>
    decreases d.len(),
{
    if d.len() == 0 {
        seq![]
    } else if dep_excluded(d.last().1, keep) {
        dep_lines(d.drop_last(), keep)
    } else {
        let key = spec_rename_package(d.last().0);
        dep_lines(d.drop_last(), keep) + key + " = "@ + render_dep(ensure_version(d.last().1, key))
            + "\n"@
    }
}

pub open spec fn deps_section(d: Seq<(Seq<char>, TomlV)>, keep: Seq<Seq<char>>) -> Seq<char> {
    if d.len() == 0 {
        seq![]
    } else {
        "\n[workspace.dependencies]\n"@ + dep_lines(d, keep)
    }
}

pub open spec fn table_lines(v: TomlV) -> Seq<char> {
    match v {
        TomlV::Table(t) => entry_lines(t),
        _ => seq![],
    }
}

pub open spec fn profile_lines(p: Seq<(Seq<char>, TomlV)>) -> Seq<char>
    decreases p.len(),
{
    if p.len() == 0 {
        seq![]
    } else {
        profile_lines(p.drop_last()) + "\n[profile."@ + p.last().0 + "]\n"@ + table_lines(p.last().1)
    }
}

pub open spec fn top_table(doc: TomlV, key: Seq<char>) -> Seq<(Seq<char>, TomlV)> {
    match tget(doc, key) {
        Some(TomlV::Table(t)) => t,
        _ => seq![],
    }
}

/// The publish workspace manifest: resolver 2; the source members that are
/// kept, in source order; `[workspace.package]`, `[workspace.lints]` (with
/// `clippy` in its own table); the dependencies that are kept, renamed;
/// the profiles. The `[patch.*]` tables are not carried over: which forks
/// the publish workspace needs is decided apart. Refused when
/// `workspace.members` is not an array.
pub open spec fn spec_rewrite_workspace_manifest(doc: TomlV, keep: Seq<Seq<char>>) -> Option<Seq<char>> {
    match tget2(doc, "workspace"@, "members"@) {
        Some(TomlV::Array(ms)) => Some(
            "[workspace]\n"@ + "resolver = \"2\"\n"@ + "\nmembers = [\n"@ + member_lines(
                str_items(ms),
                keep,
            ) + "]\n"@ + package_section(tget2(doc, "workspace"@, "package"@)) + lints_section(
                tget2(doc, "workspace"@, "lints"@),
            ) + deps_section(ws_deps(doc), keep) + profile_lines(top_table(doc, "profile"@)),
        ),
        _ => None,
    }
}

fn keep_contains(keep: &[String], x: &[char]) -> (r: bool)
    ensures
        r == texts(keep@).contains(x@),
{
    let ghost kv = texts(keep@);
    let mut i: usize = 0;
    while i < keep.len()
        invariant
            i <= keep@.len(),
            kv == texts(keep@),
            forall|t: int| 0 <= t < i ==> kv[t] != x@,
        decreases keep@.len() - i,
    {
        assert(kv[i as int] == keep@[i as int]@);
        if seq_eq(&to_chars(keep[i].as_str()), x) {
            return true;
        }
        i = i + 1;
    }
    false
}

fn entry_lines_exec(m: &Vec<(String, Toml)>, skip_clippy: bool) -> (r: Vec<char>)
    ensures
        r@ == if skip_clippy {
            lint_lines(teviews(m@))
        } else {
            entry_lines(teviews(m@))
        },
{
    let ghost mv = teviews(m@);
    proof {
        lemma_teviews(m@);
    }
    let mut out: Vec<char> = Vec::new();
    let mut i: usize = 0;
    assert(mv.take(0) =~= Seq::<(Seq<char>, TomlV)>::empty());
    while i < m.len()
        invariant
            i <= m@.len(),
            mv == teviews(m@),
            mv.len() == m@.len(),
            forall|t: int| 0 <= t < m@.len() ==> #[trigger] mv[t] == (m@[t].0@, tview(m@[t].1)),
            out@ == if skip_clippy {
                lint_lines(mv.take(i as int))
            } else {
                entry_lines(mv.take(i as int))
            },
        decreases m@.len() - i,
    {
        assert(mv.take(i + 1).drop_last() =~= mv.take(i as int));
        assert(mv.take(i + 1).last() == mv[i as int]);
        let k = to_chars(m[i].0.as_str());
        if !(skip_clippy && eq_lit(&k, "clippy")) {
            extend(&mut out, &k);
            extend_lit(&mut out, " = ");
            extend(&mut out, &render_toml_value(&m[i].1));
            extend_lit(&mut out, "\n");
        }
        i = i + 1;
    }
    assert(mv.take(m@.len() as int) =~= mv);
    out
}

fn table_lines_exec(v: &Toml) -> (r: Vec<char>)
    ensures
        r@ == table_lines(v@),
{
    match v {
        Toml::Table(t) => entry_lines_exec(t, false),
        _ => Vec::new(),
    }
}

fn insert_key_sorted_exec(m: &mut Vec<(String, Toml)>, k: &str, v: Toml)
    ensures
        teviews(final(m)@) == insert_key_sorted(teviews(old(m)@), k@, v@),
{
    let ghost mv = teviews(m@);
    let ghost vv = v@;
    proof {
        lemma_teviews(m@);
    }
    let kc = to_chars(k);
    let mut p: usize = 0;
    assert(mv.skip(0) =~= mv);
    assert(mv.take(0) + insert_key_sorted(mv.skip(0), k@, vv) =~= insert_key_sorted(mv, k@, vv));
    while p < m.len() && !text_lt_exec(&kc, &to_chars(m[p].0.as_str()))
        invariant
            p <= m@.len(),
            mv == teviews(m@),
            mv.len() == m@.len(),
            forall|t: int| 0 <= t < m@.len() ==> #[trigger] mv[t] == (m@[t].0@, tview(m@[t].1)),
            kc@ == k@,
            mv.take(p as int) + insert_key_sorted(mv.skip(p as int), k@, vv) == insert_key_sorted(mv, k@, vv),
        decreases m@.len() - p,
    {
        let ghost rest = mv.skip(p as int);
        assert(rest[0] == mv[p as int]);
        assert(rest.drop_first() =~= mv.skip(p + 1));
        assert(mv.take(p as int) + (seq![rest[0]] + insert_key_sorted(rest.drop_first(), k@, vv)) =~= mv.take(
            p + 1,
        ) + insert_key_sorted(mv.skip(p + 1), k@, vv));
        p = p + 1;
    }
    let ghost rest = mv.skip(p as int);
    assert(insert_key_sorted(rest, k@, vv) =~= seq![(k@, vv)] + rest) by {
        if rest.len() > 0 {
            assert(rest[0] == mv[p as int]);
        }
    }
    let ghost old_m = m@;
    m.insert(p, (k.to_owned(), v));
    proof {
        lemma_teviews(m@);
        assert(teviews(m@) =~= mv.take(p as int) + (seq![(k@, vv)] + rest)) by {
            assert forall|t: int| 0 <= t < m@.len() implies #[trigger] teviews(m@)[t] == (mv.take(p as int) + (seq![(k@, vv)] + rest))[t] by {
                if t < p {
                    assert(m@[t] == old_m[t]);
                } else if t > p {
                    assert(m@[t] == old_m[t - 1]);
                }
            }
        }
    }
}

fn ensure_version_exec(v: &Toml, key: &[char]) -> (r: Toml)
    ensures
        r@ == ensure_version(v@, key@),
{
    if !starts_lit(key, "lemurclaw-") {
        return crate::toml_value::copy_toml(v);
    }
    match v {
        Toml::Table(t) => {
            if entries_get(t, "version").is_some() {
                crate::toml_value::copy_toml(v)
            } else {
                let mut e = crate::toml_value::copy_entries(t);
                proof {
                    reveal_strlit("0.0.0");
                }
                insert_key_sorted_exec(&mut e, "version", Toml::Str("0.0.0".to_owned()));
                Toml::Table(e)
            }
        },
        _ => crate::toml_value::copy_toml(v),
    }
}

fn dep_part_exec(k: &[char], v: &Toml) -> (r: Vec<char>)
    ensures
        r@ == dep_part(k@, v@),
{
    if eq_lit(k, "package") {
        match v {
            Toml::Str(s) => {
                let mut out = to_chars("package = \"");
                extend(&mut out, &rename_package_chars(&to_chars(s.as_str())));
                extend_lit(&mut out, "\"");
                return out;
            },
            _ => {},
        }
    }
    let mut out = slice_vec(k, 0, k.len());
    assert(k@.subrange(0, k@.len() as int) =~= k@);
    extend_lit(&mut out, " = ");
    extend(&mut out, &render_toml_value(v));
    out
}

pub(crate) fn render_dep_exec(v: &Toml) -> (r: Vec<char>)
    ensures
        r@ == render_dep(v@),
{
    match v {
        Toml::Table(m) => {
            let ghost mv = teviews(m@);
            proof {
                lemma_teviews(m@);
            }
            let mut body: Vec<char> = Vec::new();
            let mut i: usize = 0;
            assert(mv.take(0) =~= Seq::<(Seq<char>, TomlV)>::empty());
            while i < m.len()
                invariant
                    i <= m@.len(),
                    mv == teviews(m@),
                    mv.len() == m@.len(),
                    forall|t: int| 0 <= t < m@.len() ==> #[trigger] mv[t] == (m@[t].0@, tview(m@[t].1)),
                    body@ == dep_parts(mv.take(i as int)),
                decreases m@.len() - i,
            {
                assert(mv.take(i + 1).drop_last() =~= mv.take(i as int));
                assert(mv.take(i + 1).last() == mv[i as int]);
                if i > 0 {
                    extend_lit(&mut body, ", ");
                } else {
                    assert(mv.take(1) =~= seq![mv[0]]);
                }
                extend(&mut body, &dep_part_exec(&to_chars(m[i].0.as_str()), &m[i].1));
                i = i + 1;
            }
            assert(mv.take(m@.len() as int) =~= mv);
            let mut out = to_chars("{ ");
            extend(&mut out, &body);
            extend_lit(&mut out, " }");
            out
        },
        _ => render_toml_value(v),
    }
}


fn member_lines_exec(members: &Vec<String>, keep_members: &[String]) -> (r: Vec<char>)
    ensures
        r@ == member_lines(texts(members@), texts(keep_members@)),
{
    let ghost keep = texts(keep_members@);
    let ghost msv = texts(members@);
    let mut out: Vec<char> = Vec::new();
    let mut i: usize = 0;
    assert(msv.take(0) =~= Seq::<Seq<char>>::empty());
    while i < members.len()
        invariant
            i <= members@.len(),
            msv == texts(members@),
            keep == texts(keep_members@),
            out@ == member_lines(msv.take(i as int), keep),
        decreases members@.len() - i,
    {
        assert(msv.take(i + 1).drop_last() =~= msv.take(i as int));
        assert(msv.take(i + 1).last() == members@[i as int]@);
        let m = to_chars(members[i].as_str());
        if keep_contains(keep_members, &m) {
            extend_lit(&mut out, "    \"");
            extend(&mut out, &m);
            extend_lit(&mut out, "\",\n");
        }
        i = i + 1;
    }
    assert(msv.take(members@.len() as int) =~= msv);
    out
}

fn package_section_exec(doc: &Toml) -> (r: Vec<char>)
    ensures
        r@ == package_section(tget2(doc@, "workspace"@, "package"@)),
{
    let mut out: Vec<char> = Vec::new();
    match get2(doc, "workspace", "package") {
        Some(pkg) => {
            extend_lit(&mut out, "\n[workspace.package]\n");
            extend(&mut out, &table_lines_exec(pkg));
        },
        None => {},
    }
    out
}

fn lints_section_exec(doc: &Toml) -> (r: Vec<char>)
    ensures
        r@ == lints_section(tget2(doc@, "workspace"@, "lints"@)),
{
    let mut out: Vec<char> = Vec::new();
    match get2(doc, "workspace", "lints") {
        Some(Toml::Table(t)) => {
            extend_lit(&mut out, "\n[workspace.lints]\n");
            extend(&mut out, &entry_lines_exec(t, true));
            match entries_get(t, "clippy") {
                Some(Toml::Table(c)) => {
                    extend_lit(&mut out, "\n[workspace.lints.clippy]\n");
                    extend(&mut out, &entry_lines_exec(c, false));
                },
                _ => {},
            }
        },
        _ => {},
    }
    out
}

fn dep_excluded_exec(v: &Toml, keep_members: &[String]) -> (r: bool)
    ensures
        r == dep_excluded(v@, texts(keep_members@)),
{
    match v {
        Toml::Table(t) => match entries_get(t, "path") {
            Some(Toml::Str(p)) => {
                let pc = to_chars(p.as_str());
                proof {
                    reveal_strlit("./");
                }
                let rel = if starts_lit(&pc, "./") {
                    slice_vec(&pc, 2, pc.len())
                } else {
                    pc
                };
                !keep_contains(keep_members, &rel)
            },
            _ => false,
        },
        _ => false,
    }
}

fn deps_section_exec(deps: &Vec<(String, Toml)>, keep_members: &[String]) -> (r: Vec<char>)
    ensures
        r@ == deps_section(teviews(deps@), texts(keep_members@)),
{
    let mut out: Vec<char> = Vec::new();
    proof {
        lemma_teviews(deps@);
    }
    if deps.len() == 0 {
        return out;
    }
    extend_lit(&mut out, "\n[workspace.dependencies]\n");
    let ghost keep = texts(keep_members@);
    let ghost dv = teviews(deps@);
    let ghost base2 = out@;
    let mut j: usize = 0;
    assert(dv.take(0) =~= Seq::<(Seq<char>, TomlV)>::empty());
    while j < deps.len()
        invariant
            j <= deps@.len(),
            dv == teviews(deps@),
            dv.len() == deps@.len(),
            forall|t: int| 0 <= t < deps@.len() ==> #[trigger] dv[t] == (deps@[t].0@, tview(deps@[t].1)),
            keep == texts(keep_members@),
            out@ == base2 + dep_lines(dv.take(j as int), keep),
        decreases deps@.len() - j,
    {
        assert(dv.take(j + 1).drop_last() =~= dv.take(j as int));
        assert(dv.take(j + 1).last() == dv[j as int]);
        let v = &deps[j].1;
        if !dep_excluded_exec(v, keep_members) {
            let key = rename_package_chars(&to_chars(deps[j].0.as_str()));
            let v2 = ensure_version_exec(v, &key);
            extend(&mut out, &key);
            extend_lit(&mut out, " = ");
            extend(&mut out, &render_dep_exec(&v2));
            extend_lit(&mut out, "\n");
        }
        j = j + 1;
    }
    assert(dv.take(deps@.len() as int) =~= dv);
    out
}

fn profile_section_exec(doc: &Toml) -> (r: Vec<char>)
    ensures
        r@ == profile_lines(top_table(doc@, "profile"@)),
{
    let mut out: Vec<char> = Vec::new();
    match tget_exec(doc, "profile") {
        Some(Toml::Table(p)) => {
            let ghost pv = teviews(p@);
            proof {
                lemma_teviews(p@);
            }
            let mut j: usize = 0;
            assert(pv.take(0) =~= Seq::<(Seq<char>, TomlV)>::empty());
            while j < p.len()
                invariant
                    j <= p@.len(),
                    pv == teviews(p@),
                    pv.len() == p@.len(),
                    forall|t: int| 0 <= t < p@.len() ==> #[trigger] pv[t] == (p@[t].0@, tview(p@[t].1)),
                    out@ == profile_lines(pv.take(j as int)),
                decreases p@.len() - j,
            {
                assert(pv.take(j + 1).drop_last() =~= pv.take(j as int));
                assert(pv.take(j + 1).last() == pv[j as int]);
                extend_lit(&mut out, "\n[profile.");
                extend(&mut out, &to_chars(p[j].0.as_str()));
                extend_lit(&mut out, "]\n");
                extend(&mut out, &table_lines_exec(&p[j].1));
                j = j + 1;
            }
            assert(pv.take(p@.len() as int) =~= pv);
        },
        _ => {},
    }
    out
}


/// Builds the publish workspace manifest (see
/// [`spec_rewrite_workspace_manifest`]).
pub fn rewrite_workspace_manifest(src: &WorkspaceManifest, keep_members: &[String]) -> (r: Result<String, ManifestReadError>)
    ensures
        r matches Ok(s) ==> spec_rewrite_workspace_manifest(src.doc@, texts(keep_members@)) == Some(s@),
        r is Err ==> spec_rewrite_workspace_manifest(src.doc@, texts(keep_members@)) is None,
{
    let doc = &src.doc;
    let members = match src.members() {
        Ok(v) => v,
        Err(e) => {
            return Err(e);
        },
    };
    let mut out = to_chars("[workspace]\n");
    extend_lit(&mut out, "resolver = \"2\"\n");
    extend_lit(&mut out, "\nmembers = [\n");
    extend(&mut out, &member_lines_exec(&members, keep_members));
    extend_lit(&mut out, "]\n");
    extend(&mut out, &package_section_exec(doc));
    extend(&mut out, &lints_section_exec(doc));
    let deps = src.workspace_deps();
    extend(&mut out, &deps_section_exec(&deps, keep_members));
    extend(&mut out, &profile_section_exec(doc));
    Ok(from_chars(&out))
}

} // verus!
