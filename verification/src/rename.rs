//! Refreshing the parallel workspace: which crates are left out, and the
//! rewrite of the lockfile with every `codex-*` package renamed and the
//! blocks of packages that are not carried over dropped.

use vstd::prelude::*;
use crate::manifest::{rename_package_chars, spec_rename_package};
use crate::json::{get, get_str, jviews, lemma_jviews, ostr, vget, Json, JsonV};
use crate::toml_value::{tget, TomlV};
use crate::workspace::{as_flag, tget2, CrateManifest};
use crate::text::{
    lemma_rfind_char_before, rfind_ch, rfind_char, eq_lit, extend, extend_lit, from_chars, lead_ws, lead_ws_len, lemma_lead_ws, lines, replace_all,
    replace_vec, seq_eq, slice_vec, split_lines, starts_lit, starts_with, to_chars, trim, trim_char,
    trim_char_vec, trim_start, trim_vec, views,
};

verus! {

/// The workspace's own crates: members that are never copied from the
/// source tree and never cleaned up as orphans.
pub fn own_crate_members() -> (r: Vec<&'static str>)
    ensures
        r@.map_values(|s: &str| s@) == spec_own_crates(),
{
    let v = vec!["lemurclaw", "lemurclaw-gui", "lemurclaw-webui", "lemurclaw-transport"];
    assert(v@.map_values(|s: &str| s@) =~= spec_own_crates());
    v
}

/// The own crates' package names.
pub open spec fn spec_own_crates() -> Seq<Seq<char>> {
    seq!["lemurclaw"@, "lemurclaw-gui"@, "lemurclaw-webui"@, "lemurclaw-transport"@]
}

/// The own crates other own crates depend on: (key, path, version).
pub open spec fn spec_own_crate_deps() -> Seq<(Seq<char>, Seq<char>, Seq<char>)> {
    seq![
        ("lemurclaw-gui"@, "lemurclaw-gui"@, "0.0.0"@),
        ("lemurclaw-transport"@, "lemurclaw-transport"@, "0.0.0"@),
        ("lemurclaw-webui"@, "lemurclaw-webui"@, "0.0.0"@),
    ]
}

/// See [`spec_own_crate_deps`].
pub fn own_crate_deps() -> (r: Vec<(&'static str, &'static str, &'static str)>)
    ensures
        r@.map_values(|t: (&str, &str, &str)| (t.0@, t.1@, t.2@)) == spec_own_crate_deps(),
{
    let v = vec![
        ("lemurclaw-gui", "lemurclaw-gui", "0.0.0"),
        ("lemurclaw-transport", "lemurclaw-transport", "0.0.0"),
        ("lemurclaw-webui", "lemurclaw-webui", "0.0.0"),
    ];
    assert(v@.map_values(|t: (&str, &str, &str)| (t.0@, t.1@, t.2@)) =~= spec_own_crate_deps());
    v
}

/// Crates other crates may name as dev-dependencies that are not carried
/// over; references to them are dropped from the rewritten manifests.
pub fn excluded_dep_names() -> (r: Vec<String>)
    ensures
        r@.map_values(|s: String| s@) == seq![
            "core_test_support"@,
            "app_test_support"@,
            "mcp_test_support"@,
            "codex-exec-server-test-support"@,
            "codex-test-binary-support"@,
        ],
{
    let v = vec![
        "core_test_support".to_owned(),
        "app_test_support".to_owned(),
        "mcp_test_support".to_owned(),
        "codex-exec-server-test-support".to_owned(),
        "codex-test-binary-support".to_owned(),
    ];
    assert(v@.map_values(|s: String| s@) =~= seq![
        "core_test_support"@,
        "app_test_support"@,
        "mcp_test_support"@,
        "codex-exec-server-test-support"@,
        "codex-test-binary-support"@,
    ]);
    v
}

/// A crate is left out when it is not published, when it is one of the
/// bin-only samples, or when it is a test helper.
pub open spec fn spec_is_excluded(name: Seq<char>, unpublishable: bool) -> bool {
    unpublishable || name == "codex-bwrap"@ || name == "codex-thread-manager-sample"@
        || name == "codex-test-binary-support"@
}

/// See [`spec_is_excluded`]; `unpublishable` is the manifest's
/// `publish = false`.
pub fn is_excluded(name: &str, unpublishable: bool) -> (r: bool)
    ensures
        r == spec_is_excluded(name@, unpublishable),
{
    if unpublishable {
        return true;
    }
    let n = to_chars(name);
    eq_lit(&n, "codex-bwrap") || eq_lit(&n, "codex-thread-manager-sample") || eq_lit(
        &n,
        "codex-test-binary-support",
    )
}

/// `line` with `"old"` replaced by `"new"`.
pub open spec fn spec_line_renamed(line: Seq<char>, old: Seq<char>, new: Seq<char>) -> Seq<char> {
    replace_all(line, "\""@ + old + "\""@, "\""@ + new + "\""@)
}

/// See [`spec_line_renamed`].
pub fn line_renamed_package_name(line: &[char], old: &[char], new: &[char]) -> (r: Vec<char>)
    ensures
        r@ == spec_line_renamed(line@, old@, new@),
{
    let mut p = to_chars("\"");
    extend(&mut p, old);
    extend_lit(&mut p, "\"");
    let mut q = to_chars("\"");
    extend(&mut q, new);
    extend_lit(&mut q, "\"");
    proof {
        reveal_strlit("\"");
    }
    replace_vec(line, &p, &q)
}

/// `r` is one of the renamed names.
pub open spec fn renamed_among(names: Seq<Seq<char>>, r: Seq<char>) -> bool
    decreases names.len(),
{
    names.len() > 0 && (spec_rename_package(names.last()) == r || renamed_among(names.drop_last(), r))
}

/// The packages kept: the renamed publishable crates and the own crates.
pub open spec fn kept(names: Seq<Seq<char>>, r: Seq<char>) -> bool {
    renamed_among(names, r) || spec_own_crates().contains(r)
}

pub struct LockPass {
    pub skip: bool,
    pub pending: bool,
}

/// One lockfile line: a `[[package]]` header is held back until the
/// block's `name =` line; a block of a `lemurclaw-*` package that is not
/// kept is dropped whole; a kept block's header is written before its name
/// line, with the name renamed; other lines get `codex-` and `codex_`
/// renamed.
pub open spec fn lock_line(names: Seq<Seq<char>>, st: LockPass, l: Seq<char>) -> (LockPass, Seq<char>) {
    let t = trim_start(l);
    if starts_with(t, "[[package]]"@) {
        (LockPass { pending: true, ..st }, seq![])
    } else if starts_with(t, "name = "@) {
        let name = trim_char(trim(t.skip(7)), '"');
        let renamed = spec_rename_package(name);
        if starts_with(renamed, "lemurclaw-"@) && !kept(names, renamed) {
            (LockPass { skip: true, pending: false }, seq![])
        } else {
            (
                LockPass { skip: false, pending: false },
                (if st.pending {
                    "[[package]]\n"@
                } else {
                    seq![]
                }) + spec_line_renamed(l, name, renamed) + "\n"@,
            )
        }
    } else if st.skip {
        (st, seq![])
    } else {
        (
            LockPass { pending: false, ..st },
            replace_all(replace_all(l, "codex-"@, "lemurclaw-"@), "codex_"@, "lemurclaw_"@) + "\n"@,
        )
    }
}

pub open spec fn lock_fold(names: Seq<Seq<char>>, ls: Seq<Seq<char>>, k: int) -> (LockPass, Seq<char>)
    decreases k,
{
    if k <= 0 {
        (LockPass { skip: false, pending: false }, seq![])
    } else {
        let (st, out) = lock_fold(names, ls, k - 1);
        let (st2, add) = lock_line(names, st, ls[k - 1]);
        (st2, out + add)
    }
}

/// The rewritten lockfile (see [`lock_line`]).
pub open spec fn spec_rewrite_lockfile(lock: Seq<char>, names: Seq<Seq<char>>) -> Seq<char> {
    let ls = lines(lock);
    lock_fold(names, ls, ls.len() as int).1
}

fn kept_exec(names: &[String], r: &[char]) -> (b: bool)
    ensures
        b == kept(names@.map_values(|s: String| s@), r@),
{
    let ghost nv = names@.map_values(|s: String| s@);
    let mut i: usize = 0;
    let mut found = false;
    assert(nv.take(0) =~= Seq::<Seq<char>>::empty());
    while i < names.len()
        invariant
            i <= names@.len(),
            nv == names@.map_values(|s: String| s@),
            found == renamed_among(nv.take(i as int), r@),
        decreases names@.len() - i,
    {
        assert(nv.take(i + 1).drop_last() =~= nv.take(i as int));
        assert(nv.take(i + 1).last() == names@[i as int]@);
        let rn = rename_package_chars(&to_chars(names[i].as_str()));
        if seq_eq(&rn, r) {
            found = true;
        }
        i = i + 1;
    }
    assert(nv.take(names@.len() as int) =~= nv);
    if found {
        return true;
    }
    let own = own_crate_members();
    let mut j: usize = 0;
    while j < own.len()
        invariant
            j <= own@.len(),
            own@.map_values(|s: &str| s@) == spec_own_crates(),
            forall|t: int| 0 <= t < j ==> spec_own_crates()[t] != r@,
        decreases own@.len() - j,
    {
        assert(spec_own_crates()[j as int] == own@[j as int]@);
        if seq_eq(&to_chars(own[j]), r) {
            assert(spec_own_crates()[j as int] == r@);
            return true;
        }
        j = j + 1;
    }
    assert(!spec_own_crates().contains(r@));
    false
}

/// Rewrites the lockfile for the publishable crates named `names` (their
/// source names); see [`spec_rewrite_lockfile`].
pub fn rewrite_lockfile(lock: &str, names: &[String]) -> (r: String)
    ensures
        r@ == spec_rewrite_lockfile(lock@, names@.map_values(|s: String| s@)),
{
    let ghost nv = names@.map_values(|s: String| s@);
    let ls = split_lines(&to_chars(lock));
    let ghost lv = views(ls@);
    let mut skip = false;
    let mut pending = false;
    let mut out: Vec<char> = Vec::new();
    let mut i: usize = 0;
    proof {
        reveal_strlit("name = ");
    }
    while i < ls.len()
        invariant
            i <= ls@.len(),
            lv == views(ls@),
            lv == lines(lock@),
            nv == names@.map_values(|s: String| s@),
            (LockPass { skip, pending }, out@) == lock_fold(nv, lv, i as int),
        decreases ls@.len() - i,
    {
        let l = &ls[i];
        assert(lv[i as int] == l@);
        let ghost o = out@;
        let ghost res = lock_line(nv, LockPass { skip, pending }, l@);
        let k = lead_ws_len(l);
        proof {
            lemma_lead_ws(l@);
        }
        let t = slice_vec(l, k, l.len());
        if starts_lit(&t, "[[package]]") {
            pending = true;
        } else if starts_lit(&t, "name = ") {
            proof {
                reveal_strlit("name = ");
            }
            let name = trim_char_vec(&trim_vec(&slice_vec(&t, 7, t.len())), '"');
            let renamed = rename_package_chars(&name);
            if starts_lit(&renamed, "lemurclaw-") && !kept_exec(names, &renamed) {
                skip = true;
                pending = false;
            } else {
                skip = false;
                if pending {
                    extend_lit(&mut out, "[[package]]\n");
                } else {
                    assert(out@ =~= out@ + Seq::<char>::empty());
                }
                let ghost o1 = out@;
                extend(&mut out, &line_renamed_package_name(l, &name, &renamed));
                extend_lit(&mut out, "\n");
                pending = false;
            }
        } else if skip {
        } else {
            pending = false;
            proof {
                reveal_strlit("codex-");
                reveal_strlit("codex_");
            }
            let a = replace_vec(l, &to_chars("codex-"), &to_chars("lemurclaw-"));
            let b = replace_vec(&a, &to_chars("codex_"), &to_chars("lemurclaw_"));
            extend(&mut out, &b);
            extend_lit(&mut out, "\n");
        }
        assert(out@ =~= o + res.1);
        i = i + 1;
    }
    from_chars(&out)
}


/// A test-support crate: its directory is under `tests/` or has a `tests`
/// component further down.
pub open spec fn spec_is_test_support(rel_dir: Seq<char>) -> bool {
    starts_with(rel_dir, "tests/"@) || crate::text::contains(rel_dir, "/tests/"@)
}

/// See [`spec_is_test_support`].
pub fn is_test_support(rel_dir: &str) -> (r: bool)
    ensures
        r == spec_is_test_support(rel_dir@),
{
    let d = to_chars(rel_dir);
    starts_lit(&d, "tests/") || crate::text::contains_seq(&d, &to_chars("/tests/"))
}

/// The number of `[[bin]]` headers among the lines.
pub open spec fn bin_headers(ls: Seq<Seq<char>>) -> nat
    decreases ls.len(),
{
    if ls.len() == 0 {
        0
    } else {
        bin_headers(ls.drop_last()) + if starts_with(trim_start(ls.last()), "[[bin]]"@) {
            1nat
        } else {
            0nat
        }
    }
}

/// The number of `[[bin]]` sections of a manifest.
pub fn bin_count(manifest: &str) -> (r: usize)
    ensures
        r as nat == bin_headers(lines(manifest@)),
{
    let ls = split_lines(&to_chars(manifest));
    let ghost lv = views(ls@);
    let mut n: usize = 0;
    let mut i: usize = 0;
    assert(lv.take(0) =~= Seq::<Seq<char>>::empty());
    while i < ls.len()
        invariant
            i <= ls@.len(),
            lv == views(ls@),
            lv == lines(manifest@),
            n as nat == bin_headers(lv.take(i as int)),
            n <= i,
        decreases ls@.len() - i,
    {
        assert(lv.take(i + 1).drop_last() =~= lv.take(i as int));
        assert(lv.take(i + 1).last() == ls@[i as int]@);
        let t = crate::text::trim_start_vec(&ls[i]);
        if starts_lit(&t, "[[bin]]") {
            n = n + 1;
        }
        i = i + 1;
    }
    assert(lv.take(ls@.len() as int) =~= lv);
    n
}

/// Directory names a crate copy skips: build outputs and installed
/// packages.
pub open spec fn spec_copy_skips(name: Seq<char>) -> bool {
    name == "target"@ || name == "node_modules"@ || name == "dist"@
}

/// See [`spec_copy_skips`].
pub fn copy_skips(name: &str) -> (r: bool)
    ensures
        r == spec_copy_skips(name@),
{
    let n = to_chars(name);
    eq_lit(&n, "target") || eq_lit(&n, "node_modules") || eq_lit(&n, "dist")
}

/// Directory names the search for crate directories does not enter:
/// build outputs, the git store and installed packages.
pub open spec fn spec_crate_scan_skips(name: Seq<char>) -> bool {
    name == "target"@ || name == ".git"@ || name == "node_modules"@
}

/// See [`spec_crate_scan_skips`].
pub fn crate_scan_skips(name: &str) -> (r: bool)
    ensures
        r == spec_crate_scan_skips(name@),
{
    let n = to_chars(name);
    eq_lit(&n, "target") || eq_lit(&n, ".git") || eq_lit(&n, "node_modules")
}

/// The crate directories found in the output tree that are orphans: not
/// expected from the source workspace and not an own crate.
pub open spec fn spec_orphans(existing: Seq<Seq<char>>, expected: Seq<Seq<char>>) -> Seq<Seq<char>> {
    existing.filter(|d: Seq<char>| !expected.contains(d) && !spec_own_crates().contains(d))
}

/// See [`spec_orphans`].
pub fn orphan_dirs(existing: &[String], expected: &[String]) -> (r: Vec<String>)
    ensures
        r@.map_values(|s: String| s@) == spec_orphans(
            existing@.map_values(|s: String| s@),
            expected@.map_values(|s: String| s@),
        ),
{
    let ghost ev = existing@.map_values(|s: String| s@);
    let ghost xv = expected@.map_values(|s: String| s@);
    let own = own_crate_members();
    let mut out: Vec<String> = Vec::new();
    let mut i: usize = 0;
    assert(ev.take(0) =~= Seq::<Seq<char>>::empty());
    while i < existing.len()
        invariant
            i <= existing@.len(),
            ev == existing@.map_values(|s: String| s@),
            xv == expected@.map_values(|s: String| s@),
            own@.map_values(|s: &str| s@) == spec_own_crates(),
            out@.map_values(|s: String| s@) == spec_orphans(ev.take(i as int), xv),
        decreases existing@.len() - i,
    {
        let d = to_chars(existing[i].as_str());
        assert(ev[i as int] == d@);
        let mut in_expected = false;
        let mut k: usize = 0;
        while k < expected.len()
            invariant
                k <= expected@.len(),
                xv == expected@.map_values(|s: String| s@),
                in_expected == xv.take(k as int).contains(d@),
            decreases expected@.len() - k,
        {
            proof {
                let t0 = xv.take(k as int);
                let t1 = xv.take(k + 1);
                assert(t1 =~= t0.push(xv[k as int]));
                assert(xv[k as int] == expected@[k as int]@);
                if t1.contains(d@) {
                    let q = choose|q: int| 0 <= q < t1.len() && #[trigger] t1[q] == d@;
                    if q < k {
                        assert(t0[q] == d@);
                    }
                }
                if t0.contains(d@) {
                    let q = choose|q: int| 0 <= q < t0.len() && #[trigger] t0[q] == d@;
                    assert(t1[q] == d@);
                }
                if xv[k as int] == d@ {
                    assert(t1[k as int] == d@);
                }
            }
            if seq_eq(&to_chars(expected[k].as_str()), &d) {
                in_expected = true;
            }
            k = k + 1;
        }
        assert(xv.take(expected@.len() as int) =~= xv);
        let mut is_own = false;
        let mut j: usize = 0;
        while j < own.len()
            invariant
                j <= own@.len(),
                own@.map_values(|s: &str| s@) == spec_own_crates(),
                is_own == spec_own_crates().take(j as int).contains(d@),
            decreases own@.len() - j,
        {
            proof {
                let w = spec_own_crates();
                let t0 = w.take(j as int);
                let t1 = w.take(j + 1);
                assert(t1 =~= t0.push(w[j as int]));
                assert(w[j as int] == own@[j as int]@);
                if t1.contains(d@) {
                    let q = choose|q: int| 0 <= q < t1.len() && #[trigger] t1[q] == d@;
                    if q < j {
                        assert(t0[q] == d@);
                    }
                }
                if t0.contains(d@) {
                    let q = choose|q: int| 0 <= q < t0.len() && #[trigger] t0[q] == d@;
                    assert(t1[q] == d@);
                }
                if w[j as int] == d@ {
                    assert(t1[j as int] == d@);
                }
            }
            if seq_eq(&to_chars(own[j]), &d) {
                is_own = true;
            }
            j = j + 1;
        }
        assert(spec_own_crates().take(own@.len() as int) =~= spec_own_crates());
        let ghost prev = out@;
        proof {
            let f = |x: Seq<char>| !xv.contains(x) && !spec_own_crates().contains(x);
            assert(ev.take(i + 1) =~= ev.take(i as int).push(ev[i as int]));
            ev.take(i as int).lemma_filter_push(ev[i as int], f);
        }
        if !in_expected && !is_own {
            out.push(existing[i].clone());
            assert(out@.map_values(|s: String| s@) =~= prev.map_values(|s: String| s@).push(d@));
        }
        i = i + 1;
    }
    assert(ev.take(existing@.len() as int) =~= ev);
    out
}


// ---------------------------------------------------------------------------
// Discovery
// ---------------------------------------------------------------------------

/// The text of an optional string, empty when absent.
pub open spec fn text_or_empty(o: Option<Seq<char>>) -> Seq<char> {
    match o {
        Some(s) => s,
        None => seq![],
    }
}

/// The packages `cargo metadata` lists, as (name, manifest path); a
/// package whose name or manifest path is missing or empty is passed over.
pub open spec fn spec_metadata_packages(pkgs: Seq<JsonV>) -> Seq<(Seq<char>, Seq<char>)>
    decreases pkgs.len(),
{
    if pkgs.len() == 0 {
        seq![]
    } else {
        let r = spec_metadata_packages(pkgs.drop_last());
        let n = text_or_empty(ostr(vget(pkgs.last(), "name"@)));
        let m = text_or_empty(ostr(vget(pkgs.last(), "manifest_path"@)));
        if n.len() == 0 || m.len() == 0 {
            r
        } else {
            r.push((n, m))
        }
    }
}

pub open spec fn pairs_view(v: Seq<(String, String)>) -> Seq<(Seq<char>, Seq<char>)> {
    v.map_values(|p: (String, String)| (p.0@, p.1@))
}

fn text_of_opt(o: Option<&str>) -> (r: String)
    ensures
        r@ == text_or_empty(
            match o {
                Some(s) => Some(s@),
                None => None,
            },
        ),
{
    match o {
        Some(s) => s.to_owned(),
        None => String::new(),
    }
}

/// The (name, manifest path) of each package of `cargo metadata` output
/// (see [`spec_metadata_packages`]); none when `packages` is missing or is
/// not an array.
pub fn metadata_packages(metadata: &Json) -> (r: Option<Vec<(String, String)>>)
    ensures
        r matches Some(v) ==> vget(metadata@, "packages"@) matches Some(JsonV::Array(p))
            && pairs_view(v@) == spec_metadata_packages(p),
        r is None ==> !(vget(metadata@, "packages"@) matches Some(JsonV::Array(_))),
{
    let pkgs = match get(metadata, "packages") {
        Some(Json::Array(a)) => a,
        _ => {
            return None;
        },
    };
    let ghost pv = jviews(pkgs@);
    proof {
        lemma_jviews(pkgs@);
    }
    let mut out: Vec<(String, String)> = Vec::new();
    let mut i: usize = 0;
    assert(pv.take(0) =~= Seq::<JsonV>::empty());
    assert(pairs_view(out@) =~= Seq::<(Seq<char>, Seq<char>)>::empty());
    while i < pkgs.len()
        invariant
            i <= pkgs@.len(),
            pv == jviews(pkgs@),
            pv.len() == pkgs@.len(),
            forall|t: int| 0 <= t < pkgs@.len() ==> #[trigger] pv[t] == pkgs@[t]@,
            pairs_view(out@) == spec_metadata_packages(pv.take(i as int)),
        decreases pkgs@.len() - i,
    {
        assert(pv.take(i + 1).drop_last() =~= pv.take(i as int));
        assert(pv.take(i + 1).last() == pkgs@[i as int]@);
        let p = &pkgs[i];
        let name = text_of_opt(get_str(p, "name"));
        let path = text_of_opt(get_str(p, "manifest_path"));
        if !name.as_str().is_empty() && !path.as_str().is_empty() {
            let ghost before = out@;
            out.push((name, path));
            assert(pairs_view(out@) =~= pairs_view(before).push((name@, path@)));
        }
        i = i + 1;
    }
    assert(pv.take(pkgs@.len() as int) =~= pv);
    Some(out)
}

/// A package name as a crate identifier: `-` becomes `_`.
pub open spec fn spec_crate_ident(name: Seq<char>) -> Seq<char> {
    name.map_values(|c: char| if c == '-' { '_' } else { c })
}

/// The crate identifiers the source rewrite renames: those of the package
/// names that start with `codex-` or `codex_`, in order.
pub open spec fn spec_known_crate_idents(names: Seq<Seq<char>>) -> Seq<Seq<char>>
    decreases names.len(),
{
    if names.len() == 0 {
        seq![]
    } else {
        let r = spec_known_crate_idents(names.drop_last());
        let n = names.last();
        if starts_with(n, "codex-"@) || starts_with(n, "codex_"@) {
            r.push(spec_crate_ident(n))
        } else {
            r
        }
    }
}

pub(crate) fn crate_ident(name: &str) -> (r: String)
    ensures
        r@ == spec_crate_ident(name@),
{
    let cs = to_chars(name);
    let mut out: Vec<char> = Vec::new();
    let mut i: usize = 0;
    while i < cs.len()
        invariant
            i <= cs@.len(),
            cs@ == name@,
            out@ == spec_crate_ident(cs@.take(i as int)),
        decreases cs@.len() - i,
    {
        assert(cs@.take(i + 1) =~= cs@.take(i as int).push(cs@[i as int]));
        let c = cs[i];
        out.push(if c == '-' { '_' } else { c });
        assert(out@ =~= spec_crate_ident(cs@.take(i + 1)));
        i = i + 1;
    }
    assert(cs@.take(cs@.len() as int) =~= cs@);
    from_chars(&out)
}

/// See [`spec_known_crate_idents`].
pub fn known_crate_idents(names: &[String]) -> (r: Vec<String>)
    ensures
        views_of(r@) == spec_known_crate_idents(views_of(names@)),
{
    let ghost nv = views_of(names@);
    let mut out: Vec<String> = Vec::new();
    let mut i: usize = 0;
    assert(nv.take(0) =~= Seq::<Seq<char>>::empty());
    assert(views_of(out@) =~= Seq::<Seq<char>>::empty());
    while i < names.len()
        invariant
            i <= names@.len(),
            nv == views_of(names@),
            views_of(out@) == spec_known_crate_idents(nv.take(i as int)),
        decreases names@.len() - i,
    {
        assert(nv.take(i + 1).drop_last() =~= nv.take(i as int));
        assert(nv.take(i + 1).last() == names@[i as int]@);
        let n = to_chars(names[i].as_str());
        if starts_lit(&n, "codex-") || starts_lit(&n, "codex_") {
            let ghost before = out@;
            out.push(crate_ident(names[i].as_str()));
            assert(views_of(out@) =~= views_of(before).push(spec_crate_ident(names@[i as int]@)));
        }
        i = i + 1;
    }
    assert(nv.take(names@.len() as int) =~= nv);
    out
}

pub open spec fn views_of(v: Seq<String>) -> Seq<Seq<char>> {
    v.map_values(|s: String| s@)
}

/// The directory a crate takes in the publish workspace: its source
/// directory, with a last component that starts with `codex-` renamed.
pub open spec fn spec_dst_rel_dir(rel_dir: Seq<char>) -> Seq<char> {
    let k = match rfind_char(rel_dir, '/') {
        Some(i) => i + 1,
        None => 0,
    };
    rel_dir.take(k) + spec_rename_package(rel_dir.skip(k))
}

/// See [`spec_dst_rel_dir`].
pub fn dst_rel_dir(rel_dir: &str) -> (r: String)
    ensures
        r@ == spec_dst_rel_dir(rel_dir@),
{
    let d = to_chars(rel_dir);
    let n = d.len();
    let k: usize = match rfind_ch(&d, '/') {
        Some(i) => {
            proof {
                lemma_rfind_char_before(d@, '/', d@.len() as int);
            }
            assert(i < n);
            i + 1
        },
        None => 0,
    };
    let head = slice_vec(&d, 0, k);
    let leaf = rename_package_chars(&slice_vec(&d, k, d.len()));
    let mut out = head;
    extend(&mut out, &leaf);
    from_chars(&out)
}

/// A crate carried over to the publish workspace.
pub struct CrateInfo {
    /// The package name, e.g. `codex-core`.
    pub name: String,
    /// Its directory in the source workspace.
    pub rel_dir: String,
    /// Its directory in the publish workspace (see [`spec_dst_rel_dir`]).
    pub dst_rel_dir: String,
    /// Whether its `[[bin]]` targets are dropped.
    pub drop_bins: bool,
    /// Whether it is a proc-macro crate.
    pub is_proc_macro: bool,
}

/// Whether a package is left out of the publish workspace: excluded by name
/// or `publish = false` (see [`spec_is_excluded`]), or a test-support crate.
pub open spec fn spec_left_out(name: Seq<char>, rel_dir: Seq<char>, doc: TomlV) -> bool {
    spec_is_excluded(name, tget2(doc, "package"@, "publish"@) == Some(TomlV::Bool(false)))
        || spec_is_test_support(rel_dir)
}

/// What the publish workspace takes of a package: nothing when it is left
/// out (see [`spec_left_out`]); else its name, directories, whether its
/// binaries are dropped and whether it is a proc-macro crate.
pub fn crate_info(name: &str, rel_dir: &str, manifest: &CrateManifest) -> (r: Option<CrateInfo>)
    ensures
        r is None <==> spec_left_out(name@, rel_dir@, manifest.doc@),
        r matches Some(c) ==> c.name@ == name@ && c.rel_dir@ == rel_dir@ && c.dst_rel_dir@
            == spec_dst_rel_dir(rel_dir@) && c.drop_bins == (tget(manifest.doc@, "bin"@) is Some
            || tget(manifest.doc@, "lib"@) is Some) && c.is_proc_macro == as_flag(
            tget2(manifest.doc@, "lib"@, "proc-macro"@),
        ),
{
    if is_excluded(name, manifest.is_unpublishable()) || is_test_support(rel_dir) {
        return None;
    }
    Some(
        CrateInfo {
            name: name.to_owned(),
            rel_dir: rel_dir.to_owned(),
            dst_rel_dir: dst_rel_dir(rel_dir),
            drop_bins: manifest.should_drop_bins(),
            is_proc_macro: manifest.is_proc_macro(),
        },
    )
}

} // verus!
