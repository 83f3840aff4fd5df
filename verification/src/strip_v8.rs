//! Removing the V8 runtime from the publish tree, and putting it back: the
//! workspace manifest loses (or regains) the V8 dependencies and the
//! V8-only members. Reading and writing the files, deleting directories and
//! refreshing the lockfile are the caller's.

use vstd::prelude::*;
use crate::manifest::{is_header, rename_package_chars, spec_rename_package};
use crate::toml_value::{parse_toml, tget, tget_exec, toml_parse, Toml, TomlV};
use crate::workspace::{as_text, get2, render_dep, render_dep_exec, tget2, ws_deps, ManifestReadError};
use crate::text::{
    contains, contains_seq, ends_with, extend, extend_lit, find_ch, find_char, from_chars, has_prefix,
    lemma_find_from, lemma_lines_no_newline, lemma_lines_unlines, lines, plain_line, seq_eq, slice_vec,
    split_lines, starts_lit, starts_with, to_chars, trim, trim_start, trim_start_char,
    trim_start_char_vec, trim_start_vec, trim_vec, unlines, views,
};

verus! {

/// The crates that only provide or exercise the V8 runtime; their
/// directories are removed.
pub fn v8_only_crates() -> (r: Vec<&'static str>)
    ensures
        r@.map_values(|s: &str| s@) == seq!["code-mode-host"@, "v8-poc"@],
{
    let v = vec!["code-mode-host", "v8-poc"];
    assert(v@.map_values(|s: &str| s@) =~= seq!["code-mode-host"@, "v8-poc"@]);
    v
}

/// Some removed crate directory begins the quoted member entry `t`.
pub open spec fn member_of_removed(t: Seq<char>, removed: Seq<Seq<char>>) -> bool {
    exists|i: int| 0 <= i < removed.len() && starts_with(trim_start_char(trim(t), '"'), #[trigger] removed[i])
}

/// Whether the `members` entry line `trimmed` names a removed crate
/// directory (see [`member_of_removed`]).
pub fn removed_member_should_skip(trimmed: &[char], removed_crates: &[String]) -> (r: bool)
    ensures
        r == member_of_removed(trimmed@, removed_crates@.map_values(|s: String| s@)),
{
    let ghost rv = removed_crates@.map_values(|s: String| s@);
    let stripped = trim_start_char_vec(&trim_vec(trimmed), '"');
    let mut i: usize = 0;
    while i < removed_crates.len()
        invariant
            i <= removed_crates@.len(),
            rv == removed_crates@.map_values(|s: String| s@),
            stripped@ == trim_start_char(trim(trimmed@), '"'),
            forall|j: int| 0 <= j < i ==> !starts_with(stripped@, #[trigger] rv[j]),
        decreases removed_crates@.len() - i,
    {
        assert(rv[i as int] == removed_crates@[i as int]@);
        if has_prefix(&stripped, &to_chars(removed_crates[i].as_str())) {
            return true;
        }
        i = i + 1;
    }
    false
}

/// The key of a `key = value` line: what stands before the first `=`,
/// trimmed; none when there is no `=`, the key is empty or it opens a
/// header.
pub open spec fn spec_dep_key(t: Seq<char>) -> Option<Seq<char>> {
    match find_char(t, '=') {
        Some(eq) => {
            let k = trim(t.take(eq));
            if k.len() == 0 || starts_with(k, "["@) {
                None
            } else {
                Some(k)
            }
        },
        None => None,
    }
}

/// See [`spec_dep_key`].
pub fn dep_key_on_line(trimmed: &[char]) -> (r: Option<String>)
    ensures
        match r {
            Some(k) => spec_dep_key(trimmed@) == Some(k@),
            None => spec_dep_key(trimmed@) is None,
        },
{
    match find_ch(trimmed, '=') {
        Some(eq) => {
            proof {
                lemma_find_from(trimmed@, seq!['='], 0);
            }
            let k = trim_vec(&slice_vec(trimmed, 0, eq));
            assert(trimmed@.subrange(0, eq as int) =~= trimmed@.take(eq as int));
            if k.len() == 0 || starts_lit(&k, "[") {
                None
            } else {
                Some(from_chars(&k))
            }
        },
        None => None,
    }
}

/// The workspace-dependency key of each removed crate directory.
pub open spec fn removed_dep_keys(removed: Seq<Seq<char>>) -> Seq<Seq<char>> {
    removed.map_values(|c: Seq<char>| spec_rename_package("codex-"@ + c))
}

/// A workspace dependency that goes with V8.
pub open spec fn dropped_dep(k: Seq<char>, removed: Seq<Seq<char>>) -> bool {
    k == "v8"@ || k == "deno_core_icudata"@ || removed_dep_keys(removed).contains(k)
}

/// Where the rewrite stands: inside `[workspace.dependencies]`, inside a
/// multi-line `members = [` array.
pub struct StripPass {
    pub in_deps: bool,
    pub in_members: bool,
}

/// One line of the strip rewrite: headers and the bounds of the members
/// array are kept and move the state; in the members array an entry of a
/// removed crate is dropped; in `[workspace.dependencies]` a V8 entry is
/// dropped; anything else is kept.
pub open spec fn strip_line(st: StripPass, line: Seq<char>, removed: Seq<Seq<char>>) -> (StripPass, bool) {
    let t = trim_start(line);
    if is_header(t) {
        (StripPass { in_deps: t == "[workspace.dependencies]"@, in_members: false }, true)
    } else if starts_with(t, "members = ["@) {
        (StripPass { in_members: !contains(t, "]"@), ..st }, true)
    } else if st.in_members {
        if starts_with(t, "]"@) {
            (StripPass { in_members: false, ..st }, true)
        } else {
            (st, !member_of_removed(t, removed))
        }
    } else if st.in_deps && (match spec_dep_key(t) {
        Some(k) => dropped_dep(k, removed),
        None => false,
    }) {
        (st, false)
    } else {
        (st, true)
    }
}

/// The state after the first `k` lines, and the lines kept of them.
pub open spec fn strip_fold(ls: Seq<Seq<char>>, removed: Seq<Seq<char>>, k: int) -> (StripPass, Seq<Seq<char>>)
    decreases k,
{
    if k <= 0 {
        (StripPass { in_deps: false, in_members: false }, seq![])
    } else {
        let (st, kept) = strip_fold(ls, removed, k - 1);
        let (st2, keep) = strip_line(st, ls[k - 1], removed);
        (st2, if keep {
            kept.push(ls[k - 1])
        } else {
            kept
        })
    }
}

/// The rewritten workspace manifest: the kept lines, each ended by a
/// newline.
pub open spec fn spec_strip_workspace(raw: Seq<char>, removed: Seq<Seq<char>>) -> Seq<char> {
    unlines(strip_fold(lines(raw), removed, lines(raw).len() as int).1)
}

fn strip_line_exec(st: &mut StripPass, line: &[char], removed_crates: &[String], removed_keys: &[Vec<char>]) -> (keep: bool)
    requires
        views(removed_keys@) == removed_dep_keys(removed_crates@.map_values(|s: String| s@)),
    ensures
        (*final(st), keep) == strip_line(*old(st), line@, removed_crates@.map_values(|s: String| s@)),
{
    let ghost rv = removed_crates@.map_values(|s: String| s@);
    let t = trim_start_vec(line);
    if starts_lit(&t, "[") && crate::text::has_suffix(&t, &to_chars("]")) {
        st.in_deps = crate::text::eq_lit(&t, "[workspace.dependencies]");
        st.in_members = false;
        return true;
    }
    if starts_lit(&t, "members = [") {
        st.in_members = !contains_seq(&t, &to_chars("]"));
        return true;
    }
    if st.in_members {
        if starts_lit(&t, "]") {
            st.in_members = false;
            return true;
        }
        return !removed_member_should_skip(&t, removed_crates);
    }
    if st.in_deps {
        match dep_key_on_line(&t) {
            Some(k) => {
                let kc = to_chars(k.as_str());
                let mut drop = crate::text::eq_lit(&kc, "v8") || crate::text::eq_lit(&kc, "deno_core_icudata");
                let ghost keys = removed_dep_keys(rv);
                let mut j: usize = 0;
                while j < removed_keys.len()
                    invariant
                        j <= removed_keys@.len(),
                        views(removed_keys@) == keys,
                        kc@ == k@,
                        drop == (kc@ == "v8"@ || kc@ == "deno_core_icudata"@ || keys.take(j as int).contains(kc@)),
                    decreases removed_keys@.len() - j,
                {
                    assert(keys[j as int] == removed_keys@[j as int]@);
                    assert(keys.take(j + 1).contains(kc@) == (keys.take(j as int).contains(kc@) || keys[j as int]
                        == kc@)) by {
                        let t = keys.take(j as int);
                        let t1 = keys.take(j + 1);
                        assert(t1 =~= t.push(keys[j as int]));
                        if t1.contains(kc@) {
                            let idx = choose|idx: int| 0 <= idx < t1.len() && t1[idx] == kc@;
                            if idx < t.len() {
                                assert(t[idx] == kc@);
                            }
                        }
                        if t.contains(kc@) {
                            let idx = choose|idx: int| 0 <= idx < t.len() && t[idx] == kc@;
                            assert(t1[idx] == kc@);
                        }
                        if keys[j as int] == kc@ {
                            assert(t1[j as int] == kc@);
                        }
                    }
                    if seq_eq(&removed_keys[j], &kc) {
                        drop = true;
                    }
                    j = j + 1;
                }
                assert(keys.take(removed_keys@.len() as int) =~= keys);
                return !drop;
            },
            None => {
                return true;
            },
        }
    }
    true
}

fn removed_keys_exec(removed_crates: &[String]) -> (r: Vec<Vec<char>>)
    ensures
        views(r@) == removed_dep_keys(removed_crates@.map_values(|s: String| s@)),
{
    let ghost rv = removed_crates@.map_values(|s: String| s@);
    let mut out: Vec<Vec<char>> = Vec::new();
    let mut i: usize = 0;
    while i < removed_crates.len()
        invariant
            i <= removed_crates@.len(),
            rv == removed_crates@.map_values(|s: String| s@),
            views(out@) == removed_dep_keys(rv.take(i as int)),
        decreases removed_crates@.len() - i,
    {
        let mut name = to_chars("codex-");
        extend(&mut name, &to_chars(removed_crates[i].as_str()));
        let renamed = rename_package_chars(&name);
        let ghost prev = out@;
        out.push(renamed);
        assert(rv.take(i + 1) =~= rv.take(i as int).push(rv[i as int]));
        assert(views(out@) =~= views(prev).push(renamed@));
        assert(removed_dep_keys(rv.take(i + 1)) =~= removed_dep_keys(rv.take(i as int)).push(
            spec_rename_package("codex-"@ + rv[i as int]),
        ));
        i = i + 1;
    }
    assert(rv.take(removed_crates@.len() as int) =~= rv);
    out
}

/// Rewrites the workspace manifest for a tree without V8 (see
/// [`spec_strip_workspace`]); `removed_crates` are the crate directories
/// that were deleted.
pub fn strip_workspace_manifest_text(raw: &str, removed_crates: &[String]) -> (r: String)
    ensures
        r@ == spec_strip_workspace(raw@, removed_crates@.map_values(|s: String| s@)),
{
    let ghost rv = removed_crates@.map_values(|s: String| s@);
    let ls = split_lines(&to_chars(raw));
    let ghost lv = views(ls@);
    let keys = removed_keys_exec(removed_crates);
    let mut st = StripPass { in_deps: false, in_members: false };
    let mut out: Vec<char> = Vec::new();
    let ghost mut kept: Seq<Seq<char>> = seq![];
    let mut i: usize = 0;
    while i < ls.len()
        invariant
            i <= ls@.len(),
            lv == views(ls@),
            lv == lines(raw@),
            rv == removed_crates@.map_values(|s: String| s@),
            views(keys@) == removed_dep_keys(rv),
            (st, kept) == strip_fold(lv, rv, i as int),
            out@ == unlines(kept),
        decreases ls@.len() - i,
    {
        assert(lv[i as int] == ls@[i as int]@);
        let keep = strip_line_exec(&mut st, &ls[i], removed_crates, &keys);
        if keep {
            let ghost o = out@;
            let ghost old_kept = kept;
            extend(&mut out, &ls[i]);
            extend_lit(&mut out, "\n");
            proof {
                reveal_strlit("\n");
                kept = kept.push(lv[i as int]);
                assert(kept.drop_last() =~= old_kept);
                assert(unlines(kept) == unlines(kept.drop_last()) + kept.last() + seq!['\n']);
            }
            assert(out@ =~= unlines(kept));
        }
        i = i + 1;
    }
    from_chars(&out)
}

/// The fold over the first `n` lines depends on those lines alone.
proof fn lemma_strip_fold_prefix(a: Seq<Seq<char>>, b: Seq<Seq<char>>, removed: Seq<Seq<char>>, n: int)
    requires
        0 <= n <= a.len(),
        n <= b.len(),
        a.take(n) == b.take(n),
    ensures
        strip_fold(a, removed, n) == strip_fold(b, removed, n),
    decreases n,
{
    if n > 0 {
        assert(a.take(n - 1) =~= a.take(n).take(n - 1));
        assert(b.take(n - 1) =~= b.take(n).take(n - 1));
        lemma_strip_fold_prefix(a, b, removed, n - 1);
        assert(a[n - 1] == a.take(n)[n - 1]);
        assert(b[n - 1] == b.take(n)[n - 1]);
    }
}

/// Running the rewrite over the lines it kept keeps them all and ends in
/// the same state: a dropped line never moves the state.
proof fn lemma_strip_fold_kept(ls: Seq<Seq<char>>, removed: Seq<Seq<char>>, k: int)
    requires
        0 <= k <= ls.len(),
    ensures
        ({
            let (st, kept) = strip_fold(ls, removed, k);
            strip_fold(kept, removed, kept.len() as int) == (st, kept)
        }),
    decreases k,
{
    if k > 0 {
        lemma_strip_fold_kept(ls, removed, k - 1);
        let (st, kept) = strip_fold(ls, removed, k - 1);
        let (st2, keep) = strip_line(st, ls[k - 1], removed);
        if keep {
            let kept2 = kept.push(ls[k - 1]);
            assert(kept2.take(kept.len() as int) =~= kept.take(kept.len() as int));
            lemma_strip_fold_prefix(kept2, kept, removed, kept.len() as int);
            assert(kept2[kept.len() as int] == ls[k - 1]);
        } else {
            assert(st2 == st) by {
                let t = trim_start(ls[k - 1]);
            }
        }
    }
}

/// Removing V8 twice leaves what removing it once left, for any manifest
/// none of whose lines ends with a carriage return that `str::lines` keeps.
pub proof fn lemma_strip_workspace_idempotent(raw: Seq<char>, removed: Seq<Seq<char>>)
    requires
        forall|k: int| 0 <= k < lines(raw).len() ==> !(#[trigger] lines(raw)[k].len() > 0 && lines(raw)[k].last() == '\r'),
    ensures
        spec_strip_workspace(spec_strip_workspace(raw, removed), removed) == spec_strip_workspace(raw, removed),
{
    let ls = lines(raw);
    let (st, kept) = strip_fold(ls, removed, ls.len() as int);
    lemma_strip_fold_kept(ls, removed, ls.len() as int);
    lemma_strip_fold_subseq(ls, removed, ls.len() as int);
    lemma_lines_no_newline(raw);
    assert forall|k: int| 0 <= k < kept.len() implies #[trigger] plain_line(kept[k]) by {
        let j = choose|j: int| 0 <= j < ls.len() && ls[j] == kept[k];
        assert(ls[j] == kept[k]);
        assert forall|c: int| 0 <= c < kept[k].len() implies kept[k][c] != '\n' by {
            assert(ls[j][c] != '\n');
        }
        assert(!(ls[j].len() > 0 && ls[j].last() == '\r'));
    }
    lemma_lines_unlines(kept);
}

/// Every kept line is a line of the input.
proof fn lemma_strip_fold_subseq(ls: Seq<Seq<char>>, removed: Seq<Seq<char>>, k: int)
    requires
        0 <= k <= ls.len(),
    ensures
        forall|m: int| 0 <= m < strip_fold(ls, removed, k).1.len() ==> exists|j: int| 0 <= j < ls.len() && ls[j] == #[trigger] strip_fold(ls, removed, k).1[m],
    decreases k,
{
    if k > 0 {
        lemma_strip_fold_subseq(ls, removed, k - 1);
        let kept = strip_fold(ls, removed, k - 1).1;
        let kept2 = strip_fold(ls, removed, k).1;
        assert forall|m: int| 0 <= m < kept2.len() implies exists|j: int| 0 <= j < ls.len() && ls[j] == #[trigger] kept2[m] by {
            if m < kept.len() {
                assert(kept2[m] == kept[m]);
            } else {
                assert(kept2[m] == ls[k - 1]);
            }
        }
    }
}


/// The workspace dependencies the V8 removal drops and the restore adds
/// back, with their values as written in the manifest.
pub open spec fn spec_restore_deps() -> Seq<(Seq<char>, Seq<char>)> {
    seq![("v8"@, "\"=150.4.0\""@), ("deno_core_icudata"@, "\"0.77.0\""@)]
}

/// The `key = value` lines of [`spec_restore_deps`] whose `key =` does not
/// occur in `manifest`, then the code-mode host's line when there is one
/// and its key does not occur either.
pub open spec fn missing_deps(manifest: Seq<char>, host_dep: Option<Seq<char>>) -> Seq<char> {
    let v8 = if contains(manifest, "v8 ="@) {
        seq![]
    } else {
        "v8 = \"=150.4.0\"\n"@
    };
    let deno = if contains(manifest, "deno_core_icudata ="@) {
        seq![]
    } else {
        "deno_core_icudata = \"0.77.0\"\n"@
    };
    let host = match host_dep {
        Some(r) => if contains(manifest, spec_rename_package("codex-code-mode-host"@) + " ="@) {
            seq![]
        } else {
            r + "\n"@
        },
        None => seq![],
    };
    v8 + deno + host
}

/// See [`missing_deps`].
pub fn append_missing_deps(out: &mut Vec<char>, current_manifest: &[char], code_mode_host_dep: Option<&str>)
    ensures
        final(out)@ == old(out)@ + missing_deps(
            current_manifest@,
            match code_mode_host_dep {
                Some(r) => Some(r@),
                None => None,
            },
        ),
{
    let ghost o = out@;
    if !contains_seq(current_manifest, &to_chars("v8 =")) {
        extend_lit(out, "v8 = \"=150.4.0\"\n");
    }
    let ghost o1 = out@;
    if !contains_seq(current_manifest, &to_chars("deno_core_icudata =")) {
        extend_lit(out, "deno_core_icudata = \"0.77.0\"\n");
    }
    let ghost o2 = out@;
    match code_mode_host_dep {
        Some(rendered) => {
            let mut key = rename_package_chars(&to_chars("codex-code-mode-host"));
            extend_lit(&mut key, " =");
            if !contains_seq(current_manifest, &key) {
                extend(out, &to_chars(rendered));
                extend_lit(out, "\n");
            }
        },
        None => {},
    }
    assert(out@ =~= o + missing_deps(
        current_manifest@,
        match code_mode_host_dep {
            Some(r) => Some(r@),
            None => None,
        },
    )) by {
        reveal_strlit("");
    }
}

/// Where the restore stands: inside `[workspace.dependencies]`, inside the
/// members array, and the indentation of member entries.
pub struct RestorePass {
    pub in_deps: bool,
    pub in_members: bool,
    pub indent: Seq<char>,
}

/// The member entries written back, one per line.
pub open spec fn member_entries(indent: Seq<char>, members: Seq<Seq<char>>) -> Seq<char>
    decreases members.len(),
{
    if members.len() == 0 {
        seq![]
    } else {
        member_entries(indent, members.drop_last()) + indent + "\""@ + members.last() + "\",\n"@
    }
}

/// One line of the restore: headers move the state; the `members = [`
/// line sets the entry indentation (its own and four spaces); the array's
/// closing line is preceded by the restored entries; a line opening with
/// `[` inside the dependencies, other than a header, is preceded by the
/// missing dependencies; every line is kept.
pub open spec fn restore_line(
    st: RestorePass,
    line: Seq<char>,
    manifest: Seq<char>,
    members: Seq<Seq<char>>,
    host_dep: Option<Seq<char>>,
) -> (RestorePass, Seq<char>) {
    let t = trim_start(line);
    let kept = line + "\n"@;
    if is_header(t) {
        (RestorePass { in_deps: t == "[workspace.dependencies]"@, in_members: false, ..st }, kept)
    } else if starts_with(t, "members = ["@) {
        (
            RestorePass {
                in_members: !contains(t, "]"@),
                indent: line.take(crate::text::lead_ws(line) as int) + "    "@,
                ..st
            },
            kept,
        )
    } else if st.in_members && starts_with(t, "]"@) {
        (RestorePass { in_members: false, ..st }, member_entries(st.indent, members) + kept)
    } else if st.in_deps && starts_with(t, "["@) {
        (RestorePass { in_deps: false, ..st }, missing_deps(manifest, host_dep) + kept)
    } else {
        (st, kept)
    }
}

pub open spec fn restore_fold(
    ls: Seq<Seq<char>>,
    manifest: Seq<char>,
    members: Seq<Seq<char>>,
    host_dep: Option<Seq<char>>,
    k: int,
) -> (RestorePass, Seq<char>)
    decreases k,
{
    if k <= 0 {
        (RestorePass { in_deps: false, in_members: false, indent: "    "@ }, seq![])
    } else {
        let (st, out) = restore_fold(ls, manifest, members, host_dep, k - 1);
        let (st2, add) = restore_line(st, ls[k - 1], manifest, members, host_dep);
        (st2, out + add)
    }
}

/// The restored manifest: every line kept (see [`restore_line`]), and the
/// missing dependencies at the end when the text ends inside
/// `[workspace.dependencies]`.
pub open spec fn spec_restore_workspace(
    raw: Seq<char>,
    members: Seq<Seq<char>>,
    host_dep: Option<Seq<char>>,
) -> Seq<char> {
    let ls = lines(raw);
    let (st, out) = restore_fold(ls, raw, members, host_dep, ls.len() as int);
    if st.in_deps {
        out + missing_deps(raw, host_dep)
    } else {
        out
    }
}

fn member_entries_exec(out: &mut Vec<char>, indent: &[char], members: &[String])
    ensures
        final(out)@ == old(out)@ + member_entries(indent@, members@.map_values(|s: String| s@)),
{
    let ghost mv = members@.map_values(|s: String| s@);
    let ghost o = out@;
    let mut i: usize = 0;
    while i < members.len()
        invariant
            i <= members@.len(),
            mv == members@.map_values(|s: String| s@),
            out@ == o + member_entries(indent@, mv.take(i as int)),
        decreases members@.len() - i,
    {
        let ghost before = out@;
        extend(out, indent);
        extend_lit(out, "\"");
        extend(out, &to_chars(members[i].as_str()));
        extend_lit(out, "\",\n");
        assert(mv.take(i + 1).drop_last() =~= mv.take(i as int));
        assert(mv.take(i + 1).last() == members@[i as int]@);
        assert(out@ =~= o + member_entries(indent@, mv.take(i + 1)));
        i = i + 1;
    }
    assert(mv.take(members@.len() as int) =~= mv);
}

/// Writes back what the V8 removal took out of the workspace manifest (see
/// [`spec_restore_workspace`]): the restored member directories and the
/// V8 dependencies, with the code-mode host's rendered line when the
/// source workspace has one.
pub fn restore_workspace_manifest_text(raw: &str, restored_members: &[String], code_mode_host_dep: Option<&str>) -> (r: String)
    ensures
        r@ == spec_restore_workspace(
            raw@,
            restored_members@.map_values(|s: String| s@),
            match code_mode_host_dep {
                Some(d) => Some(d@),
                None => None,
            },
        ),
{
    let ghost mv = restored_members@.map_values(|s: String| s@);
    let ghost hd = match code_mode_host_dep {
        Some(d) => Some(d@),
        None => None,
    };
    let rc = to_chars(raw);
    let ls = split_lines(&rc);
    let ghost lv = views(ls@);
    let mut in_deps = false;
    let mut in_members = false;
    let mut indent = to_chars("    ");
    let mut out: Vec<char> = Vec::new();
    let mut i: usize = 0;
    while i < ls.len()
        invariant
            i <= ls@.len(),
            lv == views(ls@),
            lv == lines(raw@),
            rc@ == raw@,
            mv == restored_members@.map_values(|s: String| s@),
            hd == match code_mode_host_dep {
                Some(d) => Some(d@),
                None => None::<Seq<char>>,
            },
            (RestorePass { in_deps, in_members, indent: indent@ }, out@) == restore_fold(lv, raw@, mv, hd, i as int),
        decreases ls@.len() - i,
    {
        let l = &ls[i];
        assert(lv[i as int] == l@);
        let ghost o = out@;
        let t = trim_start_vec(l);
        if starts_lit(&t, "[") && crate::text::has_suffix(&t, &to_chars("]")) {
            in_deps = crate::text::eq_lit(&t, "[workspace.dependencies]");
            in_members = false;
        } else if starts_lit(&t, "members = [") {
            in_members = !contains_seq(&t, &to_chars("]"));
            let w = crate::text::lead_ws_len(l);
            proof {
                crate::text::lemma_lead_ws(l@);
            }
            indent = slice_vec(l, 0, w);
            extend_lit(&mut indent, "    ");
            assert(l@.subrange(0, w as int) =~= l@.take(w as int));
        } else if in_members && starts_lit(&t, "]") {
            member_entries_exec(&mut out, &indent, restored_members);
            in_members = false;
        } else if in_deps && starts_lit(&t, "[") {
            append_missing_deps(&mut out, &rc, code_mode_host_dep);
            in_deps = false;
        }
        let ghost mid = out@;
        extend(&mut out, l);
        extend_lit(&mut out, "\n");
        assert(out@ =~= mid + (l@ + "\n"@));
        i = i + 1;
    }
    if in_deps {
        append_missing_deps(&mut out, &rc, code_mode_host_dep);
    }
    from_chars(&out)
}


/// The package name of the code-mode crate and the name its library is
/// imported by (`lib.name`, else the package name with `-` written `_`);
/// the error is no field when the text is not TOML, else the missing
/// field.
pub open spec fn spec_code_mode_identity(raw: Seq<char>) -> Result<(Seq<char>, Seq<char>), Option<Seq<char>>> {
    match toml_parse(raw) {
        None => Err(None),
        Some(doc) => match as_text(tget2(doc, "package"@, "name"@)) {
            None => Err(Some("package.name"@)),
            Some(name) => Ok(
                (
                    name,
                    match as_text(tget2(doc, "lib"@, "name"@)) {
                        Some(l) => l,
                        None => crate::text::replace_all(name, "-"@, "_"@),
                    },
                ),
            ),
        },
    }
}

/// See [`spec_code_mode_identity`]; `raw` is the crate's manifest.
pub fn code_mode_identity(raw: &str) -> (r: Result<(String, String), ManifestReadError>)
    ensures
        match (r, spec_code_mode_identity(raw@)) {
            (Ok((a, b)), Ok((c, d))) => a@ == c && b@ == d,
            (Err(ManifestReadError::Parse), Err(None)) => true,
            (Err(ManifestReadError::Missing(a)), Err(Some(b))) => a@ == b,
            _ => false,
        },
{
    let doc = match parse_toml(raw) {
        Some(d) => d,
        None => {
            return Err(ManifestReadError::Parse);
        },
    };
    let name = match get2(&doc, "package", "name") {
        Some(Toml::Str(n)) => n.clone(),
        _ => {
            return Err(ManifestReadError::Missing("package.name".to_owned()));
        },
    };
    let lib = match get2(&doc, "lib", "name") {
        Some(Toml::Str(l)) => l.clone(),
        _ => {
            proof {
                reveal_strlit("-");
            }
            from_chars(&crate::text::replace_vec(&to_chars(name.as_str()), &to_chars("-"), &to_chars("_")))
        },
    };
    Ok((name, lib))
}

/// A dependency key that names the code-mode protocol crate.
pub open spec fn is_protocol_key(k: Seq<char>) -> bool {
    contains(k, "code-mode-protocol"@) || contains(k, "code_mode_protocol"@)
}

/// The first protocol key among the entries of a table.
pub open spec fn first_protocol_key(m: Seq<(Seq<char>, TomlV)>) -> Option<Seq<char>>
    decreases m.len(),
{
    if m.len() == 0 {
        None
    } else if is_protocol_key(m[0].0) {
        Some(m[0].0)
    } else {
        first_protocol_key(m.drop_first())
    }
}

/// The entries of the table `section` of a document (none when it is not
/// a table).
pub open spec fn section_entries(doc: TomlV, section: Seq<char>) -> Seq<(Seq<char>, TomlV)> {
    match tget(doc, section) {
        Some(TomlV::Table(m)) => m,
        _ => seq![],
    }
}

/// The key by which the code-mode crate depends on the protocol crate: the
/// first protocol key of `[dependencies]`, `[dev-dependencies]`, then
/// `[build-dependencies]`; else the renamed upstream key.
pub open spec fn spec_protocol_dependency_key(raw: Seq<char>) -> Option<Seq<char>> {
    match toml_parse(raw) {
        None => None,
        Some(doc) => Some(
            match first_protocol_key(section_entries(doc, "dependencies"@)) {
                Some(k) => k,
                None => match first_protocol_key(section_entries(doc, "dev-dependencies"@)) {
                    Some(k) => k,
                    None => match first_protocol_key(section_entries(doc, "build-dependencies"@)) {
                        Some(k) => k,
                        None => spec_rename_package("codex-code-mode-protocol"@),
                    },
                },
            },
        ),
    }
}

fn first_protocol_key_exec(doc: &Toml, section: &str) -> (r: Option<String>)
    ensures
        match r {
            Some(k) => first_protocol_key(section_entries(doc@, section@)) == Some(k@),
            None => first_protocol_key(section_entries(doc@, section@)) is None,
        },
{
    match tget_exec(doc, section) {
        Some(Toml::Table(m)) => {
            let ghost mv = crate::toml_value::teviews(m@);
            proof {
                crate::toml_value::lemma_teviews(m@);
            }
            assert(section_entries(doc@, section@) == mv);
            assert(mv.skip(0) =~= mv);
            let mut i: usize = 0;
            while i < m.len()
                invariant
                    i <= m@.len(),
                    section_entries(doc@, section@) == mv,
                    mv == crate::toml_value::teviews(m@),
                    mv.len() == m@.len(),
                    forall|t: int| 0 <= t < m@.len() ==> #[trigger] mv[t].0 == m@[t].0@,
                    first_protocol_key(mv) == first_protocol_key(mv.skip(i as int)),
                decreases m@.len() - i,
            {
                let k = to_chars(m[i].0.as_str());
                assert(mv.skip(i as int)[0] == mv[i as int]);
                assert(mv.skip(i as int).drop_first() =~= mv.skip(i + 1));
                if contains_seq(&k, &to_chars("code-mode-protocol")) || contains_seq(&k, &to_chars("code_mode_protocol")) {
                    let r = m[i].0.clone();
                    assert(r@ == mv[i as int].0);
                    return Some(r);
                }
                i = i + 1;
            }
            None
        },
        _ => None,
    }
}

/// See [`spec_protocol_dependency_key`]; a manifest that is not TOML is
/// refused.
pub fn protocol_dependency_key(raw: &str) -> (r: Result<String, ManifestReadError>)
    ensures
        match (r, spec_protocol_dependency_key(raw@)) {
            (Ok(a), Some(b)) => a@ == b,
            (Err(ManifestReadError::Parse), None) => true,
            _ => false,
        },
{
    let doc = match parse_toml(raw) {
        Some(d) => d,
        None => {
            return Err(ManifestReadError::Parse);
        },
    };
    match first_protocol_key_exec(&doc, "dependencies") {
        Some(k) => {
            return Ok(k);
        },
        None => {},
    }
    match first_protocol_key_exec(&doc, "dev-dependencies") {
        Some(k) => {
            return Ok(k);
        },
        None => {},
    }
    match first_protocol_key_exec(&doc, "build-dependencies") {
        Some(k) => {
            return Ok(k);
        },
        None => {},
    }
    Ok(from_chars(&rename_package_chars(&to_chars("codex-code-mode-protocol"))))
}

/// The `[workspace.dependencies]` entry `key` of a workspace manifest,
/// rendered for the publish tree: the key renamed, then its value with a
/// package alias renamed; none when the text is not TOML or has no such
/// entry.
pub open spec fn spec_source_workspace_dep(raw: Seq<char>, key: Seq<char>) -> Option<Seq<char>> {
    match toml_parse(raw) {
        None => None,
        Some(doc) => match tget2(doc, "workspace"@, "dependencies"@) {
            Some(TomlV::Table(m)) => match crate::toml_value::tlookup(m, key) {
                Some(v) => Some(spec_rename_package(key) + " = "@ + render_dep(v)),
                None => None,
            },
            _ => None,
        },
    }
}

/// See [`spec_source_workspace_dep`].
pub fn source_workspace_dep(raw: &str, key: &str) -> (r: Option<String>)
    ensures
        match r {
            Some(s) => spec_source_workspace_dep(raw@, key@) == Some(s@),
            None => spec_source_workspace_dep(raw@, key@) is None,
        },
{
    let doc = match parse_toml(raw) {
        Some(d) => d,
        None => {
            return None;
        },
    };
    match get2(&doc, "workspace", "dependencies") {
        Some(Toml::Table(m)) => match crate::toml_value::entries_get(m, key) {
            Some(v) => {
                let mut out = rename_package_chars(&to_chars(key));
                extend_lit(&mut out, " = ");
                extend(&mut out, &render_dep_exec(v));
                Some(from_chars(&out))
            },
            None => None,
        },
        _ => None,
    }
}


// ---------------------------------------------------------------------------
// The V8-free code-mode crate
// ---------------------------------------------------------------------------
pub const STUB_CARGO_0: &'static str = "[package]\nedition.workspace = true\nlicense.workspace = true\nname = \"";
pub const STUB_CARGO_1: &'static str = "\"\nversion.workspace = true\n\n[lib]\ndoctest = false\nname = \"";
pub const STUB_CARGO_2: &'static str = "\"\npath = \"src/lib.rs\"\n\n[lints]\nworkspace = true\n\n[dependencies]\n";
pub const STUB_CARGO_3: &'static str = " = { workspace = true }\n";
pub const STUB_CARGO_4: &'static str = " = { workspace = true }\n";

pub const STUB_LIB_0: &'static str = "//! V8-free stub of code-mode for lemurclaw builds.\n//!\n//! Only the protocol types are re-exported. The session providers exist as\n//! type stubs so downstream call sites compile, but they return errors at\n//! runtime because the V8 runtime is excluded from this build. To restore\n//! real V8-backed code mode, re-run `xtask publish rename` without stripping.\n\npub use ";
pub const STUB_LIB_1: &'static str = "::*;\n\nmod service;\n\npub use service::InProcessCodeModeSessionProvider;\npub use service::ProcessOwnedCodeModeSessionProvider;\npub use service::WebSocketCodeModeSessionProvider;\n";

pub const STUB_SERVICE_0: &'static str = "//! Stub session providers for V8-free builds.\n//!\n//! These types mirror the public API surface of the real V8-backed providers\n//! (`InProcessCodeModeSessionProvider`, `ProcessOwnedCodeModeSessionProvider`,\n//! `WebSocketCodeModeSessionProvider`) so that downstream code compiles\n//! unchanged. Every `create_session` call returns an error at runtime.\n\nuse std::path::PathBuf;\nuse std::sync::Arc;\n\nuse ";
pub const STUB_SERVICE_1: &'static str = "::CodeModeSessionDelegate;\nuse ";
pub const STUB_SERVICE_2: &'static str = "::CodeModeSessionProvider;\nuse ";
pub const STUB_SERVICE_3: &'static str = "::CodeModeSessionProviderFuture;\n\nconst UNAVAILABLE: &str = \"code-mode V8 runtime is excluded from this build\";\n\n/// In-process provider stub. The real implementation embeds a V8 isolate; this\n/// stub always fails to create a session.\npub struct InProcessCodeModeSessionProvider;\n\nimpl CodeModeSessionProvider for InProcessCodeModeSessionProvider {\n    fn create_session<'a>(\n        &'a self,\n        _delegate: Arc<dyn CodeModeSessionDelegate>,\n    ) -> CodeModeSessionProviderFuture<'a> {\n        Box::pin(async { Err(UNAVAILABLE.to_string()) })\n    }\n}\n\nimpl Default for InProcessCodeModeSessionProvider {\n    fn default() -> Self {\n        Self\n    }\n}\n\n/// Process-owned provider stub. The real implementation spawns a\n/// `code-mode-host` subprocess (with an in-process V8 fallback); this stub\n/// preserves the constructor surface so call sites compile.\npub struct ProcessOwnedCodeModeSessionProvider;\n\nimpl ProcessOwnedCodeModeSessionProvider {\n    /// Stub constructor. The host program argument is ignored.\n    pub fn with_host_program(_host_program: PathBuf) -> Self {\n        Self\n    }\n\n    /// Stub configurator. Returns `self` unchanged.\n    pub fn without_in_process_fallback(self) -> Self {\n        self\n    }\n}\n\nimpl Default for ProcessOwnedCodeModeSessionProvider {\n    fn default() -> Self {\n        Self\n    }\n}\n\nimpl CodeModeSessionProvider for ProcessOwnedCodeModeSessionProvider {\n    fn create_session<'a>(\n        &'a self,\n        _delegate: Arc<dyn CodeModeSessionDelegate>,\n    ) -> CodeModeSessionProviderFuture<'a> {\n        Box::pin(async { Err(UNAVAILABLE.to_string()) })\n    }\n}\n\n/// WebSocket provider stub. The real implementation connects to a remote\n/// code-mode host over WebSocket; this stub preserves the constructor surface\n/// so `lemurclaw-app-server` compiles unchanged.\npub struct WebSocketCodeModeSessionProvider;\n\nimpl WebSocketCodeModeSessionProvider {\n    /// Stub constructor. Both arguments are ignored.\n    pub fn with_http_client_factory(\n        _websocket_url: String,\n        _http_client_factory: ";
pub const STUB_SERVICE_4: &'static str = "::HttpClientFactory,\n    ) -> Self {\n        Self\n    }\n}\n\nimpl CodeModeSessionProvider for WebSocketCodeModeSessionProvider {\n    fn create_session<'a>(\n        &'a self,\n        _delegate: Arc<dyn CodeModeSessionDelegate>,\n    ) -> CodeModeSessionProviderFuture<'a> {\n        Box::pin(async { Err(UNAVAILABLE.to_string()) })\n    }\n}\n";

/// The manifest of the V8-free code-mode crate: package and library names,
/// workspace lints, and the protocol and HTTP-client dependencies.
pub open spec fn spec_stub_cargo_toml(package_name: Seq<char>, lib_name: Seq<char>, protocol_dep_key: Seq<char>) -> Seq<char> {
    STUB_CARGO_0@ + package_name + STUB_CARGO_1@ + lib_name + STUB_CARGO_2@ + protocol_dep_key + STUB_CARGO_3@
        + spec_rename_package("codex-http-client"@) + STUB_CARGO_4@
}

/// See [`spec_stub_cargo_toml`].
pub fn stub_cargo_toml(package_name: &str, lib_name: &str, protocol_dep_key: &str) -> (r: String)
    ensures
        r@ == spec_stub_cargo_toml(package_name@, lib_name@, protocol_dep_key@),
{
    let mut v = to_chars(STUB_CARGO_0);
    extend_lit(&mut v, package_name);
    extend_lit(&mut v, STUB_CARGO_1);
    extend_lit(&mut v, lib_name);
    extend_lit(&mut v, STUB_CARGO_2);
    extend_lit(&mut v, protocol_dep_key);
    extend_lit(&mut v, STUB_CARGO_3);
    extend(&mut v, &rename_package_chars(&to_chars("codex-http-client")));
    extend_lit(&mut v, STUB_CARGO_4);
    from_chars(&v)
}

/// The library root of the V8-free code-mode crate: it re-exports the
/// protocol crate and the stub session providers.
pub open spec fn spec_stub_lib_rs(protocol_ident: Seq<char>) -> Seq<char> {
    STUB_LIB_0@ + protocol_ident + STUB_LIB_1@
}

/// See [`spec_stub_lib_rs`].
pub fn stub_lib_rs(protocol_ident: &str) -> (r: String)
    ensures
        r@ == spec_stub_lib_rs(protocol_ident@),
{
    let mut v = to_chars(STUB_LIB_0);
    extend_lit(&mut v, protocol_ident);
    extend_lit(&mut v, STUB_LIB_1);
    from_chars(&v)
}

/// The session providers of the V8-free code-mode crate: the same types and
/// constructors as the real ones, each failing to create a session.
pub open spec fn spec_stub_service_rs(protocol_ident: Seq<char>) -> Seq<char> {
    STUB_SERVICE_0@ + protocol_ident + STUB_SERVICE_1@ + protocol_ident + STUB_SERVICE_2@ + protocol_ident
        + STUB_SERVICE_3@ + crate::manifest::spec_rename_ident("codex_http_client"@) + STUB_SERVICE_4@
}

/// See [`spec_stub_service_rs`].
pub fn stub_service_rs(protocol_ident: &str) -> (r: String)
    ensures
        r@ == spec_stub_service_rs(protocol_ident@),
{
    let mut v = to_chars(STUB_SERVICE_0);
    extend_lit(&mut v, protocol_ident);
    extend_lit(&mut v, STUB_SERVICE_1);
    extend_lit(&mut v, protocol_ident);
    extend_lit(&mut v, STUB_SERVICE_2);
    extend_lit(&mut v, protocol_ident);
    extend_lit(&mut v, STUB_SERVICE_3);
    extend_lit(&mut v, crate::manifest::rename_ident("codex_http_client").as_str());
    extend_lit(&mut v, STUB_SERVICE_4);
    from_chars(&v)
}

/// The identifier a dependency key is imported by: `-` written `_`.
pub open spec fn spec_dep_ident(key: Seq<char>) -> Seq<char> {
    crate::text::replace_all(key, "-"@, "_"@)
}

/// See [`spec_dep_ident`].
pub fn dep_ident(key: &str) -> (r: String)
    ensures
        r@ == spec_dep_ident(key@),
{
    proof {
        reveal_strlit("-");
    }
    from_chars(&crate::text::replace_vec(&to_chars(key), &to_chars("-"), &to_chars("_")))
}


/// Pre-release crates kept on their pre-release version although their
/// range admits a newer stable release: (package, version), in the order
/// they are pinned (a crate before those that depend on it).
pub open spec fn spec_prerelease_pins() -> Seq<(Seq<char>, Seq<char>)> {
    seq![
        ("rama-utils"@, "0.3.0-alpha.4"@),
        ("rama-macros"@, "0.3.0-alpha.4"@),
        ("rama-error"@, "0.3.0-alpha.4"@),
    ]
}

/// See [`spec_prerelease_pins`].
pub fn prerelease_pins() -> (r: Vec<(&'static str, &'static str)>)
    ensures
        r@.map_values(|p: (&str, &str)| (p.0@, p.1@)) == spec_prerelease_pins(),
{
    let v = vec![
        ("rama-utils", "0.3.0-alpha.4"),
        ("rama-macros", "0.3.0-alpha.4"),
        ("rama-error", "0.3.0-alpha.4"),
    ];
    assert(v@.map_values(|p: (&str, &str)| (p.0@, p.1@)) =~= spec_prerelease_pins());
    v
}

/// A failed `cargo update --precise` that leaves the lockfile as wanted:
/// the package is already at the version, or not in the lockfile at all.
pub open spec fn spec_pin_failure_is_benign(stderr: Seq<char>) -> bool {
    crate::text::contains(stderr, "did not do anything"@) || crate::text::contains(stderr, "already"@)
        || crate::text::contains(stderr, "could not find"@) || crate::text::contains(stderr, "not found"@)
}

/// See [`spec_pin_failure_is_benign`].
pub fn pin_failure_is_benign(stderr: &str) -> (r: bool)
    ensures
        r == spec_pin_failure_is_benign(stderr@),
{
    let s = to_chars(stderr);
    crate::text::contains_seq(&s, &to_chars("did not do anything")) || crate::text::contains_seq(
        &s,
        &to_chars("already"),
    ) || crate::text::contains_seq(&s, &to_chars("could not find")) || crate::text::contains_seq(
        &s,
        &to_chars("not found"),
    )
}


/// See [`removed_dep_keys`]: the workspace dependency keys of the removed
/// crates, `codex-<crate>` renamed.
pub fn dropped_dep_keys(removed: &[String]) -> (r: Vec<String>)
    ensures
        r@.map_values(|s: String| s@) == removed_dep_keys(removed@.map_values(|s: String| s@)),
{
    let ghost rv = removed@.map_values(|s: String| s@);
    let mut out: Vec<String> = Vec::new();
    let mut i: usize = 0;
    while i < removed.len()
        invariant
            i <= removed@.len(),
            rv == removed@.map_values(|s: String| s@),
            out@.map_values(|s: String| s@) == removed_dep_keys(rv.take(i as int)),
        decreases removed@.len() - i,
    {
        let mut k = to_chars("codex-");
        extend(&mut k, &to_chars(removed[i].as_str()));
        let key = crate::manifest::rename_package(from_chars(&k).as_str());
        let ghost before = out@.map_values(|s: String| s@);
        out.push(key);
        assert(rv.take(i + 1) =~= rv.take(i as int).push(rv[i as int]));
        assert(out@.map_values(|s: String| s@) =~= before.push(spec_rename_package("codex-"@ + rv[i as int])));
        assert(removed_dep_keys(rv.take(i + 1)) =~= removed_dep_keys(rv.take(i as int)).push(spec_rename_package("codex-"@ + rv[i as int])));
        i = i + 1;
    }
    assert(rv.take(removed@.len() as int) =~= rv);
    out
}

/// The crate directories the V8 removal drops and the restore brings back,
/// as (source directory, publish directory): the code-mode crate and the
/// V8-only crates, under the same names on both sides.
pub open spec fn spec_restore_crate_dirs() -> Seq<(Seq<char>, Seq<char>)> {
    seq![("code-mode"@, "code-mode"@), ("code-mode-host"@, "code-mode-host"@), ("v8-poc"@, "v8-poc"@)]
}

/// See [`spec_restore_crate_dirs`].
pub fn restore_crate_dirs() -> (r: Vec<(&'static str, &'static str)>)
    ensures
        r@.map_values(|p: (&str, &str)| (p.0@, p.1@)) == spec_restore_crate_dirs(),
{
    let v = vec![("code-mode", "code-mode"), ("code-mode-host", "code-mode-host"), ("v8-poc", "v8-poc")];
    assert(v@.map_values(|p: (&str, &str)| (p.0@, p.1@)) =~= spec_restore_crate_dirs());
    v
}

/// The source workspace's dependency key of the code-mode host, whose
/// entry the restore puts back.
pub const CODE_MODE_HOST_KEY: &'static str = "codex-code-mode-host";

} // verus!
