//! Small text fixes applied after a cluster merge: moving the workspace
//! to reqwest 0.13, re-export modules for items that moved, and the test
//! that a member's build script does nothing the merge would lose; and the
//! checks that decide whether a cluster merge goes ahead.

use vstd::prelude::*;
use crate::text::{
    contains, contains_seq, extend, extend_lit, from_chars, lines, replace_all, replace_vec, split_lines,
    starts_lit, starts_with, to_chars, trim, trim_end, trim_end_vec, trim_start, trim_start_vec, trim_vec,
    views, eq_lit,
};

verus! {

// ---------------------------------------------------------------------------
// reqwest 0.13
// ---------------------------------------------------------------------------

/// The workspace manifest with reqwest 0.12 (with `cookies`) moved to 0.13
/// with the `blocking`, `cookies` and `query` features.
pub open spec fn spec_unify_reqwest_workspace(raw: Seq<char>) -> Seq<char> {
    replace_all(
        raw,
        "reqwest = { features = [\"cookies\"], version = \"0.12\" }"@,
        "reqwest = { features = [\"blocking\", \"cookies\", \"query\"], version = \"0.13\" }"@,
    )
}

/// See [`spec_unify_reqwest_workspace`].
pub fn unify_reqwest_workspace_text(raw: &str) -> (r: String)
    ensures
        r@ == spec_unify_reqwest_workspace(raw@),
{
    proof {
        reveal_strlit("reqwest = { features = [\"cookies\"], version = \"0.12\" }");
    }
    from_chars(
        &replace_vec(
            &to_chars(raw),
            &to_chars("reqwest = { features = [\"cookies\"], version = \"0.12\" }"),
            &to_chars("reqwest = { features = [\"blocking\", \"cookies\", \"query\"], version = \"0.13\" }"),
        ),
    )
}

/// A member manifest for reqwest 0.13: the `rustls-tls` feature is named
/// `rustls`, and a pinned `0.12` becomes `0.13`.
pub open spec fn spec_unify_reqwest_member(raw: Seq<char>) -> Seq<char> {
    replace_all(
        replace_all(raw, "\"rustls-tls\""@, "\"rustls\""@),
        "reqwest = { version = \"0.12\""@,
        "reqwest = { version = \"0.13\""@,
    )
}

/// See [`spec_unify_reqwest_member`].
pub fn unify_reqwest_member_text(raw: &str) -> (r: String)
    ensures
        r@ == spec_unify_reqwest_member(raw@),
{
    proof {
        reveal_strlit("\"rustls-tls\"");
        reveal_strlit("reqwest = { version = \"0.12\"");
    }
    let a = replace_vec(&to_chars(raw), &to_chars("\"rustls-tls\""), &to_chars("\"rustls\""));
    from_chars(
        &replace_vec(&a, &to_chars("reqwest = { version = \"0.12\""), &to_chars("reqwest = { version = \"0.13\"")),
    )
}

/// The OTLP client setup for reqwest 0.13: a root certificate added to an
/// emptied store becomes `tls_certs_only` of that certificate, in each of
/// the three layouts the source uses.
pub open spec fn spec_fix_reqwest_tls(raw: Seq<char>) -> Seq<char> {
    let to = ".tls_certs_only(std::iter::once(certificate));"@;
    replace_all(
        replace_all(
            replace_all(
                raw,
                ".tls_built_in_root_certs(false)\n                .add_root_certificate(certificate);"@,
                to,
            ),
            ".tls_built_in_root_certs(false)\n            .add_root_certificate(certificate);"@,
            to,
        ),
        ".tls_built_in_root_certs(false).add_root_certificate(certificate);"@,
        to,
    )
}

/// See [`spec_fix_reqwest_tls`].
pub fn fix_reqwest_tls_text(raw: &str) -> (r: String)
    ensures
        r@ == spec_fix_reqwest_tls(raw@),
{
    proof {
        reveal_strlit(".tls_built_in_root_certs(false)\n                .add_root_certificate(certificate);");
        reveal_strlit(".tls_built_in_root_certs(false)\n            .add_root_certificate(certificate);");
        reveal_strlit(".tls_built_in_root_certs(false).add_root_certificate(certificate);");
    }
    let to = to_chars(".tls_certs_only(std::iter::once(certificate));");
    let a = replace_vec(
        &to_chars(raw),
        &to_chars(".tls_built_in_root_certs(false)\n                .add_root_certificate(certificate);"),
        &to,
    );
    let b = replace_vec(
        &a,
        &to_chars(".tls_built_in_root_certs(false)\n            .add_root_certificate(certificate);"),
        &to,
    );
    from_chars(&replace_vec(&b, &to_chars(".tls_built_in_root_certs(false).add_root_certificate(certificate);"), &to))
}

// ---------------------------------------------------------------------------
// Re-export modules
// ---------------------------------------------------------------------------

/// Where the last `::` that ends by `upto` starts.
pub open spec fn last_sep_before(p: Seq<char>, upto: int) -> Option<int>
    decreases upto,
{
    if upto < 2 || upto > p.len() {
        None
    } else if p[upto - 2] == ':' && p[upto - 1] == ':' {
        Some(upto - 2)
    } else {
        last_sep_before(p, upto - 1)
    }
}

/// A path split at its last `::` into (parent, last segment); none when it
/// has no `::`.
pub open spec fn spec_split_last_path(p: Seq<char>) -> Option<(Seq<char>, Seq<char>)> {
    match last_sep_before(p, p.len() as int) {
        Some(i) => Some((p.take(i), p.skip(i + 2))),
        None => None,
    }
}

/// See [`spec_split_last_path`].
pub fn split_last_path(p: &str) -> (r: Option<(String, String)>)
    ensures
        match r {
            Some((a, b)) => spec_split_last_path(p@) == Some((a@, b@)),
            None => spec_split_last_path(p@) is None,
        },
{
    let s = to_chars(p);
    let n = s.len();
    let mut k: usize = n;
    while k >= 2
        invariant
            k <= n,
            n == s@.len(),
            s@ == p@,
            last_sep_before(s@, n as int) == last_sep_before(s@, k as int),
        decreases k,
    {
        if s[k - 2] == ':' && s[k - 1] == ':' {
            let a = crate::text::slice_vec(&s, 0, k - 2);
            let b = crate::text::slice_vec(&s, k, n);
            assert(a@ =~= s@.take(k - 2));
            assert(b@ =~= s@.skip(k as int));
            assert(last_sep_before(s@, k as int) == Some(k - 2));
            assert(s@ == p@);
            return Some((from_chars(&a), from_chars(&b)));
        }
        k = k - 1;
    }
    None
}

/// Whether a module file declares `submodule` public: a line that starts,
/// after its indentation, with `pub mod ` or `pub(crate) mod ` followed by
/// the submodule's name.
pub open spec fn spec_declares_public(mod_rs: Seq<char>, submodule: Seq<char>) -> bool {
    exists|k: int|
        0 <= k < lines(mod_rs).len() && {
            let t = trim_start(#[trigger] lines(mod_rs)[k]);
            (starts_with(t, "pub mod "@) && starts_with(t.skip(8), submodule)) || (starts_with(
                t,
                "pub(crate) mod "@,
            ) && starts_with(t.skip(15), submodule))
        }
}

fn line_declares_public(line: &[char], submodule: &[char]) -> (r: bool)
    ensures
        r == {
            let t = trim_start(line@);
            (starts_with(t, "pub mod "@) && starts_with(t.skip(8), submodule@)) || (starts_with(
                t,
                "pub(crate) mod "@,
            ) && starts_with(t.skip(15), submodule@))
        },
{
    proof {
        reveal_strlit("pub mod ");
        reveal_strlit("pub(crate) mod ");
    }
    let t = trim_start_vec(line);
    if starts_lit(&t, "pub mod ") {
        let rest = crate::text::slice_vec(&t, 8, t.len());
        assert(rest@ =~= t@.skip(8));
        if crate::text::has_prefix(&rest, submodule) {
            return true;
        }
    }
    if starts_lit(&t, "pub(crate) mod ") {
        let rest = crate::text::slice_vec(&t, 15, t.len());
        assert(rest@ =~= t@.skip(15));
        return crate::text::has_prefix(&rest, submodule);
    }
    false
}

/// See [`spec_declares_public`].
pub fn declares_public(mod_rs: &str, submodule: &str) -> (r: bool)
    ensures
        r == spec_declares_public(mod_rs@, submodule@),
{
    let ls = split_lines(&to_chars(mod_rs));
    let ghost lv = views(ls@);
    let sub = to_chars(submodule);
    let mut k: usize = 0;
    while k < ls.len()
        invariant
            k <= ls@.len(),
            lv == views(ls@),
            lv == lines(mod_rs@),
            sub@ == submodule@,
            forall|j: int| 0 <= j < k ==> !({
                let t = trim_start(#[trigger] lines(mod_rs@)[j]);
                (starts_with(t, "pub mod "@) && starts_with(t.skip(8), submodule@)) || (starts_with(
                    t,
                    "pub(crate) mod "@,
                ) && starts_with(t.skip(15), submodule@))
            }),
        decreases ls@.len() - k,
    {
        assert(lv[k as int] == ls@[k as int]@);
        if line_declares_public(&ls[k], &sub) {
            return true;
        }
        k = k + 1;
    }
    false
}

/// The path a re-export module re-exports: the parent of `source_path`
/// when its last segment is a submodule that exists and that the parent's
/// `mod.rs` does not declare public (its items are re-exported by the
/// parent); `source_path` itself otherwise. `submodule_exists` says whether
/// the last segment exists as a directory or file; `mod_rs` is the parent's
/// `mod.rs`, none when it cannot be read.
pub open spec fn spec_reexport_target(
    source_path: Seq<char>,
    submodule_exists: bool,
    mod_rs: Option<Seq<char>>,
) -> Seq<char> {
    match spec_split_last_path(source_path) {
        Some((parent, sub)) => {
            let private = submodule_exists && match mod_rs {
                Some(m) => !spec_declares_public(m, sub),
                None => false,
            };
            if private {
                parent
            } else {
                source_path
            }
        },
        None => source_path,
    }
}

/// The text of a re-export module for `source_path` (see
/// [`spec_reexport_target`]): `pub use crate::<target>::*;`.
pub open spec fn spec_reexport_module_text(
    source_path: Seq<char>,
    submodule_exists: bool,
    mod_rs: Option<Seq<char>>,
) -> Seq<char> {
    "pub use crate::"@ + spec_reexport_target(source_path, submodule_exists, mod_rs) + "::*;\n"@
}

/// See [`spec_reexport_module_text`].
pub fn reexport_module_text(source_path: &str, submodule_exists: bool, mod_rs: Option<&str>) -> (r: String)
    ensures
        r@ == spec_reexport_module_text(
            source_path@,
            submodule_exists,
            match mod_rs {
                Some(m) => Some(m@),
                None => None,
            },
        ),
{
    let target: Vec<char> = match split_last_path(source_path) {
        Some((parent, sub)) => {
            let private = submodule_exists && match mod_rs {
                Some(m) => !declares_public(m, sub.as_str()),
                None => false,
            };
            if private {
                to_chars(parent.as_str())
            } else {
                to_chars(source_path)
            }
        },
        None => to_chars(source_path),
    };
    let mut out = to_chars("pub use crate::");
    extend(&mut out, &target);
    extend_lit(&mut out, "::*;\n");
    from_chars(&out)
}

/// `raw` with `decl` added on a line of its own after its text (trailing
/// whitespace dropped), unless it already holds `decl`.
pub open spec fn spec_append_decl(raw: Seq<char>, decl: Seq<char>) -> Option<Seq<char>> {
    if contains(raw, decl) {
        None
    } else {
        Some(trim_end(raw) + "\n"@ + decl + "\n"@)
    }
}

fn append_decl(raw: &str, decl: &[char]) -> (r: Option<String>)
    ensures
        match r {
            Some(s) => spec_append_decl(raw@, decl@) == Some(s@),
            None => spec_append_decl(raw@, decl@) is None,
        },
{
    let rc = to_chars(raw);
    if contains_seq(&rc, decl) {
        return None;
    }
    let mut out = trim_end_vec(&rc);
    extend_lit(&mut out, "\n");
    extend(&mut out, decl);
    extend_lit(&mut out, "\n");
    Some(from_chars(&out))
}

/// The crate root with `pub mod <module>;` added (see [`spec_append_decl`]);
/// none when it declares it already.
pub fn add_module_decl(lib_rs: &str, module_name: &str) -> (r: Option<String>)
    ensures
        match r {
            Some(s) => spec_append_decl(lib_rs@, "pub mod "@ + module_name@ + ";"@) == Some(s@),
            None => spec_append_decl(lib_rs@, "pub mod "@ + module_name@ + ";"@) is None,
        },
{
    let mut decl = to_chars("pub mod ");
    extend(&mut decl, &to_chars(module_name));
    extend_lit(&mut decl, ";");
    append_decl(lib_rs, &decl)
}

/// A member module with `pub use crate::core_internal::<member>::<type>;`
/// added (see [`spec_append_decl`]); none when it holds it already.
pub fn add_host_reexport(mod_rs: &str, member_module: &str, item_name: &str) -> (r: Option<String>)
    ensures
        match r {
            Some(s) => spec_append_decl(
                mod_rs@,
                "pub use crate::core_internal::"@ + member_module@ + "::"@ + item_name@ + ";"@,
            ) == Some(s@),
            None => spec_append_decl(
                mod_rs@,
                "pub use crate::core_internal::"@ + member_module@ + "::"@ + item_name@ + ";"@,
            ) is None,
        },
{
    let mut decl = to_chars("pub use crate::core_internal::");
    extend(&mut decl, &to_chars(member_module));
    extend_lit(&mut decl, "::");
    extend(&mut decl, &to_chars(item_name));
    extend_lit(&mut decl, ";");
    append_decl(mod_rs, &decl)
}

// ---------------------------------------------------------------------------
// Member build scripts
// ---------------------------------------------------------------------------

/// A build script line the merge may drop: blank, the `fn main()` line, a
/// `cargo:rerun-if-env-changed` directive, or a lone `}`.
pub open spec fn spec_trivial_build_line(line: Seq<char>) -> bool {
    let t = trim(line);
    t.len() == 0 || starts_with(t, "fn main()"@) || contains(t, "cargo:rerun-if-env-changed"@) || t == "}"@
}

/// Whether a member's build script holds only such lines; a script that
/// does more is lost by the merge, and the merge warns of it.
pub open spec fn spec_build_rs_is_trivial(raw: Seq<char>) -> bool {
    forall|k: int| 0 <= k < lines(raw).len() ==> spec_trivial_build_line(#[trigger] lines(raw)[k])
}

/// See [`spec_build_rs_is_trivial`].
pub fn build_rs_is_trivial(raw: &str) -> (r: bool)
    ensures
        r == spec_build_rs_is_trivial(raw@),
{
    let ls = split_lines(&to_chars(raw));
    let ghost lv = views(ls@);
    let mut k: usize = 0;
    while k < ls.len()
        invariant
            k <= ls@.len(),
            lv == views(ls@),
            lv == lines(raw@),
            forall|j: int| 0 <= j < k ==> spec_trivial_build_line(#[trigger] lines(raw@)[j]),
        decreases ls@.len() - k,
    {
        assert(lv[k as int] == ls@[k as int]@);
        let t = trim_vec(&ls[k]);
        let ok = t.len() == 0 || starts_lit(&t, "fn main()") || contains_seq(
            &t,
            &to_chars("cargo:rerun-if-env-changed"),
        ) || eq_lit(&t, "}");
        if !ok {
            return false;
        }
        k = k + 1;
    }
    true
}


// ---------------------------------------------------------------------------
// Names of the merged crate's parts
// ---------------------------------------------------------------------------

/// The directory name of the merged crate: the last `/`-separated
/// segment of its member path.
pub open spec fn spec_merged_leaf(member_path: Seq<char>) -> Seq<char> {
    match crate::text::rfind_char(member_path, '/') {
        Some(i) => member_path.skip(i + 1),
        None => member_path,
    }
}

/// See [`spec_merged_leaf`].
pub fn merged_leaf(member_path: &str) -> (r: String)
    ensures
        r@ == spec_merged_leaf(member_path@),
{
    let s = to_chars(member_path);
    let n = s.len();
    match crate::text::rfind_ch(&s, '/') {
        Some(i) => {
            proof {
                crate::text::lemma_rfind_char_before(s@, '/', s@.len() as int);
            }
            assert(i < n);
            let v = crate::text::slice_vec(&s, i + 1, s.len());
            assert(v@ =~= s@.skip(i + 1));
            from_chars(&v)
        },
        None => from_chars(&s),
    }
}

/// The module a host crate's own sources move into: `<cluster>_internal`.
pub fn host_module_name(cluster_name: &str) -> (r: String)
    ensures
        r@ == cluster_name@ + "_internal"@,
{
    let mut v = to_chars(cluster_name);
    extend_lit(&mut v, "_internal");
    from_chars(&v)
}

// ---------------------------------------------------------------------------
// Whether a cluster merge goes ahead
// ---------------------------------------------------------------------------

/// What a cluster merge does, decided from what is on disk.
pub enum BundlePlan {
    /// The directory the cluster's crates live in is missing.
    SourceMissing,
    /// Member directories are missing: their names, in member order.
    MissingMembers(Vec<String>),
    /// A dry run: the plan is shown and nothing is changed.
    DryRun,
    /// The merged crate's directory exists and is not the host crate.
    MergedDirExists,
    /// Go ahead; with the module the host crate's own sources move into,
    /// when the merged directory is the host crate.
    Proceed { host_module: Option<String> },
}

/// [`BundlePlan`] as plain values.
pub enum BundlePlanV {
    SourceMissing,
    MissingMembers(Seq<Seq<char>>),
    DryRun,
    MergedDirExists,
    Proceed(Option<Seq<char>>),
}

pub open spec fn plan_view(p: BundlePlan) -> BundlePlanV {
    match p {
        BundlePlan::SourceMissing => BundlePlanV::SourceMissing,
        BundlePlan::MissingMembers(v) => BundlePlanV::MissingMembers(v@.map_values(|s: String| s@)),
        BundlePlan::DryRun => BundlePlanV::DryRun,
        BundlePlan::MergedDirExists => BundlePlanV::MergedDirExists,
        BundlePlan::Proceed { host_module } => BundlePlanV::Proceed(
            match host_module {
                Some(h) => Some(h@),
                None => None,
            },
        ),
    }
}

/// The directories of the members whose directory is not present, in
/// member order.
pub open spec fn missing_member_dirs(mv: Seq<(Seq<char>, Seq<char>, Seq<char>)>, present: Seq<bool>) -> Seq<Seq<char>>
    decreases mv.len(),
{
    if mv.len() == 0 {
        seq![]
    } else {
        let rest = missing_member_dirs(mv.drop_last(), present);
        if present[mv.len() - 1] {
            rest
        } else {
            rest.push(mv.last().0)
        }
    }
}

/// The merge's decisions, in order: the source directory must exist; every
/// member directory must exist; a dry run stops there; the merged
/// directory must not exist unless it is the host crate (a cluster whose
/// crates live at the workspace root, whose merged directory is a
/// directory); then the host crate's sources move into `<name>_internal`.
pub open spec fn spec_bundle_plan(
    name: Seq<char>,
    source_subdir: Seq<char>,
    mv: Seq<(Seq<char>, Seq<char>, Seq<char>)>,
    source_present: bool,
    present: Seq<bool>,
    dry_run: bool,
    merged_exists: bool,
    merged_is_dir: bool,
) -> BundlePlanV {
    let missing = missing_member_dirs(mv, present);
    let host = source_subdir.len() == 0 && merged_is_dir;
    if !source_present {
        BundlePlanV::SourceMissing
    } else if missing.len() > 0 {
        BundlePlanV::MissingMembers(missing)
    } else if dry_run {
        BundlePlanV::DryRun
    } else if merged_exists && !host {
        BundlePlanV::MergedDirExists
    } else {
        BundlePlanV::Proceed(
            if host {
                Some(name + "_internal"@)
            } else {
                None
            },
        )
    }
}

/// See [`spec_bundle_plan`]; `member_dir_present` tells, for each member in
/// order, whether its directory is there.
pub fn bundle_plan(
    cluster: &crate::cluster::Cluster,
    source_present: bool,
    member_dir_present: &[bool],
    dry_run: bool,
    merged_exists: bool,
    merged_is_dir: bool,
) -> (r: BundlePlan)
    requires
        member_dir_present@.len() == cluster.members@.len(),
    ensures
        plan_view(r) == spec_bundle_plan(
            cluster.name@,
            cluster.source_subdir@,
            crate::cluster::members_view(cluster.members@),
            source_present,
            member_dir_present@,
            dry_run,
            merged_exists,
            merged_is_dir,
        ),
{
    let ghost mv = crate::cluster::members_view(cluster.members@);
    if !source_present {
        return BundlePlan::SourceMissing;
    }
    let mut missing: Vec<String> = Vec::new();
    let mut i: usize = 0;
    while i < cluster.members.len()
        invariant
            i <= cluster.members@.len(),
            member_dir_present@.len() == cluster.members@.len(),
            mv == crate::cluster::members_view(cluster.members@),
            missing@.map_values(|s: String| s@) == missing_member_dirs(mv.take(i as int), member_dir_present@),
        decreases cluster.members@.len() - i,
    {
        assert(mv.take(i + 1).drop_last() =~= mv.take(i as int));
        assert(mv.take(i + 1).last() == crate::cluster::sub_view(cluster.members@[i as int]));
        let ghost prev = missing@.map_values(|s: String| s@);
        if !member_dir_present[i] {
            missing.push(cluster.members[i].dir.clone());
            assert(missing@.map_values(|s: String| s@) =~= prev.push(cluster.members@[i as int].dir@));
        }
        i = i + 1;
    }
    assert(mv.take(mv.len() as int) =~= mv);
    if missing.len() > 0 {
        return BundlePlan::MissingMembers(missing);
    }
    if dry_run {
        return BundlePlan::DryRun;
    }
    let host = to_chars(cluster.source_subdir).len() == 0 && merged_is_dir;
    if merged_exists && !host {
        return BundlePlan::MergedDirExists;
    }
    if host {
        BundlePlan::Proceed { host_module: Some(host_module_name(cluster.name)) }
    } else {
        BundlePlan::Proceed { host_module: None }
    }
}

} // verus!
