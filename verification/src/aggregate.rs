//! The manifest of a merged crate: the dependencies of its members gathered
//! into one set of tables (a dependency named by several members gets the
//! union of their features when their versions agree), then written out
//! with the package, lints and library sections.

use vstd::prelude::*;
use crate::cluster::{members_view, Cluster};
use crate::graph::{text_lt, text_lt_exec};
use crate::text::{extend, extend_lit, from_chars, seq_eq, to_chars};
use crate::toml_value::{
    copy_toml, entries_get, lemma_teviews, lemma_tviews, parse_toml, render, render_toml_value, teviews,
    tlookup, toml_parse, tview, tviews, Toml, TomlV,
};
use crate::workspace::{as_text, ManifestReadError};

verus! {

// ---------------------------------------------------------------------------
// Tables kept in key order
// ---------------------------------------------------------------------------

/// `BTreeMap::insert` on entries in key order: the entry of key `k`
/// replaced, or a new one put before the first greater key.
pub open spec fn map_put<V>(m: Seq<(Seq<char>, V)>, k: Seq<char>, v: V) -> Seq<(Seq<char>, V)>
    decreases m.len(),
{
    if m.len() == 0 {
        seq![(k, v)]
    } else if m[0].0 == k {
        m.update(0, (k, v))
    } else if text_lt(m[0].0, k) {
        seq![m[0]] + map_put(m.drop_first(), k, v)
    } else {
        seq![(k, v)] + m
    }
}

/// See [`map_put`].
pub fn map_put_exec(m: &mut Vec<(String, Toml)>, k: &str, v: Toml)
    ensures
        teviews(final(m)@) == map_put(teviews(old(m)@), k@, v@),
{
    let ghost mv = teviews(m@);
    let ghost vv = v@;
    proof {
        lemma_teviews(m@);
    }
    let kc = to_chars(k);
    let mut p: usize = 0;
    assert(mv.skip(0) =~= mv);
    assert(mv.take(0) + map_put(mv.skip(0), k@, vv) =~= map_put(mv, k@, vv));
    while p < m.len() && !seq_eq(&to_chars(m[p].0.as_str()), &kc) && text_lt_exec(&to_chars(m[p].0.as_str()), &kc)
        invariant
            p <= m@.len(),
            mv == teviews(m@),
            mv.len() == m@.len(),
            forall|t: int| 0 <= t < m@.len() ==> #[trigger] mv[t] == (m@[t].0@, tview(m@[t].1)),
            kc@ == k@,
            mv.take(p as int) + map_put(mv.skip(p as int), k@, vv) == map_put(mv, k@, vv),
        decreases m@.len() - p,
    {
        let ghost rest = mv.skip(p as int);
        assert(rest[0] == mv[p as int]);
        assert(rest.drop_first() =~= mv.skip(p + 1));
        assert(mv.take(p + 1) =~= mv.take(p as int) + seq![mv[p as int]]);
        assert(mv.take(p as int) + map_put(rest, k@, vv) =~= mv.take(p + 1) + map_put(mv.skip(p + 1), k@, vv));
        p = p + 1;
    }
    let ghost rest = mv.skip(p as int);
    if p < m.len() && seq_eq(&to_chars(m[p].0.as_str()), &kc) {
        assert(rest[0] == mv[p as int]);
        let ghost prev = m@;
        m.set(p, (k.to_owned(), v));
        proof {
            lemma_teviews(m@);
        }
        assert(teviews(m@) =~= mv.take(p as int) + rest.update(0, (k@, vv))) by {
            assert forall|t: int| 0 <= t < m@.len() implies #[trigger] teviews(m@)[t] == (mv.take(p as int) + rest.update(
                0,
                (k@, vv),
            ))[t] by {
                if t != p {
                    assert(m@[t] == prev[t]);
                }
            }
        }
    } else {
        let ghost prev = m@;
        m.insert(p, (k.to_owned(), v));
        proof {
            lemma_teviews(m@);
        }
        proof {
            if p < prev.len() {
                assert(rest[0] == mv[p as int]);
            }
        }
        assert(teviews(m@) =~= mv.take(p as int) + (seq![(k@, vv)] + rest)) by {
            assert forall|t: int| 0 <= t < m@.len() implies #[trigger] teviews(m@)[t] == (mv.take(p as int) + (seq![
                (k@, vv),
            ] + rest))[t] by {
                if t < p {
                    assert(m@[t] == prev[t]);
                } else if t > p {
                    assert(m@[t] == prev[t - 1]);
                }
            }
        }
    }
}

// ---------------------------------------------------------------------------
// One dependency named twice
// ---------------------------------------------------------------------------

/// The `features` array of a dependency table.
pub open spec fn features_of(t: Seq<(Seq<char>, TomlV)>) -> Option<Seq<TomlV>> {
    match tlookup(t, "features"@) {
        Some(TomlV::Array(a)) => Some(a),
        _ => None,
    }
}

pub open spec fn or_none(o: Option<Seq<TomlV>>) -> Seq<TomlV> {
    match o {
        Some(a) => a,
        None => seq![],
    }
}

/// `d` extended by the values of `s` in order, each only when it is not
/// there yet.
pub open spec fn dedup_ext(d: Seq<TomlV>, s: Seq<TomlV>) -> Seq<TomlV>
    decreases s.len(),
{
    if s.len() == 0 {
        d
    } else {
        let d2 = dedup_ext(d, s.drop_last());
        if d2.contains(s.last()) {
            d2
        } else {
            d2.push(s.last())
        }
    }
}

/// Two specifications of one dependency unified: when either is not a
/// table, the second; else the second with its features replaced, when
/// the versions agree (both from the workspace, or the same version
/// text), by the union of both feature lists (first occurrences, in
/// order; nothing when both are empty), and otherwise by the features of
/// the workspace one (the first if it is from the workspace, else the
/// second).
pub open spec fn spec_unify(a: TomlV, b: TomlV) -> TomlV {
    match (a, b) {
        (TomlV::Table(ta), TomlV::Table(tb)) => {
            let a_ws = tlookup(ta, "workspace"@) is Some;
            let b_ws = tlookup(tb, "workspace"@) is Some;
            let a_ver = as_text(tlookup(ta, "version"@));
            let b_ver = as_text(tlookup(tb, "version"@));
            let compatible = (a_ws && b_ws) || (a_ver is Some && a_ver == b_ver);
            let fa = features_of(ta);
            let fb = features_of(tb);
            if compatible {
                if fa is Some || fb is Some {
                    let seen = dedup_ext(dedup_ext(seq![], or_none(fa)), or_none(fb));
                    if seen.len() > 0 {
                        TomlV::Table(map_put(tb, "features"@, TomlV::Array(seen)))
                    } else {
                        TomlV::Table(tb)
                    }
                } else {
                    TomlV::Table(tb)
                }
            } else {
                match (if a_ws {
                    fa
                } else {
                    fb
                }) {
                    Some(f) => TomlV::Table(map_put(tb, "features"@, TomlV::Array(f))),
                    None => TomlV::Table(tb),
                }
            }
        },
        _ => b,
    }
}

/// Structural equality of values.
pub fn toml_eq(a: &Toml, b: &Toml) -> (r: bool)
    ensures
        r == (a@ == b@),
    decreases a,
{
    match (a, b) {
        (Toml::Str(x), Toml::Str(y)) => seq_eq(&to_chars(x.as_str()), &to_chars(y.as_str())),
        (Toml::Int(x), Toml::Int(y)) => *x == *y,
        (Toml::Float(x), Toml::Float(y)) => seq_eq(&to_chars(x.as_str()), &to_chars(y.as_str())),
        (Toml::Bool(x), Toml::Bool(y)) => *x == *y,
        (Toml::Datetime(x), Toml::Datetime(y)) => seq_eq(&to_chars(x.as_str()), &to_chars(y.as_str())),
        (Toml::Array(x), Toml::Array(y)) => {
            proof {
                lemma_tviews(x@);
                lemma_tviews(y@);
            }
            if x.len() != y.len() {
                return false;
            }
            let mut i: usize = 0;
            while i < x.len()
                invariant
                    i <= x@.len(),
                    x@.len() == y@.len(),
                    tviews(x@).len() == x@.len(),
                    tviews(y@).len() == y@.len(),
                    forall|t: int| 0 <= t < x@.len() ==> #[trigger] tviews(x@)[t] == tview(x@[t]),
                    forall|t: int| 0 <= t < y@.len() ==> #[trigger] tviews(y@)[t] == tview(y@[t]),
                    forall|t: int| 0 <= t < i ==> #[trigger] tviews(x@)[t] == tviews(y@)[t],
                    forall|t: int| 0 <= t < x@.len() ==> decreases_to!(*a => x@[t]),
                    *a == Toml::Array(*x),
                    *b == Toml::Array(*y),
                decreases x@.len() - i,
            {
                if !toml_eq(&x[i], &y[i]) {
                    assert(tviews(x@)[i as int] != tviews(y@)[i as int]);
                    assert(a@ == TomlV::Array(tviews(x@)));
                    assert(b@ == TomlV::Array(tviews(y@)));
                    return false;
                }
                i = i + 1;
            }
            assert(tviews(x@) =~= tviews(y@));
            true
        },
        (Toml::Table(x), Toml::Table(y)) => {
            proof {
                lemma_teviews(x@);
                lemma_teviews(y@);
            }
            if x.len() != y.len() {
                return false;
            }
            let mut i: usize = 0;
            while i < x.len()
                invariant
                    i <= x@.len(),
                    x@.len() == y@.len(),
                    teviews(x@).len() == x@.len(),
                    teviews(y@).len() == y@.len(),
                    forall|t: int| 0 <= t < x@.len() ==> #[trigger] teviews(x@)[t] == (x@[t].0@, tview(x@[t].1)),
                    forall|t: int| 0 <= t < y@.len() ==> #[trigger] teviews(y@)[t] == (y@[t].0@, tview(y@[t].1)),
                    forall|t: int| 0 <= t < i ==> #[trigger] teviews(x@)[t] == teviews(y@)[t],
                    forall|t: int| 0 <= t < x@.len() ==> decreases_to!(*a => x@[t].1),
                    *a == Toml::Table(*x),
                    *b == Toml::Table(*y),
                decreases x@.len() - i,
            {
                assert(a@ == TomlV::Table(teviews(x@)));
                assert(b@ == TomlV::Table(teviews(y@)));
                if !seq_eq(&to_chars(x[i].0.as_str()), &to_chars(y[i].0.as_str())) {
                    assert(teviews(x@)[i as int] != teviews(y@)[i as int]);
                    return false;
                }
                if !toml_eq(&x[i].1, &y[i].1) {
                    assert(teviews(x@)[i as int] != teviews(y@)[i as int]);
                    return false;
                }
                i = i + 1;
            }
            assert(teviews(x@) =~= teviews(y@));
            true
        },
        _ => false,
    }
}


fn dedup_into(seen: &mut Vec<Toml>, src: &Vec<Toml>)
    ensures
        tviews(final(seen)@) == dedup_ext(tviews(old(seen)@), tviews(src@)),
{
    let ghost d0 = tviews(seen@);
    let ghost sv = tviews(src@);
    proof {
        lemma_tviews(src@);
    }
    let mut i: usize = 0;
    assert(sv.take(0) =~= Seq::<TomlV>::empty());
    while i < src.len()
        invariant
            i <= src@.len(),
            sv == tviews(src@),
            sv.len() == src@.len(),
            forall|t: int| 0 <= t < src@.len() ==> #[trigger] sv[t] == tview(src@[t]),
            tviews(seen@) == dedup_ext(d0, sv.take(i as int)),
        decreases src@.len() - i,
    {
        assert(sv.take(i + 1).drop_last() =~= sv.take(i as int));
        assert(sv.take(i + 1).last() == sv[i as int]);
        let ghost cur = tviews(seen@);
        proof {
            lemma_tviews(seen@);
        }
        let mut found = false;
        let mut j: usize = 0;
        while j < seen.len()
            invariant
                j <= seen@.len(),
                cur == tviews(seen@),
                cur.len() == seen@.len(),
                forall|t: int| 0 <= t < seen@.len() ==> #[trigger] cur[t] == tview(seen@[t]),
                found == cur.take(j as int).contains(sv[i as int]),
                i < src@.len(),
                sv[i as int] == tview(src@[i as int]),
            decreases seen@.len() - j,
        {
            assert(cur.take(j + 1) =~= cur.take(j as int).push(cur[j as int]));
            if toml_eq(&seen[j], &src[i]) {
                found = true;
                assert(cur.take(j + 1)[j as int] == sv[i as int]);
            } else {
                assert(cur.take(j + 1).contains(sv[i as int]) == cur.take(j as int).contains(sv[i as int])) by {
                    let t1 = cur.take(j + 1);
                    let t0 = cur.take(j as int);
                    if t1.contains(sv[i as int]) {
                        let q = choose|q: int| 0 <= q < t1.len() && #[trigger] t1[q] == sv[i as int];
                        if q < j {
                            assert(t0[q] == sv[i as int]);
                        }
                    }
                    if t0.contains(sv[i as int]) {
                        let q = choose|q: int| 0 <= q < t0.len() && #[trigger] t0[q] == sv[i as int];
                        assert(t1[q] == sv[i as int]);
                    }
                }
            }
            j = j + 1;
        }
        assert(cur.take(seen@.len() as int) =~= cur);
        if !found {
            let ghost prev = seen@;
            seen.push(copy_toml(&src[i]));
            proof {
                lemma_tviews(seen@);
                lemma_tviews(prev);
            }
            assert(tviews(seen@) =~= cur.push(sv[i as int])) by {
                assert forall|t: int| 0 <= t < seen@.len() implies #[trigger] tviews(seen@)[t] == cur.push(sv[i as int])[t] by {
                    if t < prev.len() {
                        assert(seen@[t] == prev[t]);
                    }
                }
            }
        }
        i = i + 1;
    }
    assert(sv.take(src@.len() as int) =~= sv);
}

fn features_exec(t: &Vec<(String, Toml)>) -> (r: Option<&Vec<Toml>>)
    ensures
        match r {
            Some(a) => features_of(teviews(t@)) == Some(tviews(a@)),
            None => features_of(teviews(t@)) is None,
        },
{
    match entries_get(t, "features") {
        Some(Toml::Array(a)) => Some(a),
        _ => None,
    }
}

fn version_text(t: &Vec<(String, Toml)>) -> (r: Option<&str>)
    ensures
        match r {
            Some(v) => as_text(tlookup(teviews(t@), "version"@)) == Some(v@),
            None => as_text(tlookup(teviews(t@), "version"@)) is None,
        },
{
    match entries_get(t, "version") {
        Some(Toml::Str(v)) => Some(v.as_str()),
        _ => None,
    }
}

/// See [`spec_unify`].
pub fn unify_dep_value(a: &Toml, b: &Toml) -> (r: Toml)
    ensures
        r@ == spec_unify(a@, b@),
{
    match (a, b) {
        (Toml::Table(ta), Toml::Table(tb)) => {
            let a_ws = entries_get(ta, "workspace").is_some();
            let b_ws = entries_get(tb, "workspace").is_some();
            let a_ver = version_text(ta);
            let b_ver = version_text(tb);
            let same_ver = match (a_ver, b_ver) {
                (Some(x), Some(y)) => seq_eq(&to_chars(x), &to_chars(y)),
                _ => false,
            };
            let compatible = (a_ws && b_ws) || same_ver;
            let fa = features_exec(ta);
            let fb = features_exec(tb);
            let mut out = crate::toml_value::copy_entries(tb);
            if compatible {
                if fa.is_some() || fb.is_some() {
                    let mut seen: Vec<Toml> = Vec::new();
                    assert(tviews(seen@) =~= Seq::<TomlV>::empty());
                    match fa {
                        Some(f) => dedup_into(&mut seen, f),
                        None => {},
                    }
                    assert(tviews(seen@) == dedup_ext(seq![], or_none(features_of(teviews(ta@)))));
                    match fb {
                        Some(f) => dedup_into(&mut seen, f),
                        None => {},
                    }
                    proof {
                        lemma_tviews(seen@);
                    }
                    if seen.len() > 0 {
                        map_put_exec(&mut out, "features", Toml::Array(seen));
                    }
                }
            } else {
                let ws_f = if a_ws {
                    entries_get(ta, "features")
                } else {
                    entries_get(tb, "features")
                };
                match ws_f {
                    Some(v) => match v {
                        Toml::Array(_) => {
                            map_put_exec(&mut out, "features", copy_toml(v));
                        },
                        _ => {},
                    },
                    None => {},
                }
            }
            Toml::Table(out)
        },
        _ => copy_toml(b),
    }
}


/// The value of key `k` among entries.
pub open spec fn mlookup<V>(m: Seq<(Seq<char>, V)>, k: Seq<char>) -> Option<V>
    decreases m.len(),
{
    if m.len() == 0 {
        None
    } else if m[0].0 == k {
        Some(m[0].1)
    } else {
        mlookup(m.drop_first(), k)
    }
}

// ---------------------------------------------------------------------------
// Gathering the members' dependencies
// ---------------------------------------------------------------------------

/// A member of the cluster has the package name `k`.
pub open spec fn is_member_pkg(mv: Seq<(Seq<char>, Seq<char>, Seq<char>)>, k: Seq<char>) -> bool {
    exists|i: int| 0 <= i < mv.len() && #[trigger] mv[i].1 == k
}

/// One dependency taken into the gathered table: skipped when it is a
/// member or the merged package (they become modules of one crate), added
/// when new, unified with the one there otherwise.
pub open spec fn merge_step(
    acc: Seq<(Seq<char>, TomlV)>,
    k: Seq<char>,
    v: TomlV,
    mv: Seq<(Seq<char>, Seq<char>, Seq<char>)>,
    merged: Seq<char>,
) -> Seq<(Seq<char>, TomlV)> {
    if is_member_pkg(mv, k) || k == merged {
        acc
    } else {
        match tlookup(acc, k) {
            None => map_put(acc, k, v),
            Some(e) => map_put(acc, k, spec_unify(e, v)),
        }
    }
}

pub open spec fn merge_table(
    acc: Seq<(Seq<char>, TomlV)>,
    src: Seq<(Seq<char>, TomlV)>,
    mv: Seq<(Seq<char>, Seq<char>, Seq<char>)>,
    merged: Seq<char>,
) -> Seq<(Seq<char>, TomlV)>
    decreases src.len(),
{
    if src.len() == 0 {
        acc
    } else {
        merge_step(merge_table(acc, src.drop_last(), mv, merged), src.last().0, src.last().1, mv, merged)
    }
}

/// Takes the dependencies of `src` into `accum` (see [`merge_table`]).
pub fn merge_dep_table(accum: &mut Vec<(String, Toml)>, src: &Vec<(String, Toml)>, cluster: &Cluster)
    ensures
        teviews(final(accum)@) == merge_table(
            teviews(old(accum)@),
            teviews(src@),
            members_view(cluster.members@),
            cluster.merged_package@,
        ),
{
    let ghost mv = members_view(cluster.members@);
    let ghost a0 = teviews(accum@);
    let ghost sv = teviews(src@);
    proof {
        lemma_teviews(src@);
    }
    let mut i: usize = 0;
    assert(sv.take(0) =~= Seq::<(Seq<char>, TomlV)>::empty());
    while i < src.len()
        invariant
            i <= src@.len(),
            mv == members_view(cluster.members@),
            sv == teviews(src@),
            sv.len() == src@.len(),
            forall|t: int| 0 <= t < src@.len() ==> #[trigger] sv[t] == (src@[t].0@, tview(src@[t].1)),
            teviews(accum@) == merge_table(a0, sv.take(i as int), mv, cluster.merged_package@),
        decreases src@.len() - i,
    {
        assert(sv.take(i + 1).drop_last() =~= sv.take(i as int));
        assert(sv.take(i + 1).last() == sv[i as int]);
        let key = src[i].0.as_str();
        let member = cluster.contains_package(key);
        assert(member == is_member_pkg(mv, key@)) by {
            if member {
                let q = choose|q: int| 0 <= q < cluster.members@.len() && #[trigger] cluster.members@[q].package@ == key@;
                assert(mv[q].1 == key@);
            }
            if is_member_pkg(mv, key@) {
                let q = choose|q: int| 0 <= q < mv.len() && #[trigger] mv[q].1 == key@;
                assert(cluster.members@[q].package@ == key@);
            }
        }
        if member || seq_eq(&to_chars(key), &to_chars(cluster.merged_package)) {
        } else {
            match entries_get(accum, key) {
                None => {
                    map_put_exec(accum, key, copy_toml(&src[i].1));
                },
                Some(e) => {
                    let u = unify_dep_value(e, &src[i].1);
                    map_put_exec(accum, key, u);
                },
            }
        }
        i = i + 1;
    }
    assert(sv.take(src@.len() as int) =~= sv);
}


/// Target-scoped tables: configuration text and the dependency table.
pub open spec fn nested_view(v: Seq<(String, Vec<(String, Toml)>)>) -> Seq<(Seq<char>, Seq<(Seq<char>, TomlV)>)> {
    v.map_values(|e: (String, Vec<(String, Toml)>)| (e.0@, teviews(e.1@)))
}

fn nested_take(tm: &mut Vec<(String, Vec<(String, Toml)>)>, cfg: &str) -> (r: Vec<(String, Toml)>)
    ensures
        teviews(r@) == match mlookup(nested_view(old(tm)@), cfg@) {
            Some(m) => m,
            None => seq![],
        },
        nested_view(final(tm)@) == nested_view(old(tm)@),
{
    let ghost nv = nested_view(tm@);
    let k = to_chars(cfg);
    let mut p: usize = 0;
    assert(nv.skip(0) =~= nv);
    while p < tm.len() && !seq_eq(&to_chars(tm[p].0.as_str()), &k)
        invariant
            p <= tm@.len(),
            nv == nested_view(tm@),
            nv == nested_view(old(tm)@),
            k@ == cfg@,
            mlookup(nv, cfg@) == mlookup(nv.skip(p as int), cfg@),
        decreases tm@.len() - p,
    {
        assert(nv.skip(p as int)[0] == nv[p as int]);
        assert(nv.skip(p as int).drop_first() =~= nv.skip(p + 1));
        p = p + 1;
    }
    if p < tm.len() {
        assert(nv.skip(p as int)[0] == nv[p as int]);
        crate::toml_value::copy_entries(&tm[p].1)
    } else {
        assert(nv.skip(p as int) =~= Seq::<(Seq<char>, Seq<(Seq<char>, TomlV)>)>::empty());
        Vec::new()
    }
}

fn nested_put(tm: &mut Vec<(String, Vec<(String, Toml)>)>, cfg: &str, m: Vec<(String, Toml)>)
    ensures
        nested_view(final(tm)@) == map_put(nested_view(old(tm)@), cfg@, teviews(m@)),
{
    let ghost nv = nested_view(tm@);
    let ghost mv = teviews(m@);
    let kc = to_chars(cfg);
    let mut p: usize = 0;
    assert(nv.skip(0) =~= nv);
    assert(nv.take(0) + map_put(nv.skip(0), cfg@, mv) =~= map_put(nv, cfg@, mv));
    while p < tm.len() && !seq_eq(&to_chars(tm[p].0.as_str()), &kc) && text_lt_exec(&to_chars(tm[p].0.as_str()), &kc)
        invariant
            p <= tm@.len(),
            nv == nested_view(tm@),
            kc@ == cfg@,
            nv.take(p as int) + map_put(nv.skip(p as int), cfg@, mv) == map_put(nv, cfg@, mv),
        decreases tm@.len() - p,
    {
        let ghost rest = nv.skip(p as int);
        assert(rest[0] == nv[p as int]);
        assert(rest.drop_first() =~= nv.skip(p + 1));
        assert(nv.take(p as int) + map_put(rest, cfg@, mv) =~= nv.take(p + 1) + map_put(nv.skip(p + 1), cfg@, mv));
        p = p + 1;
    }
    let ghost rest = nv.skip(p as int);
    if p < tm.len() && seq_eq(&to_chars(tm[p].0.as_str()), &kc) {
        assert(rest[0] == nv[p as int]);
        tm.set(p, (cfg.to_owned(), m));
        assert(nested_view(tm@) =~= nv.take(p as int) + rest.update(0, (cfg@, mv)));
    } else {
        proof {
            if p < tm@.len() {
                assert(rest[0] == nv[p as int]);
            }
        }
        tm.insert(p, (cfg.to_owned(), m));
        assert(nested_view(tm@) =~= nv.take(p as int) + (seq![(cfg@, mv)] + rest));
    }
}

/// The gathered dependency tables of a merged crate.
pub struct AggregateDeps {
    pub deps: Vec<(String, Toml)>,
    pub dev_deps: Vec<(String, Toml)>,
    pub target_deps: Vec<(String, Vec<(String, Toml)>)>,
    pub target_dev_deps: Vec<(String, Vec<(String, Toml)>)>,
}

pub struct AggV {
    pub deps: Seq<(Seq<char>, TomlV)>,
    pub dev: Seq<(Seq<char>, TomlV)>,
    pub tdeps: Seq<(Seq<char>, Seq<(Seq<char>, TomlV)>)>,
    pub tdev: Seq<(Seq<char>, Seq<(Seq<char>, TomlV)>)>,
}

pub open spec fn agg_view(a: AggregateDeps) -> AggV {
    AggV {
        deps: teviews(a.deps@),
        dev: teviews(a.dev_deps@),
        tdeps: nested_view(a.target_deps@),
        tdev: nested_view(a.target_dev_deps@),
    }
}

pub open spec fn empty_agg() -> AggV {
    AggV { deps: seq![], dev: seq![], tdeps: seq![], tdev: seq![] }
}

/// The table `key` of a value, when it is a table.
pub open spec fn table_of(doc: TomlV, key: Seq<char>) -> Option<Seq<(Seq<char>, TomlV)>> {
    match crate::toml_value::tget(doc, key) {
        Some(TomlV::Table(m)) => Some(m),
        _ => None,
    }
}

pub open spec fn nested_or_empty(tm: Seq<(Seq<char>, Seq<(Seq<char>, TomlV)>)>, cfg: Seq<char>) -> Seq<(Seq<char>, TomlV)> {
    match mlookup(tm, cfg) {
        Some(m) => m,
        None => seq![],
    }
}

/// One `[target.<cfg>]` table: its dependencies and dev-dependencies are
/// taken into the tables for `cfg`.
pub open spec fn target_step(
    agg: AggV,
    cfg: Seq<char>,
    scope: TomlV,
    mv: Seq<(Seq<char>, Seq<char>, Seq<char>)>,
    merged: Seq<char>,
) -> AggV {
    if scope is Table {
        let a1 = match table_of(scope, "dependencies"@) {
            Some(d) => AggV {
                tdeps: map_put(agg.tdeps, cfg, merge_table(nested_or_empty(agg.tdeps, cfg), d, mv, merged)),
                ..agg
            },
            None => agg,
        };
        match table_of(scope, "dev-dependencies"@) {
            Some(d) => AggV {
                tdev: map_put(a1.tdev, cfg, merge_table(nested_or_empty(a1.tdev, cfg), d, mv, merged)),
                ..a1
            },
            None => a1,
        }
    } else {
        agg
    }
}

pub open spec fn targets_fold(
    agg: AggV,
    ts: Seq<(Seq<char>, TomlV)>,
    mv: Seq<(Seq<char>, Seq<char>, Seq<char>)>,
    merged: Seq<char>,
) -> AggV
    decreases ts.len(),
{
    if ts.len() == 0 {
        agg
    } else {
        target_step(targets_fold(agg, ts.drop_last(), mv, merged), ts.last().0, ts.last().1, mv, merged)
    }
}

/// One member's manifest taken in: its dependencies, dev-dependencies and
/// target-scoped ones.
pub open spec fn member_step(agg: AggV, doc: TomlV, mv: Seq<(Seq<char>, Seq<char>, Seq<char>)>, merged: Seq<char>) -> AggV {
    let a1 = match table_of(doc, "dependencies"@) {
        Some(d) => AggV { deps: merge_table(agg.deps, d, mv, merged), ..agg },
        None => agg,
    };
    let a2 = match table_of(doc, "dev-dependencies"@) {
        Some(d) => AggV { dev: merge_table(a1.dev, d, mv, merged), ..a1 },
        None => a1,
    };
    match table_of(doc, "target"@) {
        Some(ts) => targets_fold(a2, ts, mv, merged),
        None => a2,
    }
}

/// The members' manifests taken in, in order; none when one is not a TOML
/// document with a table at its root.
pub open spec fn spec_collect(texts: Seq<Seq<char>>, mv: Seq<(Seq<char>, Seq<char>, Seq<char>)>, merged: Seq<char>) -> Option<AggV>
    decreases texts.len(),
{
    if texts.len() == 0 {
        Some(empty_agg())
    } else {
        match spec_collect(texts.drop_last(), mv, merged) {
            None => None,
            Some(agg) => match toml_parse(texts.last()) {
                Some(doc) => if doc is Table {
                    Some(member_step(agg, doc, mv, merged))
                } else {
                    None
                },
                None => None,
            },
        }
    }
}

fn merge_nested(tm: &mut Vec<(String, Vec<(String, Toml)>)>, cfg: &str, d: &Vec<(String, Toml)>, cluster: &Cluster)
    ensures
        nested_view(final(tm)@) == map_put(
            nested_view(old(tm)@),
            cfg@,
            merge_table(
                nested_or_empty(nested_view(old(tm)@), cfg@),
                teviews(d@),
                members_view(cluster.members@),
                cluster.merged_package@,
            ),
        ),
{
    let mut cur = nested_take(tm, cfg);
    merge_dep_table(&mut cur, d, cluster);
    nested_put(tm, cfg, cur);
}

fn table_get<'a>(doc: &'a Toml, key: &str) -> (r: Option<&'a Vec<(String, Toml)>>)
    ensures
        match r {
            Some(m) => table_of(doc@, key@) == Some(teviews(m@)),
            None => table_of(doc@, key@) is None,
        },
{
    match crate::toml_value::tget_exec(doc, key) {
        Some(Toml::Table(m)) => Some(m),
        _ => None,
    }
}

fn member_step_exec(agg: &mut AggregateDeps, doc: &Toml, cluster: &Cluster)
    ensures
        agg_view(*final(agg)) == member_step(agg_view(*old(agg)), doc@, members_view(cluster.members@), cluster.merged_package@),
{
    let ghost mv = members_view(cluster.members@);
    let ghost merged = cluster.merged_package@;
    match table_get(doc, "dependencies") {
        Some(d) => merge_dep_table(&mut agg.deps, d, cluster),
        None => {},
    }
    match table_get(doc, "dev-dependencies") {
        Some(d) => merge_dep_table(&mut agg.dev_deps, d, cluster),
        None => {},
    }
    let ghost a2 = agg_view(*agg);
    match table_get(doc, "target") {
        Some(ts) => {
            let ghost tv = teviews(ts@);
            proof {
                lemma_teviews(ts@);
            }
            let mut i: usize = 0;
            assert(tv.take(0) =~= Seq::<(Seq<char>, TomlV)>::empty());
            while i < ts.len()
                invariant
                    i <= ts@.len(),
                    tv == teviews(ts@),
                    tv.len() == ts@.len(),
                    forall|t: int| 0 <= t < ts@.len() ==> #[trigger] tv[t] == (ts@[t].0@, tview(ts@[t].1)),
                    mv == members_view(cluster.members@),
                    merged == cluster.merged_package@,
                    agg_view(*agg) == targets_fold(a2, tv.take(i as int), mv, merged),
                decreases ts@.len() - i,
            {
                assert(tv.take(i + 1).drop_last() =~= tv.take(i as int));
                assert(tv.take(i + 1).last() == tv[i as int]);
                let cfg = ts[i].0.as_str();
                let scope = &ts[i].1;
                match scope {
                    Toml::Table(_) => {
                        match table_get(scope, "dependencies") {
                            Some(d) => merge_nested(&mut agg.target_deps, cfg, d, cluster),
                            None => {},
                        }
                        match table_get(scope, "dev-dependencies") {
                            Some(d) => merge_nested(&mut agg.target_dev_deps, cfg, d, cluster),
                            None => {},
                        }
                    },
                    _ => {},
                }
                i = i + 1;
            }
            assert(tv.take(ts@.len() as int) =~= tv);
        },
        None => {},
    }
}

/// Gathers the dependency tables of the cluster's members from the texts
/// of their manifests, in member order (see [`spec_collect`]); a text that
/// is not a TOML table is refused.
pub fn collect_aggregate_deps(manifests: &[String], cluster: &Cluster) -> (r: Result<AggregateDeps, ManifestReadError>)
    ensures
        match (r, spec_collect(manifests@.map_values(|s: String| s@), members_view(cluster.members@), cluster.merged_package@)) {
            (Ok(a), Some(v)) => agg_view(a) == v,
            (Err(ManifestReadError::Parse), None) => true,
            _ => false,
        },
{
    let ghost texts = manifests@.map_values(|s: String| s@);
    let ghost mv = members_view(cluster.members@);
    let mut agg = AggregateDeps { deps: Vec::new(), dev_deps: Vec::new(), target_deps: Vec::new(), target_dev_deps: Vec::new() };
    assert(agg_view(agg) == empty_agg()) by {
        assert(teviews(agg.deps@) =~= Seq::<(Seq<char>, TomlV)>::empty());
        assert(teviews(agg.dev_deps@) =~= Seq::<(Seq<char>, TomlV)>::empty());
        assert(nested_view(agg.target_deps@) =~= Seq::<(Seq<char>, Seq<(Seq<char>, TomlV)>)>::empty());
        assert(nested_view(agg.target_dev_deps@) =~= Seq::<(Seq<char>, Seq<(Seq<char>, TomlV)>)>::empty());
    }
    let mut i: usize = 0;
    assert(texts.take(0) =~= Seq::<Seq<char>>::empty());
    while i < manifests.len()
        invariant
            i <= manifests@.len(),
            texts == manifests@.map_values(|s: String| s@),
            mv == members_view(cluster.members@),
            spec_collect(texts.take(i as int), mv, cluster.merged_package@) == Some(agg_view(agg)),
        decreases manifests@.len() - i,
    {
        assert(texts.take(i + 1).drop_last() =~= texts.take(i as int));
        assert(texts.take(i + 1).last() == manifests@[i as int]@);
        match parse_toml(manifests[i].as_str()) {
            Some(doc) => match &doc {
                Toml::Table(_) => {
                    member_step_exec(&mut agg, &doc, cluster);
                },
                _ => {
                    proof {
                        lemma_collect_none(texts, mv, cluster.merged_package@, i + 1);
                    }
                    return Err(ManifestReadError::Parse);
                },
            },
            None => {
                proof {
                    lemma_collect_none(texts, mv, cluster.merged_package@, i + 1);
                }
                return Err(ManifestReadError::Parse);
            },
        }
        i = i + 1;
    }
    assert(texts.take(manifests@.len() as int) =~= texts);
    Ok(agg)
}

/// The host crate's own dependencies taken into the gathered ones: its
/// manifest's `[dependencies]` table (see [`merge_table`]); nothing is taken
/// when the text is not TOML or has no such table.
pub open spec fn spec_merge_host(agg: AggV, host_manifest: Seq<char>, mv: Seq<(Seq<char>, Seq<char>, Seq<char>)>, merged: Seq<char>) -> AggV {
    match toml_parse(host_manifest) {
        Some(doc) => match table_of(doc, "dependencies"@) {
            Some(d) => AggV { deps: merge_table(agg.deps, d, mv, merged), ..agg },
            None => agg,
        },
        None => agg,
    }
}

/// Takes the `[dependencies]` of the host crate's manifest text into the
/// gathered dependencies (see [`spec_merge_host`]).
pub fn merge_host_manifest_deps(agg: &mut AggregateDeps, host_manifest: &str, cluster: &Cluster)
    ensures
        agg_view(*final(agg)) == spec_merge_host(
            agg_view(*old(agg)),
            host_manifest@,
            members_view(cluster.members@),
            cluster.merged_package@,
        ),
{
    match parse_toml(host_manifest) {
        Some(doc) => match table_get(&doc, "dependencies") {
            Some(d) => merge_dep_table(&mut agg.deps, d, cluster),
            None => {},
        },
        None => {},
    }
}

proof fn lemma_collect_none(texts: Seq<Seq<char>>, mv: Seq<(Seq<char>, Seq<char>, Seq<char>)>, merged: Seq<char>, k: int)
    requires
        0 <= k <= texts.len(),
        spec_collect(texts.take(k), mv, merged) is None,
    ensures
        spec_collect(texts, mv, merged) is None,
    decreases texts.len(),
{
    if k == texts.len() {
        assert(texts.take(k) =~= texts);
    } else {
        assert(texts.drop_last().take(k) =~= texts.take(k));
        lemma_collect_none(texts.drop_last(), mv, merged, k);
    }
}


// ---------------------------------------------------------------------------
// The merged crate's files
// ---------------------------------------------------------------------------

/// `key = value` lines.
pub open spec fn plain_dep_lines(m: Seq<(Seq<char>, TomlV)>) -> Seq<char>
    decreases m.len(),
{
    if m.len() == 0 {
        seq![]
    } else {
        plain_dep_lines(m.drop_last()) + m.last().0 + " = "@ + render(m.last().1) + "\n"@
    }
}

/// A `[section]` table, nothing when it is empty.
pub open spec fn dep_section(section: Seq<char>, m: Seq<(Seq<char>, TomlV)>) -> Seq<char> {
    if m.len() == 0 {
        seq![]
    } else {
        "\n["@ + section + "]\n"@ + plain_dep_lines(m)
    }
}

/// A `[target.'cfg'.section]` table followed by a blank line, nothing when
/// it is empty.
pub open spec fn target_section(cfg: Seq<char>, section: Seq<char>, m: Seq<(Seq<char>, TomlV)>) -> Seq<char> {
    if m.len() == 0 {
        seq![]
    } else {
        "[target.'"@ + cfg + "'."@ + section + "]\n"@ + plain_dep_lines(m) + "\n"@
    }
}

pub open spec fn target_sections(tm: Seq<(Seq<char>, Seq<(Seq<char>, TomlV)>)>, section: Seq<char>) -> Seq<char>
    decreases tm.len(),
{
    if tm.len() == 0 {
        seq![]
    } else {
        target_sections(tm.drop_last(), section) + target_section(tm.last().0, section, tm.last().1)
    }
}

/// The merged crate's manifest: package with workspace-inherited version,
/// edition and license; workspace lints; the gathered tables; and the
/// library name without doctests.
pub open spec fn spec_merged_cargo_toml(agg: AggV, package: Seq<char>, lib_ident: Seq<char>) -> Seq<char> {
    "[package]\n"@ + "name = \""@ + package + "\"\n"@ + "version.workspace = true\n"@
        + "edition.workspace = true\n"@ + "license.workspace = true\n"@ + "\n[lints]\nworkspace = true\n"@
        + dep_section("dependencies"@, agg.deps) + dep_section("dev-dependencies"@, agg.dev)
        + target_sections(agg.tdeps, "dependencies"@) + target_sections(agg.tdev, "dev-dependencies"@)
        + "\n[lib]\n"@ + "name = \""@ + lib_ident + "\"\n"@ + "doctest = false\n"@
}

fn plain_dep_lines_exec(out: &mut Vec<char>, m: &Vec<(String, Toml)>)
    ensures
        final(out)@ == old(out)@ + plain_dep_lines(teviews(m@)),
{
    let ghost mv = teviews(m@);
    let ghost o = out@;
    proof {
        lemma_teviews(m@);
    }
    let mut i: usize = 0;
    assert(mv.take(0) =~= Seq::<(Seq<char>, TomlV)>::empty());
    while i < m.len()
        invariant
            i <= m@.len(),
            mv == teviews(m@),
            mv.len() == m@.len(),
            forall|t: int| 0 <= t < m@.len() ==> #[trigger] mv[t] == (m@[t].0@, tview(m@[t].1)),
            out@ == o + plain_dep_lines(mv.take(i as int)),
        decreases m@.len() - i,
    {
        assert(mv.take(i + 1).drop_last() =~= mv.take(i as int));
        assert(mv.take(i + 1).last() == mv[i as int]);
        let ghost before = out@;
        extend_lit(out, m[i].0.as_str());
        extend_lit(out, " = ");
        extend(out, &render_toml_value(&m[i].1));
        extend_lit(out, "\n");
        assert(out@ =~= o + plain_dep_lines(mv.take(i + 1)));
        i = i + 1;
    }
    assert(mv.take(m@.len() as int) =~= mv);
}

fn dep_section_exec(out: &mut Vec<char>, section: &str, m: &Vec<(String, Toml)>)
    ensures
        final(out)@ == old(out)@ + dep_section(section@, teviews(m@)),
{
    proof {
        lemma_teviews(m@);
    }
    if m.len() == 0 {
        assert(old(out)@ + dep_section(section@, teviews(m@)) =~= old(out)@);
        return;
    }
    let ghost o = out@;
    extend_lit(out, "\n[");
    extend_lit(out, section);
    extend_lit(out, "]\n");
    plain_dep_lines_exec(out, m);
    assert(out@ =~= o + dep_section(section@, teviews(m@)));
}

fn target_sections_exec(out: &mut Vec<char>, tm: &Vec<(String, Vec<(String, Toml)>)>, section: &str)
    ensures
        final(out)@ == old(out)@ + target_sections(nested_view(tm@), section@),
{
    let ghost nv = nested_view(tm@);
    let ghost o = out@;
    let mut i: usize = 0;
    assert(nv.take(0) =~= Seq::<(Seq<char>, Seq<(Seq<char>, TomlV)>)>::empty());
    while i < tm.len()
        invariant
            i <= tm@.len(),
            nv == nested_view(tm@),
            out@ == o + target_sections(nv.take(i as int), section@),
        decreases tm@.len() - i,
    {
        assert(nv.take(i + 1).drop_last() =~= nv.take(i as int));
        assert(nv.take(i + 1).last() == nv[i as int]);
        let ghost before = out@;
        let m = &tm[i].1;
        proof {
            lemma_teviews(m@);
        }
        if m.len() > 0 {
            extend_lit(out, "[target.'");
            extend_lit(out, tm[i].0.as_str());
            extend_lit(out, "'.");
            extend_lit(out, section);
            extend_lit(out, "]\n");
            plain_dep_lines_exec(out, m);
            extend_lit(out, "\n");
        }
        assert(out@ =~= o + target_sections(nv.take(i + 1), section@));
        i = i + 1;
    }
    assert(nv.take(tm@.len() as int) =~= nv);
}

/// See [`spec_merged_cargo_toml`].
pub fn merged_cargo_toml(agg: &AggregateDeps, cluster: &Cluster) -> (r: String)
    ensures
        r@ == spec_merged_cargo_toml(agg_view(*agg), cluster.merged_package@, cluster.merged_lib_ident@),
{
    let mut out = to_chars("[package]\n");
    extend_lit(&mut out, "name = \"");
    extend_lit(&mut out, cluster.merged_package);
    extend_lit(&mut out, "\"\n");
    extend_lit(&mut out, "version.workspace = true\n");
    extend_lit(&mut out, "edition.workspace = true\n");
    extend_lit(&mut out, "license.workspace = true\n");
    extend_lit(&mut out, "\n[lints]\nworkspace = true\n");
    dep_section_exec(&mut out, "dependencies", &agg.deps);
    dep_section_exec(&mut out, "dev-dependencies", &agg.dev_deps);
    target_sections_exec(&mut out, &agg.target_deps, "dependencies");
    target_sections_exec(&mut out, &agg.target_dev_deps, "dev-dependencies");
    extend_lit(&mut out, "\n[lib]\n");
    extend_lit(&mut out, "name = \"");
    extend_lit(&mut out, cluster.merged_lib_ident);
    extend_lit(&mut out, "\"\n");
    extend_lit(&mut out, "doctest = false\n");
    from_chars(&out)
}

/// `pub mod` lines for some module names.
pub open spec fn mod_lines(ms: Seq<Seq<char>>) -> Seq<char>
    decreases ms.len(),
{
    if ms.len() == 0 {
        seq![]
    } else {
        mod_lines(ms.drop_last()) + "pub mod "@ + ms.last() + ";\n"@
    }
}

/// The merged crate's library root: a doc line naming the package, then
/// a `pub mod` for the host module (when the crate keeps its own former
/// source in one) and for each member.
pub open spec fn spec_merged_lib_rs(package: Seq<char>, host: Option<Seq<char>>, modules: Seq<Seq<char>>) -> Seq<char> {
    "//! Merged `"@ + package + "` crate — union of former sub-crates, each as `pub mod`.\n"@ + match host {
        Some(h) => "pub mod "@ + h + ";\n"@,
        None => seq![],
    } + mod_lines(modules)
}

/// See [`spec_merged_lib_rs`].
pub fn merged_lib_rs(cluster: &Cluster, host_module: Option<&str>) -> (r: String)
    ensures
        r@ == spec_merged_lib_rs(
            cluster.merged_package@,
            match host_module {
                Some(h) => Some(h@),
                None => None,
            },
            members_view(cluster.members@).map_values(|t: (Seq<char>, Seq<char>, Seq<char>)| t.2),
        ),
{
    let ghost ms = members_view(cluster.members@).map_values(|t: (Seq<char>, Seq<char>, Seq<char>)| t.2);
    let mut out = to_chars("//! Merged `");
    extend_lit(&mut out, cluster.merged_package);
    extend_lit(&mut out, "` crate — union of former sub-crates, each as `pub mod`.\n");
    match host_module {
        Some(h) => {
            extend_lit(&mut out, "pub mod ");
            extend_lit(&mut out, h);
            extend_lit(&mut out, ";\n");
        },
        None => {},
    }
    let ghost head = out@;
    let mut i: usize = 0;
    assert(ms.take(0) =~= Seq::<Seq<char>>::empty());
    while i < cluster.members.len()
        invariant
            i <= cluster.members@.len(),
            ms == members_view(cluster.members@).map_values(|t: (Seq<char>, Seq<char>, Seq<char>)| t.2),
            out@ == head + mod_lines(ms.take(i as int)),
        decreases cluster.members@.len() - i,
    {
        assert(ms.take(i + 1).drop_last() =~= ms.take(i as int));
        assert(ms.take(i + 1).last() == cluster.members@[i as int].module@);
        extend_lit(&mut out, "pub mod ");
        extend_lit(&mut out, cluster.members[i].module.as_str());
        extend_lit(&mut out, ";\n");
        assert(out@ =~= head + mod_lines(ms.take(i + 1)));
        i = i + 1;
    }
    assert(ms.take(cluster.members@.len() as int) =~= ms);
    proof {
        reveal_strlit("");
    }
    assert(out@ =~= spec_merged_lib_rs(
        cluster.merged_package@,
        match host_module {
            Some(h) => Some(h@),
            None => None,
        },
        ms,
    ));
    from_chars(&out)
}

} // verus!
