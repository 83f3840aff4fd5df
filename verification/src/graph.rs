//! The dependency graph of the source workspace's `codex-*` crates (normal
//! dependencies only), read from `cargo metadata`, and the transitive
//! closure of a crate in it.

use vstd::prelude::*;
use vstd::seq_lib::*;
use crate::json::{as_str, get, get_str, jviews, lemma_jviews, ostr, vget, vstr, Json, JsonV};
use crate::text::{ends_with, replace_all, seq_eq, starts_with, to_chars, trim_end_char, views};

verus! {

/// What the graph records of a package: its `codex-*` normal dependencies,
/// its directory relative to the workspace root, and whether it is a
/// proc-macro crate.
pub struct PackageInfo {
    pub deps: Vec<String>,
    pub dir: String,
    pub is_proc_macro: bool,
}

pub struct InfoV {
    pub deps: Seq<Seq<char>>,
    pub dir: Seq<char>,
    pub is_proc_macro: bool,
}

pub open spec fn strings_view(v: Seq<String>) -> Seq<Seq<char>> {
    v.map_values(|s: String| s@)
}

pub open spec fn info_view(i: PackageInfo) -> InfoV {
    InfoV { deps: strings_view(i.deps@), dir: i.dir@, is_proc_macro: i.is_proc_macro }
}

pub open spec fn graph_view(g: Seq<(String, PackageInfo)>) -> Seq<(Seq<char>, InfoV)> {
    g.map_values(|e: (String, PackageInfo)| (e.0@, info_view(e.1)))
}

/// The info of the last entry named `n` (a later entry replaces an earlier
/// one, as in a map).
pub open spec fn node_info(g: Seq<(Seq<char>, InfoV)>, n: Seq<char>) -> Option<InfoV>
    decreases g.len(),
{
    if g.len() == 0 {
        None
    } else if g.last().0 == n {
        Some(g.last().1)
    } else {
        node_info(g.drop_last(), n)
    }
}

/// `n` is a dependency of `m`.
pub open spec fn edge(g: Seq<(Seq<char>, InfoV)>, m: Seq<char>, n: Seq<char>) -> bool {
    match node_info(g, m) {
        Some(i) => i.deps.contains(n),
        None => false,
    }
}

/// `p` is a path from `s` along dependency edges.
pub open spec fn is_path(g: Seq<(Seq<char>, InfoV)>, s: Seq<char>, p: Seq<Seq<char>>) -> bool {
    &&& p.len() > 0
    &&& p[0] == s
    &&& forall|i: int| 0 <= i < p.len() - 1 ==> #[trigger] edge(g, p[i], p[i + 1])
}

/// `n` is reached from `s` by following dependencies (`s` itself included).
pub open spec fn reachable(g: Seq<(Seq<char>, InfoV)>, s: Seq<char>, n: Seq<char>) -> bool {
    exists|p: Seq<Seq<char>>| #[trigger] is_path(g, s, p) && p.last() == n
}

/// Every dependency named in the graph.
pub open spec fn all_deps(g: Seq<(Seq<char>, InfoV)>) -> Seq<Seq<char>>
    decreases g.len(),
{
    if g.len() == 0 {
        seq![]
    } else {
        all_deps(g.drop_last()) + g.last().1.deps
    }
}

pub proof fn lemma_edge_in_all_deps(g: Seq<(Seq<char>, InfoV)>, m: Seq<char>, n: Seq<char>)
    requires
        edge(g, m, n),
    ensures
        all_deps(g).contains(n),
    decreases g.len(),
{
    if g.last().0 == m {
        let d = g.last().1.deps;
        let k = choose|k: int| 0 <= k < d.len() && d[k] == n;
        assert(all_deps(g)[all_deps(g.drop_last()).len() + k] == n);
    } else {
        lemma_edge_in_all_deps(g.drop_last(), m, n);
        let a = all_deps(g.drop_last());
        let k = choose|k: int| 0 <= k < a.len() && a[k] == n;
        assert(all_deps(g)[k] == n);
    }
}

/// A set that holds `s` and every dependency of its members holds every
/// node reached from `s`.
pub proof fn lemma_closed_holds_reachable(
    g: Seq<(Seq<char>, InfoV)>,
    s: Seq<char>,
    c: Seq<Seq<char>>,
    n: Seq<char>,
)
    requires
        c.contains(s),
        forall|x: Seq<char>, d: Seq<char>| c.contains(x) && #[trigger] edge(g, x, d) ==> c.contains(d),
        reachable(g, s, n),
    ensures
        c.contains(n),
{
    let p = choose|p: Seq<Seq<char>>| #[trigger] is_path(g, s, p) && p.last() == n;
    lemma_path_in_closed(g, s, c, p, p.len() - 1);
}

proof fn lemma_path_in_closed(
    g: Seq<(Seq<char>, InfoV)>,
    s: Seq<char>,
    c: Seq<Seq<char>>,
    p: Seq<Seq<char>>,
    i: int,
)
    requires
        c.contains(s),
        forall|x: Seq<char>, d: Seq<char>| c.contains(x) && #[trigger] edge(g, x, d) ==> c.contains(d),
        is_path(g, s, p),
        0 <= i < p.len(),
    ensures
        c.contains(p[i]),
    decreases i,
{
    if i > 0 {
        lemma_path_in_closed(g, s, c, p, i - 1);
        let k = i - 1;
        assert(edge(g, p[k], p[k + 1]));
    }
}

/// A path extended by one edge.
pub proof fn lemma_reach_step(g: Seq<(Seq<char>, InfoV)>, s: Seq<char>, m: Seq<char>, n: Seq<char>)
    requires
        reachable(g, s, m),
        edge(g, m, n),
    ensures
        reachable(g, s, n),
{
    let p = choose|p: Seq<Seq<char>>| #[trigger] is_path(g, s, p) && p.last() == m;
    let q = p.push(n);
    assert forall|i: int| 0 <= i < q.len() - 1 implies #[trigger] edge(g, q[i], q[i + 1]) by {
        if i < p.len() - 1 {
            assert(edge(g, p[i], p[i + 1]));
        }
    }
    assert(is_path(g, s, q));
}

fn vec_contains(v: &Vec<Vec<char>>, x: &[char]) -> (r: bool)
    ensures
        r == views(v@).contains(x@),
{
    let ghost vv = views(v@);
    let mut i: usize = 0;
    while i < v.len()
        invariant
            i <= v@.len(),
            vv == views(v@),
            vv.len() == v@.len(),
            forall|t: int| 0 <= t < i ==> vv[t] != x@,
        decreases v@.len() - i,
    {
        assert(vv[i as int] == v@[i as int]@);
        if seq_eq(&v[i], x) {
            return true;
        }
        i = i + 1;
    }
    false
}

/// The dependencies of the last entry named `name`.
fn node_deps<'a>(graph: &'a [(String, PackageInfo)], name: &[char]) -> (r: Option<&'a Vec<String>>)
    ensures
        r matches Some(ds) ==> node_info(graph_view(graph@), name@) matches Some(i) && i.deps == strings_view(ds@),
        r is None ==> node_info(graph_view(graph@), name@) is None,
{
    let ghost g = graph_view(graph@);
    let mut k: usize = graph.len();
    assert(g.take(k as int) =~= g);
    while k > 0
        invariant
            k <= graph@.len(),
            g == graph_view(graph@),
            node_info(g.take(k as int), name@) == node_info(g, name@),
        decreases k,
    {
        let ghost gk = g.take(k as int);
        assert(gk.last() == (graph@[k - 1].0@, info_view(graph@[k - 1].1)));
        if seq_eq(&to_chars(graph[k - 1].0.as_str()), name) {
            return Some(&graph[k - 1].1.deps);
        }
        assert(gk.drop_last() =~= g.take(k - 1));
        k = k - 1;
    }
    None
}

/// The crates reached from `start` by following normal dependencies,
/// `start` included, each once.
pub fn transitive_closure(graph: &[(String, PackageInfo)], start: &str) -> (r: Vec<String>)
    ensures
        strings_view(r@).no_duplicates(),
        forall|n: Seq<char>| strings_view(r@).contains(n) <==> reachable(graph_view(graph@), start@, n),
{
    let ghost g = graph_view(graph@);
    let ghost s = start@;
    let ghost u = (seq![s] + all_deps(g)).to_set();
    let mut closure: Vec<Vec<char>> = Vec::new();
    let mut stack: Vec<Vec<char>> = Vec::new();
    stack.push(to_chars(start));
    proof {
        assert(is_path(g, s, seq![s]));
        assert(views(stack@) =~= seq![s]);
        assert((seq![s] + all_deps(g))[0] == s);
    }
    while stack.len() > 0
        invariant
            g == graph_view(graph@),
            s == start@,
            u == (seq![s] + all_deps(g)).to_set(),
            views(closure@).no_duplicates(),
            forall|x: Seq<char>| #[trigger] views(closure@).contains(x) ==> reachable(g, s, x) && u.contains(x),
            forall|x: Seq<char>| #[trigger] views(stack@).contains(x) ==> reachable(g, s, x) && u.contains(x),
            views(closure@).contains(s) || views(stack@).contains(s),
            forall|x: Seq<char>, d: Seq<char>| views(closure@).contains(x) && #[trigger] edge(g, x, d) ==> views(closure@).contains(d) || views(stack@).contains(d),
        decreases u.len() - views(closure@).to_set().len(), stack@.len(),
    {
        proof {
            vstd::seq_lib::seq_to_set_is_finite(seq![s] + all_deps(g));
            assert(views(closure@).to_set().subset_of(u));
            vstd::set_lib::lemma_len_subset(views(closure@).to_set(), u);
        }
        let ghost c0 = views(closure@);
        let ghost s0 = views(stack@);
        let node = stack.pop().unwrap();
        proof {
            assert(s0 =~= views(stack@).push(node@));
            assert(s0.contains(node@)) by {
                assert(s0[s0.len() - 1] == node@);
            }
            assert(reachable(g, s, node@) && u.contains(node@));
            assert forall|x: Seq<char>| #[trigger] views(stack@).contains(x) implies s0.contains(x) by {
                let k = choose|k: int| 0 <= k < views(stack@).len() && views(stack@)[k] == x;
                assert(s0[k] == x);
            }
        }
        if vec_contains(&closure, &node) {
            assert forall|x: Seq<char>, d: Seq<char>| views(closure@).contains(x) && #[trigger] edge(g, x, d) implies views(closure@).contains(d) || views(stack@).contains(d) by {
                if s0.contains(d) && !views(closure@).contains(d) {
                    let k = choose|k: int| 0 <= k < s0.len() && s0[k] == d;
                    if k < s0.len() - 1 {
                        assert(views(stack@)[k] == d);
                    }
                }
            }
            continue;
        }
        let ghost nv = node@;
        assert(reachable(g, s, nv) && u.contains(nv));
        assert(!c0.contains(nv));
        closure.push(node);
        proof {
            assert(views(closure@) =~= c0.push(nv));
            assert(c0.push(nv).no_duplicates()) by {
                assert forall|i: int, j: int| 0 <= i < j < c0.push(nv).len() implies c0.push(nv)[i] != c0.push(nv)[j] by {
                    if j == c0.len() as int {
                        assert(c0[i] == c0.push(nv)[i]);
                    }
                }
            }
            assert forall|x: Seq<char>| views(closure@).to_set().contains(x) == c0.to_set().insert(nv).contains(x) by {
                if views(closure@).contains(x) && x != nv {
                    let q = choose|q: int| 0 <= q < views(closure@).len() && views(closure@)[q] == x;
                    assert(c0[q] == x);
                }
                if c0.contains(x) {
                    let q = choose|q: int| 0 <= q < c0.len() && c0[q] == x;
                    assert(views(closure@)[q] == x);
                }
                if x == nv {
                    assert(views(closure@)[c0.len() as int] == nv);
                }
            }
            assert(views(closure@).to_set() =~= c0.to_set().insert(nv));
            c0.unique_seq_to_set();
            views(closure@).unique_seq_to_set();
        }
        let ghost c1 = views(closure@);
        let ghost s1 = views(stack@);
        match node_deps(graph, &nv_chars(&closure)) {
            Some(ds) => {
                let ghost dv = strings_view(ds@);
                let mut j: usize = 0;
                while j < ds.len()
                    invariant
                        j <= ds@.len(),
                        dv == strings_view(ds@),
                        g == graph_view(graph@),
                        s == start@,
                        u == (seq![s] + all_deps(g)).to_set(),
                        c1 == views(closure@),
                        node_info(g, nv) matches Some(i) && i.deps == dv,
                        reachable(g, s, nv),
                        forall|x: Seq<char>| #[trigger] views(stack@).contains(x) ==> s1.contains(x) || (reachable(g, s, x) && u.contains(x)),
                        forall|x: Seq<char>| s1.contains(x) ==> #[trigger] views(stack@).contains(x),
                        forall|t: int| 0 <= t < j ==> c1.contains(#[trigger] dv[t]) || views(stack@).contains(dv[t]),
                    decreases ds@.len() - j,
                {
                    let d = to_chars(ds[j].as_str());
                    assert(dv[j as int] == d@);
                    if !vec_contains(&closure, &d) {
                        let ghost sp = views(stack@);
                        stack.push(d);
                        proof {
                            assert(views(stack@) =~= sp.push(dv[j as int]));
                            assert(edge(g, nv, dv[j as int])) by {
                                assert(dv.contains(dv[j as int]));
                            }
                            lemma_reach_step(g, s, nv, dv[j as int]);
                            lemma_edge_in_all_deps(g, nv, dv[j as int]);
                            let ad = all_deps(g);
                            let k = choose|k: int| 0 <= k < ad.len() && ad[k] == dv[j as int];
                            assert((seq![s] + ad)[k + 1] == dv[j as int]);
                            assert((seq![s] + ad).contains(dv[j as int]));
                            assert(u.contains(dv[j as int]));
                            assert forall|x: Seq<char>| #[trigger] views(stack@).contains(x) implies s1.contains(x) || (reachable(g, s, x) && u.contains(x)) by {
                                let q = choose|q: int| 0 <= q < views(stack@).len() && views(stack@)[q] == x;
                                if q < sp.len() {
                                    assert(sp[q] == x);
                                    assert(sp.contains(x));
                                }
                            }
                            assert forall|x: Seq<char>| s1.contains(x) implies #[trigger] views(stack@).contains(x) by {
                                assert(sp.contains(x));
                                let q = choose|q: int| 0 <= q < sp.len() && sp[q] == x;
                                assert(views(stack@)[q] == x);
                            }
                            assert forall|t: int| 0 <= t < j + 1 implies c1.contains(#[trigger] dv[t]) || views(stack@).contains(dv[t]) by {
                                if t < j {
                                    if sp.contains(dv[t]) {
                                        let q = choose|q: int| 0 <= q < sp.len() && sp[q] == dv[t];
                                        assert(views(stack@)[q] == dv[t]);
                                    }
                                } else {
                                    assert(views(stack@)[sp.len() as int] == dv[t]);
                                }
                            }
                        }
                    }
                    j = j + 1;
                }
                proof {
                    assert forall|x: Seq<char>, e: Seq<char>| views(closure@).contains(x) && #[trigger] edge(g, x, e) implies views(closure@).contains(e) || views(stack@).contains(e) by {
                        if x == nv {
                            let t = choose|t: int| 0 <= t < dv.len() && dv[t] == e;
                            assert(c1.contains(dv[t]) || views(stack@).contains(dv[t]));
                        } else {
                            assert(c0.contains(x)) by {
                                let q = choose|q: int| 0 <= q < c1.len() && c1[q] == x;
                                assert(c0[q] == x);
                            }
                            if e == nv {
                                assert(c1[c0.len() as int] == nv);
                            } else if c0.contains(e) {
                                let q = choose|q: int| 0 <= q < c0.len() && c0[q] == e;
                                assert(c1[q] == e);
                            } else {
                                assert(s0.contains(e));
                                let q = choose|q: int| 0 <= q < s0.len() && s0[q] == e;
                                assert(q < s0.len() - 1);
                                assert(s1[q] == e);
                            }
                        }
                    }
                }
            },
            None => {
                proof {
                    assert forall|x: Seq<char>, e: Seq<char>| views(closure@).contains(x) && #[trigger] edge(g, x, e) implies views(closure@).contains(e) || views(stack@).contains(e) by {
                        if x == nv {
                        } else {
                            assert(c0.contains(x)) by {
                                let q = choose|q: int| 0 <= q < c1.len() && c1[q] == x;
                                assert(c0[q] == x);
                            }
                            if e == nv {
                                assert(c1[c0.len() as int] == nv);
                            } else if c0.contains(e) {
                                let q = choose|q: int| 0 <= q < c0.len() && c0[q] == e;
                                assert(c1[q] == e);
                            } else {
                                assert(s0.contains(e));
                                let q = choose|q: int| 0 <= q < s0.len() && s0[q] == e;
                                assert(q < s0.len() - 1);
                                assert(s1[q] == e);
                            }
                        }
                    }
                }
            },
        }
        proof {
            assert forall|x: Seq<char>| #[trigger] views(closure@).contains(x) implies reachable(g, s, x) && u.contains(x) by {
                if x != nv {
                    let q = choose|q: int| 0 <= q < c1.len() && c1[q] == x;
                    assert(c0[q] == x);
                    assert(c0.contains(x));
                } else {
                    assert(reachable(g, s, nv) && u.contains(nv));
                }
            }
            vstd::seq_lib::seq_to_set_is_finite(seq![s] + all_deps(g));
            vstd::seq_lib::seq_to_set_is_finite(c0);
            assert(views(closure@).to_set().subset_of(u));
            vstd::set_lib::lemma_len_subset(views(closure@).to_set(), u);
            assert(!c0.to_set().contains(nv));
            assert(views(closure@).to_set().len() == c0.to_set().len() + 1);
            if !views(closure@).contains(s) {
                assert(!c0.contains(s)) by {
                    if c0.contains(s) {
                        let q = choose|q: int| 0 <= q < c0.len() && c0[q] == s;
                        assert(c1[q] == s);
                    }
                }
                assert(s0.contains(s));
                let q = choose|q: int| 0 <= q < s0.len() && s0[q] == s;
                if q == s0.len() - 1 {
                    assert(c1[c0.len() as int] == s);
                } else {
                    assert(s1[q] == s);
                }
            }
        }
    }
    proof {
        assert(views(stack@) =~= Seq::<Seq<char>>::empty());
        assert forall|n: Seq<char>| reachable(g, s, n) implies views(closure@).contains(n) by {
            lemma_closed_holds_reachable(g, s, views(closure@), n);
        }
    }
    let mut out: Vec<String> = Vec::new();
    let mut i: usize = 0;
    while i < closure.len()
        invariant
            i <= closure@.len(),
            strings_view(out@) == views(closure@).take(i as int),
        decreases closure@.len() - i,
    {
        let ghost prev = out@;
        out.push(crate::text::from_chars(&closure[i]));
        assert(strings_view(out@) =~= strings_view(prev).push(views(closure@)[i as int]));
        assert(views(closure@).take(i + 1) =~= views(closure@).take(i as int).push(
            views(closure@)[i as int],
        ));
        i = i + 1;
    }
    assert(views(closure@).take(closure@.len() as int) =~= views(closure@));
    out
}

fn nv_chars(closure: &Vec<Vec<char>>) -> (r: Vec<char>)
    requires
        closure@.len() > 0,
    ensures
        r@ == closure@[closure@.len() - 1]@,
{
    let last = &closure[closure.len() - 1];
    crate::text::slice_vec(last, 0, last.len())
}

// ---------------------------------------------------------------------------
// The core cluster
// ---------------------------------------------------------------------------

/// A crate that may be folded into core beyond its closure: the utils
/// crates, and the two crates `codex-oss` needs.
pub open spec fn is_candidate(n: Seq<char>) -> bool {
    starts_with(n, "codex-utils-"@) || n == "codex-lmstudio"@ || n == "codex-ollama"@
}

/// Every `codex-*` name of `deps` is in `m`.
pub open spec fn codex_deps_in(deps: Seq<Seq<char>>, m: Set<Seq<char>>) -> bool {
    forall|i: int| 0 <= i < deps.len() && #[trigger] starts_with(deps[i], "codex-"@) ==> m.contains(deps[i])
}

/// No candidate outside `m` has all its `codex-*` dependencies in `m`.
pub open spec fn closed_under_candidates(g: Seq<(Seq<char>, InfoV)>, m: Set<Seq<char>>) -> bool {
    forall|k: int| 0 <= k < g.len() && is_candidate(g[k].0) && #[trigger] codex_deps_in(g[k].1.deps, m) ==> m.contains(g[k].0)
}

/// The crates reached from `codex-core`.
pub open spec fn core_closure(g: Seq<(Seq<char>, InfoV)>) -> Set<Seq<char>> {
    Set::new(|n: Seq<char>| reachable(g, "codex-core"@, n))
}

/// The merge set: the least set holding core's closure that no further
/// candidate can join.
pub open spec fn is_merge_set(g: Seq<(Seq<char>, InfoV)>, m: Set<Seq<char>>) -> bool {
    &&& core_closure(g).subset_of(m)
    &&& closed_under_candidates(g, m)
    &&& forall|s: Set<Seq<char>>| core_closure(g).subset_of(s) && #[trigger] closed_under_candidates(g, s) ==> m.subset_of(s)
}

/// There is one merge set.
pub proof fn lemma_merge_set_unique(g: Seq<(Seq<char>, InfoV)>, a: Set<Seq<char>>, b: Set<Seq<char>>)
    requires
        is_merge_set(g, a),
        is_merge_set(g, b),
    ensures
        a == b,
{
    assert(a.subset_of(b));
    assert(b.subset_of(a));
    assert(a =~= b);
}

/// Every dependency named in the graph is a package of the graph.
pub open spec fn graph_closed(g: Seq<(Seq<char>, InfoV)>) -> bool {
    forall|k: int, d: Seq<char>| 0 <= k < g.len() && #[trigger] g[k].1.deps.contains(d) ==> (
        #[trigger] node_info(g, d)) is Some
}

pub open spec fn names_of(g: Seq<(Seq<char>, InfoV)>) -> Seq<Seq<char>> {
    g.map_values(|e: (Seq<char>, InfoV)| e.0)
}

fn is_candidate_exec(n: &[char]) -> (r: bool)
    ensures
        r == is_candidate(n@),
{
    crate::text::starts_lit(n, "codex-utils-") || crate::text::eq_lit(n, "codex-lmstudio")
        || crate::text::eq_lit(n, "codex-ollama")
}

fn codex_deps_in_exec(deps: &Vec<String>, m: &Vec<Vec<char>>) -> (r: bool)
    ensures
        r == codex_deps_in(strings_view(deps@), views(m@).to_set()),
{
    let ghost dv = strings_view(deps@);
    let mut i: usize = 0;
    while i < deps.len()
        invariant
            i <= deps@.len(),
            dv == strings_view(deps@),
            forall|t: int| 0 <= t < i && #[trigger] starts_with(dv[t], "codex-"@) ==> views(m@).to_set().contains(dv[t]),
        decreases deps@.len() - i,
    {
        let d = to_chars(deps[i].as_str());
        assert(dv[i as int] == d@);
        if crate::text::starts_lit(&d, "codex-") && !vec_contains(m, &d) {
            assert(!views(m@).to_set().contains(dv[i as int]));
            return false;
        }
        i = i + 1;
    }
    true
}

/// One pass over the graph's entries, adding each candidate outside `m`
/// whose `codex-*` dependencies are all in `m` (as it stands at that point).
fn merge_round(graph: &[(String, PackageInfo)], m: &mut Vec<Vec<char>>, Ghost(u): Ghost<Set<Seq<char>>>) -> (added: bool)
    requires
        views(old(m)@).no_duplicates(),
        views(old(m)@).to_set().subset_of(u),
        names_of(graph_view(graph@)).to_set().subset_of(u),
        core_closure(graph_view(graph@)).subset_of(views(old(m)@).to_set()),
        forall|s: Set<Seq<char>>| core_closure(graph_view(graph@)).subset_of(s) && #[trigger] closed_under_candidates(graph_view(graph@), s) ==> views(old(m)@).to_set().subset_of(s),
    ensures
        views(final(m)@).no_duplicates(),
        views(final(m)@).to_set().subset_of(u),
        core_closure(graph_view(graph@)).subset_of(views(final(m)@).to_set()),
        forall|s: Set<Seq<char>>| core_closure(graph_view(graph@)).subset_of(s) && #[trigger] closed_under_candidates(graph_view(graph@), s) ==> views(final(m)@).to_set().subset_of(s),
        added ==> views(final(m)@).len() > views(old(m)@).len(),
        !added ==> views(final(m)@) == views(old(m)@),
        !added ==> closed_under_candidates(graph_view(graph@), views(final(m)@).to_set()),
{
    let ghost g = graph_view(graph@);
    let ghost m0 = views(m@);
    let mut added = false;
    let mut k: usize = 0;
    while k < graph.len()
        invariant
            k <= graph@.len(),
            g == graph_view(graph@),
            g.len() == graph@.len(),
            m0 == views(old(m)@),
            views(m@).no_duplicates(),
            views(m@).to_set().subset_of(u),
            names_of(g).to_set().subset_of(u),
            core_closure(g).subset_of(views(m@).to_set()),
            forall|s: Set<Seq<char>>| core_closure(g).subset_of(s) && #[trigger] closed_under_candidates(g, s) ==> views(m@).to_set().subset_of(s),
            added ==> views(m@).len() > m0.len(),
            !added ==> views(m@) == m0,
            !added ==> forall|t: int| 0 <= t < k && is_candidate(g[t].0) && #[trigger] codex_deps_in(g[t].1.deps, views(m@).to_set()) ==> views(m@).to_set().contains(g[t].0),
        decreases graph@.len() - k,
    {
        let name = to_chars(graph[k].0.as_str());
        assert(g[k as int] == (graph@[k as int].0@, info_view(graph@[k as int].1)));
        if !vec_contains(m, &name) && is_candidate_exec(&name) && codex_deps_in_exec(&graph[k].1.deps, m) {
            let ghost mv = views(m@);
            m.push(name);
            proof {
                let nv = g[k as int].0;
                assert(views(m@) =~= mv.push(nv));
                assert(mv.push(nv).no_duplicates()) by {
                    assert forall|i: int, j: int| 0 <= i < j < mv.push(nv).len() implies mv.push(nv)[i] != mv.push(nv)[j] by {
                        if j == mv.len() as int {
                            assert(mv.contains(mv[i]));
                        }
                    }
                }
                assert(views(m@).to_set() =~= mv.to_set().insert(nv)) by {
                    assert forall|x: Seq<char>| views(m@).to_set().contains(x) == mv.to_set().insert(nv).contains(x) by {
                        if views(m@).contains(x) && x != nv {
                            let q = choose|q: int| 0 <= q < views(m@).len() && views(m@)[q] == x;
                            assert(mv[q] == x);
                        }
                        if mv.contains(x) {
                            let q = choose|q: int| 0 <= q < mv.len() && mv[q] == x;
                            assert(views(m@)[q] == x);
                        }
                        if x == nv {
                            assert(views(m@)[mv.len() as int] == nv);
                        }
                    }
                }
                assert(names_of(g)[k as int] == nv);
                assert(names_of(g).to_set().contains(nv));
                assert forall|s: Set<Seq<char>>| core_closure(g).subset_of(s) && #[trigger] closed_under_candidates(g, s) implies views(m@).to_set().subset_of(s) by {
                    assert(mv.to_set().subset_of(s));
                    let deps = g[k as int].1.deps;
                    assert(codex_deps_in(deps, s)) by {
                        assert forall|i: int| 0 <= i < deps.len() && #[trigger] starts_with(deps[i], "codex-"@) implies s.contains(deps[i]) by {
                            assert(mv.to_set().contains(deps[i]));
                        }
                    }
                    assert(s.contains(nv));
                }
            }
            added = true;
        }
        k = k + 1;
    }
    proof {
        if !added {
            assert forall|t: int| 0 <= t < g.len() && is_candidate(g[t].0) && #[trigger] codex_deps_in(g[t].1.deps, views(m@).to_set()) implies views(m@).to_set().contains(g[t].0) by {
            }
        }
    }
    added
}

/// The merge set (see [`is_merge_set`]), each crate once: core's closure,
/// grown pass by pass until no candidate joins.
fn compute_merge_set(graph: &[(String, PackageInfo)]) -> (m: Vec<Vec<char>>)
    ensures
        views(m@).no_duplicates(),
        is_merge_set(graph_view(graph@), views(m@).to_set()),
{
    let ghost g = graph_view(graph@);
    let closure = transitive_closure(graph, "codex-core");
    let mut m: Vec<Vec<char>> = Vec::new();
    let mut i: usize = 0;
    while i < closure.len()
        invariant
            i <= closure@.len(),
            views(m@) == strings_view(closure@).take(i as int),
        decreases closure@.len() - i,
    {
        let ghost prev = views(m@);
        m.push(to_chars(closure[i].as_str()));
        assert(views(m@) =~= prev.push(strings_view(closure@)[i as int]));
        assert(strings_view(closure@).take(i + 1) =~= strings_view(closure@).take(i as int).push(
            strings_view(closure@)[i as int],
        ));
        i = i + 1;
    }
    assert(strings_view(closure@).take(closure@.len() as int) =~= strings_view(closure@));
    let ghost u = (views(m@) + names_of(g)).to_set();
    proof {
        assert(views(m@).to_set() =~= core_closure(g));
        assert forall|x: Seq<char>| views(m@).to_set().contains(x) implies u.contains(x) by {
            let q = choose|q: int| 0 <= q < views(m@).len() && views(m@)[q] == x;
            assert((views(m@) + names_of(g))[q] == x);
        }
        assert forall|x: Seq<char>| names_of(g).to_set().contains(x) implies u.contains(x) by {
            let q = choose|q: int| 0 <= q < names_of(g).len() && names_of(g)[q] == x;
            assert((views(m@) + names_of(g))[views(m@).len() + q] == x);
        }
        vstd::seq_lib::seq_to_set_is_finite(views(m@) + names_of(g));
    }
    let mut changed = true;
    while changed
        invariant
            g == graph_view(graph@),
            u.finite(),
            views(m@).no_duplicates(),
            views(m@).to_set().subset_of(u),
            names_of(g).to_set().subset_of(u),
            core_closure(g).subset_of(views(m@).to_set()),
            forall|s: Set<Seq<char>>| core_closure(g).subset_of(s) && #[trigger] closed_under_candidates(g, s) ==> views(m@).to_set().subset_of(s),
            !changed ==> closed_under_candidates(g, views(m@).to_set()),
        decreases if changed {
            u.len() - views(m@).len() + 1
        } else {
            0
        },
    {
        proof {
            views(m@).unique_seq_to_set();
            vstd::set_lib::lemma_len_subset(views(m@).to_set(), u);
        }
        let ghost before = views(m@).len();
        changed = merge_round(graph, &mut m, Ghost(u));
        proof {
            views(m@).unique_seq_to_set();
            vstd::set_lib::lemma_len_subset(views(m@).to_set(), u);
        }
    }
    m
}

/// Lexicographic order of texts by character code (the order of their
/// UTF-8 bytes).
pub open spec fn text_lt(a: Seq<char>, b: Seq<char>) -> bool
    decreases a.len(),
{
    if a.len() == 0 {
        b.len() > 0
    } else if b.len() == 0 {
        false
    } else if a[0] != b[0] {
        a[0] < b[0]
    } else {
        text_lt(a.drop_first(), b.drop_first())
    }
}

pub open spec fn text_le(a: Seq<char>, b: Seq<char>) -> bool {
    a == b || text_lt(a, b)
}

pub proof fn lemma_text_lt_total(a: Seq<char>, b: Seq<char>)
    ensures
        a != b ==> text_lt(a, b) || text_lt(b, a),
        !(text_lt(a, b) && text_lt(b, a)),
        !text_lt(a, a),
    decreases a.len(),
{
    if a.len() > 0 && b.len() > 0 && a[0] == b[0] {
        lemma_text_lt_total(a.drop_first(), b.drop_first());
        if a != b {
            assert(a.drop_first() != b.drop_first()) by {
                if a.drop_first() == b.drop_first() {
                    assert(a =~= seq![a[0]] + a.drop_first());
                    assert(b =~= seq![b[0]] + b.drop_first());
                }
            }
        }
    }
    if a.len() > 0 {
        lemma_text_lt_total(a.drop_first(), a.drop_first());
    }
    if a.len() == 0 && b.len() == 0 {
        assert(a =~= b);
    }
}

pub proof fn lemma_text_lt_trans(a: Seq<char>, b: Seq<char>, c: Seq<char>)
    requires
        text_lt(a, b),
        text_lt(b, c),
    ensures
        text_lt(a, c),
    decreases a.len(),
{
    if a.len() > 0 && b.len() > 0 && c.len() > 0 && a[0] == b[0] && b[0] == c[0] {
        lemma_text_lt_trans(a.drop_first(), b.drop_first(), c.drop_first());
    }
}

pub fn text_lt_exec(a: &[char], b: &[char]) -> (r: bool)
    ensures
        r == text_lt(a@, b@),
{
    let mut i: usize = 0;
    assert(a@.skip(0) =~= a@);
    assert(b@.skip(0) =~= b@);
    while i < a.len() && i < b.len() && a[i] == b[i]
        invariant
            i <= a@.len(),
            i <= b@.len(),
            text_lt(a@.skip(i as int), b@.skip(i as int)) == text_lt(a@, b@),
        decreases a@.len() - i,
    {
        assert(a@.skip(i as int).drop_first() =~= a@.skip(i + 1));
        assert(b@.skip(i as int).drop_first() =~= b@.skip(i + 1));
        i = i + 1;
    }
    if i == a.len() {
        i < b.len()
    } else if i == b.len() {
        false
    } else {
        a[i] < b[i]
    }
}

/// Sorted by directory, ties kept in the order they came.
pub open spec fn sorted_by_dir(l: Seq<(Seq<char>, Seq<char>, Seq<char>)>) -> bool {
    forall|i: int, j: int| 0 <= i < j < l.len() ==> text_le(#[trigger] l[i].0, #[trigger] l[j].0)
}

/// Inserts `e` after the entries whose directory does not sort after its own.
fn insert_by_dir(out: &mut Vec<crate::cluster::SubCrate>, e: crate::cluster::SubCrate)
    requires
        sorted_by_dir(crate::cluster::members_view(old(out)@)),
    ensures
        sorted_by_dir(crate::cluster::members_view(final(out)@)),
        crate::cluster::members_view(final(out)@).to_multiset() == crate::cluster::members_view(old(out)@).to_multiset().insert(crate::cluster::sub_view(e)),
{
    let ghost ov = crate::cluster::members_view(out@);
    let ghost ev = crate::cluster::sub_view(e);
    let ed = to_chars(e.dir.as_str());
    let mut p: usize = 0;
    while p < out.len() && !text_lt_exec(&ed, &to_chars(out[p].dir.as_str()))
        invariant
            p <= out@.len(),
            ov == crate::cluster::members_view(out@),
            ed@ == ev.0,
            forall|t: int| 0 <= t < p ==> !text_lt(ev.0, #[trigger] ov[t].0),
        decreases out@.len() - p,
    {
        p = p + 1;
    }
    out.insert(p, e);
    proof {
        let nv = crate::cluster::members_view(out@);
        assert(nv =~= ov.insert(p as int, ev));
        assert forall|i: int, j: int| 0 <= i < j < nv.len() implies text_le(#[trigger] nv[i].0, #[trigger] nv[j].0) by {
            if i < p && j < p {
                assert(nv[i] == ov[i] && nv[j] == ov[j]);
            } else if i < p && j == p {
                lemma_text_lt_total(ev.0, ov[i].0);
            } else if i < p && j > p {
                assert(nv[i] == ov[i] && nv[j] == ov[j - 1]);
            } else if i == p {
                assert(nv[j] == ov[j - 1]);
                if p < ov.len() {
                    assert(text_lt(ev.0, ov[p as int].0));
                    if j - 1 > p {
                        assert(text_le(ov[p as int].0, ov[j - 1].0));
                        if ov[p as int].0 != ov[j - 1].0 {
                            lemma_text_lt_trans(ev.0, ov[p as int].0, ov[j - 1].0);
                        }
                    }
                }
            } else {
                assert(nv[i] == ov[i - 1] && nv[j] == ov[j - 1]);
            }
        }
        vstd::seq_lib::to_multiset_insert(ov, p as int, ev);
    }
}

/// The graph as `cargo metadata` gives it: every dependency is a `codex-*`
/// name and a package of the graph.
pub open spec fn graph_well_formed(g: Seq<(Seq<char>, InfoV)>) -> bool {
    forall|k: int, d: Seq<char>| 0 <= k < g.len() && #[trigger] g[k].1.deps.contains(d) ==> starts_with(
        d,
        "codex-"@,
    ) && node_info(g, d) is Some
}

pub open spec fn is_proc_macro_node(g: Seq<(Seq<char>, InfoV)>, n: Seq<char>) -> bool {
    node_info(g, n) matches Some(i) && i.is_proc_macro
}

/// The sub-crate a merged package becomes: its directory, `codex-X`
/// renamed `lemurclaw-X`, and module `X` with `-` written `_`.
pub open spec fn core_entry(g: Seq<(Seq<char>, InfoV)>, n: Seq<char>) -> (Seq<char>, Seq<char>, Seq<char>) {
    (
        match node_info(g, n) {
            Some(i) => i.dir,
            None => seq![],
        },
        "lemurclaw-"@ + n.skip(6),
        replace_all(n.skip(6), "-"@, "_"@),
    )
}

/// The packages of the merge set that become members: not core itself,
/// and no proc-macro crate (those cannot be folded into another crate).
pub open spec fn core_member_names(g: Seq<(Seq<char>, InfoV)>, m: Set<Seq<char>>) -> Set<Seq<char>> {
    m.filter(|n: Seq<char>| !is_proc_macro_node(g, n) && n != "codex-core"@)
}

fn node_lookup<'a>(graph: &'a [(String, PackageInfo)], name: &[char]) -> (r: Option<&'a PackageInfo>)
    ensures
        r matches Some(i) ==> node_info(graph_view(graph@), name@) == Some(info_view(*i)),
        r is None ==> node_info(graph_view(graph@), name@) is None,
{
    let ghost g = graph_view(graph@);
    let mut k: usize = graph.len();
    assert(g.take(k as int) =~= g);
    while k > 0
        invariant
            k <= graph@.len(),
            g == graph_view(graph@),
            node_info(g.take(k as int), name@) == node_info(g, name@),
        decreases k,
    {
        let ghost gk = g.take(k as int);
        assert(gk.last() == (graph@[k - 1].0@, info_view(graph@[k - 1].1)));
        if seq_eq(&to_chars(graph[k - 1].0.as_str()), name) {
            return Some(&graph[k - 1].1);
        }
        assert(gk.drop_last() =~= g.take(k - 1));
        k = k - 1;
    }
    None
}

fn core_entry_exec(graph: &[(String, PackageInfo)], n: &[char]) -> (r: crate::cluster::SubCrate)
    requires
        n@.len() >= 6,
    ensures
        crate::cluster::sub_view(r) == core_entry(graph_view(graph@), n@),
{
    let dir = match node_lookup(graph, n) {
        Some(i) => i.dir.clone(),
        None => String::new(),
    };
    let rest = crate::text::slice_vec(n, 6, n.len());
    let mut package = to_chars("lemurclaw-");
    crate::text::extend(&mut package, &rest);
    proof {
        reveal_strlit("-");
    }
    let module = crate::text::replace_vec(&rest, &to_chars("-"), &to_chars("_"));
    crate::cluster::SubCrate {
        dir,
        package: crate::text::from_chars(&package),
        module: crate::text::from_chars(&module),
    }
}

/// Names reached from `codex-core`, and candidates, start with `codex-`
/// when the graph is well formed; so do all names of the merge set.
proof fn lemma_merge_set_prefixed(g: Seq<(Seq<char>, InfoV)>, m: Set<Seq<char>>)
    requires
        graph_well_formed(g),
        is_merge_set(g, m),
    ensures
        forall|n: Seq<char>| #[trigger] m.contains(n) ==> starts_with(n, "codex-"@),
{
    reveal_strlit("codex-");
    reveal_strlit("codex-core");
    reveal_strlit("codex-utils-");
    reveal_strlit("codex-lmstudio");
    reveal_strlit("codex-ollama");
    let s = Set::new(|n: Seq<char>| starts_with(n, "codex-"@));
    assert forall|n: Seq<char>| core_closure(g).contains(n) implies s.contains(n) by {
        let p = choose|p: Seq<Seq<char>>| #[trigger] is_path(g, "codex-core"@, p) && p.last() == n;
        if p.len() == 1 {
            assert(n == "codex-core"@);
            assert(n.subrange(0, 6) =~= "codex-"@);
        } else {
            let k = p.len() - 2;
            assert(edge(g, p[k], p[k + 1]));
            let i = node_info(g, p[k])->Some_0;
            lemma_node_info_entry(g, p[k]);
            let e = choose|e: int| 0 <= e < g.len() && g[e].0 == p[k] && g[e].1 == i;
            assert(g[e].1.deps.contains(n));
        }
    }
    assert forall|k: int| 0 <= k < g.len() && is_candidate(g[k].0) && #[trigger] codex_deps_in(g[k].1.deps, s) implies s.contains(g[k].0) by {
        let n = g[k].0;
        if starts_with(n, "codex-utils-"@) {
            assert(n.subrange(0, 6) =~= n.subrange(0, 12).subrange(0, 6));
            assert("codex-utils-"@.subrange(0, 6) =~= "codex-"@);
        } else if n == "codex-lmstudio"@ {
            assert(n.subrange(0, 6) =~= "codex-"@);
        } else {
            assert(n.subrange(0, 6) =~= "codex-"@);
        }
        assert(starts_with(n, "codex-"@));
    }
    assert(closed_under_candidates(g, s));
    assert(core_closure(g).subset_of(s));
    assert(m.subset_of(s));
}

proof fn lemma_node_info_entry(g: Seq<(Seq<char>, InfoV)>, n: Seq<char>)
    requires
        node_info(g, n) is Some,
    ensures
        exists|e: int| 0 <= e < g.len() && g[e].0 == n && g[e].1 == node_info(g, n)->Some_0,
    decreases g.len(),
{
    if g.last().0 == n {
        assert(g[g.len() - 1].0 == n);
    } else {
        lemma_node_info_entry(g.drop_last(), n);
        let e = choose|e: int| 0 <= e < g.drop_last().len() && g.drop_last()[e].0 == n && g.drop_last()[e].1 == node_info(g.drop_last(), n)->Some_0;
        assert(g[e] == g.drop_last()[e]);
    }
}

/// The core cluster computed from the dependency graph: the merge set's
/// members (see [`core_member_names`] and [`core_entry`]), sorted by
/// directory; core itself is the host crate `lemurclaw-core`.
pub fn core_cluster_from_graph(graph: &[(String, PackageInfo)]) -> (r: crate::cluster::Cluster)
    requires
        graph_well_formed(graph_view(graph@)),
    ensures
        r.name@ == "core"@,
        r.source_subdir@ == ""@,
        r.merged_member_path@ == "core"@,
        r.merged_package@ == "lemurclaw-core"@,
        r.merged_lib_ident@ == "lemurclaw_core"@,
        sorted_by_dir(crate::cluster::members_view(r.members@)),
        exists|m: Set<Seq<char>>| #[trigger] is_merge_set(graph_view(graph@), m)
            && crate::cluster::members_view(r.members@).to_set() == core_member_names(graph_view(graph@), m).map(
            |n: Seq<char>| core_entry(graph_view(graph@), n),
        ) && crate::cluster::members_view(r.members@).len() == core_member_names(graph_view(graph@), m).len(),
{
    let ghost g = graph_view(graph@);
    let m = compute_merge_set(graph);
    let ghost ms = views(m@).to_set();
    proof {
        lemma_merge_set_prefixed(g, ms);
        reveal_strlit("codex-");
    }
    let mut out: Vec<crate::cluster::SubCrate> = Vec::new();
    let ghost mut names: Seq<Seq<char>> = seq![];
    let ghost mut src: Seq<(Seq<char>, Seq<char>, Seq<char>)> = seq![];
    let mut i: usize = 0;
    assert(crate::cluster::members_view(out@) =~= src);
    while i < m.len()
        invariant
            i <= m@.len(),
            g == graph_view(graph@),
            ms == views(m@).to_set(),
            views(m@).no_duplicates(),
            is_merge_set(g, ms),
            forall|n: Seq<char>| #[trigger] ms.contains(n) ==> starts_with(n, "codex-"@),
            "codex-"@.len() == 6,
            sorted_by_dir(crate::cluster::members_view(out@)),
            crate::cluster::members_view(out@).to_multiset() == src.to_multiset(),
            src == names.map_values(|n: Seq<char>| core_entry(g, n)),
            names.no_duplicates(),
            forall|n: Seq<char>| names.contains(n) <==> views(m@).take(i as int).contains(n)
                && !is_proc_macro_node(g, n) && n != "codex-core"@,
        decreases m@.len() - i,
    {
        let n = &m[i];
        let ghost nv = n@;
        assert(views(m@)[i as int] == nv);
        assert(ms.contains(nv));
        let pm = match node_lookup(graph, n) {
            Some(info) => info.is_proc_macro,
            None => false,
        };
        let is_core = crate::text::eq_lit(n, "codex-core");
        let ghost old_names = names;
        if !pm && !is_core {
            let e = core_entry_exec(graph, n);
            insert_by_dir(&mut out, e);
            proof {
                vstd::seq_lib::to_multiset_build(src, core_entry(g, nv));
                src = src.push(core_entry(g, nv));
                assert(!old_names.contains(nv)) by {
                    if old_names.contains(nv) {
                        assert(views(m@).take(i as int).contains(nv));
                        let q = choose|q: int| 0 <= q < i && #[trigger] views(m@).take(i as int)[q] == nv;
                        assert(views(m@)[q] == views(m@)[i as int]);
                    }
                }
                names = names.push(nv);
                assert(src =~= names.map_values(|n: Seq<char>| core_entry(g, n)));
            }
        }
        proof {
            assert forall|x: Seq<char>| names.contains(x) <==> views(m@).take(i + 1).contains(x)
                && !is_proc_macro_node(g, x) && x != "codex-core"@ by {
                if views(m@).take(i + 1).contains(x) && x != nv {
                    let q = choose|q: int| 0 <= q < i + 1 && #[trigger] views(m@).take(i + 1)[q] == x;
                    assert(views(m@).take(i as int)[q] == x);
                }
                if views(m@).take(i as int).contains(x) {
                    let q = choose|q: int| 0 <= q < i && #[trigger] views(m@).take(i as int)[q] == x;
                    assert(views(m@).take(i + 1)[q] == x);
                }
                if x == nv {
                    assert(views(m@).take(i + 1)[i as int] == nv);
                }
                if names.contains(x) && x != nv {
                    assert(old_names.contains(x)) by {
                        let q = choose|q: int| 0 <= q < names.len() && names[q] == x;
                        assert(old_names[q] == x);
                    }
                }
                if old_names.contains(x) {
                    let q = choose|q: int| 0 <= q < old_names.len() && old_names[q] == x;
                    assert(names[q] == x);
                }
                if x == nv && !pm && !is_core {
                    assert(names[names.len() - 1] == nv);
                }
            }
        }
        i = i + 1;
    }
    proof {
        assert(views(m@).take(m@.len() as int) =~= views(m@));
        let mv = crate::cluster::members_view(out@);
        let cm = core_member_names(g, ms);
        assert(names.to_set() =~= cm);
        names.unique_seq_to_set();
        vstd::seq_lib::to_multiset_len(mv);
        vstd::seq_lib::to_multiset_len(src);
        assert forall|e: (Seq<char>, Seq<char>, Seq<char>)| mv.to_set().contains(e) == cm.map(
            |n: Seq<char>| core_entry(g, n),
        ).contains(e) by {
            vstd::seq_lib::to_multiset_contains(mv, e);
            vstd::seq_lib::to_multiset_contains(src, e);
            if src.contains(e) {
                let q = choose|q: int| 0 <= q < src.len() && src[q] == e;
                assert(names.contains(names[q]));
                assert(cm.contains(names[q]));
            }
            if cm.map(|n: Seq<char>| core_entry(g, n)).contains(e) {
                let n = choose|n: Seq<char>| cm.contains(n) && core_entry(g, n) == e;
                assert(names.contains(n));
                let q = choose|q: int| 0 <= q < names.len() && names[q] == n;
                assert(src[q] == e);
            }
        }
        assert(mv.to_set() =~= cm.map(|n: Seq<char>| core_entry(g, n)));
        assert(is_merge_set(g, ms));
    }
    crate::cluster::Cluster {
        name: "core",
        source_subdir: "",
        merged_member_path: "core",
        merged_package: "lemurclaw-core",
        merged_lib_ident: "lemurclaw_core",
        members: out,
    }
}

// ---------------------------------------------------------------------------
// Reading the graph from `cargo metadata`
// ---------------------------------------------------------------------------

pub open spec fn or_empty(o: Option<Seq<char>>) -> Seq<char> {
    match o {
        Some(s) => s,
        None => seq![],
    }
}

/// The `codex-*` names of the normal dependencies (those without a
/// `kind`).
pub open spec fn dep_names(deps: Seq<JsonV>) -> Seq<Seq<char>>
    decreases deps.len(),
{
    if deps.len() == 0 {
        seq![]
    } else {
        let r = dep_names(deps.drop_last());
        let d = deps.last();
        if ostr(vget(d, "kind"@)) is Some {
            r
        } else {
            let nm = or_empty(ostr(vget(d, "name"@)));
            if starts_with(nm, "codex-"@) {
                r.push(nm)
            } else {
                r
            }
        }
    }
}

pub open spec fn pkg_deps(pkg: JsonV) -> Seq<Seq<char>> {
    match vget(pkg, "dependencies"@) {
        Some(JsonV::Array(a)) => dep_names(a),
        _ => seq![],
    }
}

/// The package's directory: its manifest path relative to `root/`, without
/// `/Cargo.toml` (or `Cargo.toml`) and trailing slashes; empty when the
/// path is elsewhere.
pub open spec fn pkg_dir(pkg: JsonV, root: Seq<char>) -> Seq<char> {
    let mp = or_empty(ostr(vget(pkg, "manifest_path"@)));
    let pre = root + "/"@;
    let rel = mp.skip(pre.len() as int);
    let d = if starts_with(mp, pre) {
        if ends_with(rel, "/Cargo.toml"@) {
            rel.take(rel.len() - 11)
        } else if ends_with(rel, "Cargo.toml"@) {
            rel.take(rel.len() - 10)
        } else {
            seq![]
        }
    } else {
        seq![]
    };
    trim_end_char(d, '/')
}

pub open spec fn any_proc_macro_kind(kinds: Seq<JsonV>) -> bool
    decreases kinds.len(),
{
    kinds.len() > 0 && (vstr(kinds.last()) == Some("proc-macro"@) || any_proc_macro_kind(
        kinds.drop_last(),
    ))
}

pub open spec fn any_proc_macro_target(ts: Seq<JsonV>) -> bool
    decreases ts.len(),
{
    ts.len() > 0 && ((match vget(ts.last(), "kind"@) {
        Some(JsonV::Array(ks)) => any_proc_macro_kind(ks),
        _ => false,
    }) || any_proc_macro_target(ts.drop_last()))
}

/// Some target of the package is a proc-macro target.
pub open spec fn pkg_proc_macro(pkg: JsonV) -> bool {
    match vget(pkg, "targets"@) {
        Some(JsonV::Array(ts)) => any_proc_macro_target(ts),
        _ => false,
    }
}

/// The graph with `n` set to `i` (`HashMap::insert`: an entry of the same
/// name is replaced, otherwise one is added).
pub open spec fn graph_insert(g: Seq<(Seq<char>, InfoV)>, n: Seq<char>, i: InfoV) -> Seq<(Seq<char>, InfoV)>
    decreases g.len(),
{
    if g.len() == 0 {
        seq![(n, i)]
    } else if g[0].0 == n {
        g.update(0, (n, i))
    } else {
        seq![g[0]] + graph_insert(g.drop_first(), n, i)
    }
}

/// The graph of the listed packages; packages without a name are skipped.
pub open spec fn graph_of(pkgs: Seq<JsonV>, root: Seq<char>) -> Seq<(Seq<char>, InfoV)>
    decreases pkgs.len(),
{
    if pkgs.len() == 0 {
        seq![]
    } else {
        let g = graph_of(pkgs.drop_last(), root);
        let p = pkgs.last();
        let name = or_empty(ostr(vget(p, "name"@)));
        if name.len() == 0 {
            g
        } else {
            graph_insert(
                g,
                name,
                InfoV { deps: pkg_deps(p), dir: pkg_dir(p, root), is_proc_macro: pkg_proc_macro(p) },
            )
        }
    }
}

/// Why the metadata could not be read as a graph.
#[derive(Debug, Clone, Copy, PartialEq, Eq, Structural)]
pub enum GraphError {
    /// The text is not one JSON document.
    Json,
    /// There is no `packages` array.
    PackagesMissing,
}

fn or_empty_str(o: Option<&str>) -> (r: Vec<char>)
    ensures
        r@ == or_empty(match o {
            Some(s) => Some(s@),
            None => None,
        }),
{
    match o {
        Some(s) => to_chars(s),
        None => Vec::new(),
    }
}

fn dep_names_exec(deps: &Vec<Json>) -> (r: Vec<String>)
    ensures
        strings_view(r@) == dep_names(jviews(deps@)),
{
    let ghost dv = jviews(deps@);
    proof {
        lemma_jviews(deps@);
    }
    let mut out: Vec<String> = Vec::new();
    let mut i: usize = 0;
    assert(dv.take(0) =~= Seq::<JsonV>::empty());
    while i < deps.len()
        invariant
            i <= deps@.len(),
            dv == jviews(deps@),
            dv.len() == deps@.len(),
            forall|t: int| 0 <= t < deps@.len() ==> #[trigger] dv[t] == deps@[t]@,
            strings_view(out@) == dep_names(dv.take(i as int)),
        decreases deps@.len() - i,
    {
        assert(dv.take(i + 1).drop_last() =~= dv.take(i as int));
        assert(dv.take(i + 1).last() == deps@[i as int]@);
        let d = &deps[i];
        if get_str(d, "kind").is_none() {
            let nm = or_empty_str(get_str(d, "name"));
            if crate::text::starts_lit(&nm, "codex-") {
                let ghost prev = out@;
                out.push(crate::text::from_chars(&nm));
                assert(strings_view(out@) =~= strings_view(prev).push(nm@));
            }
        }
        i = i + 1;
    }
    assert(dv.take(deps@.len() as int) =~= dv);
    out
}

fn pkg_dir_exec(pkg: &Json, root: &str) -> (r: Vec<char>)
    ensures
        r@ == pkg_dir(pkg@, root@),
{
    proof {
        reveal_strlit("/Cargo.toml");
        reveal_strlit("Cargo.toml");
    }
    let mp = or_empty_str(get_str(pkg, "manifest_path"));
    let mut pre = to_chars(root);
    crate::text::extend_lit(&mut pre, "/");
    let d: Vec<char> = if crate::text::has_prefix(&mp, &pre) {
        let rel = crate::text::slice_vec(&mp, pre.len(), mp.len());
        assert(rel@ =~= mp@.skip(pre@.len() as int));
        if crate::text::has_suffix(&rel, &to_chars("/Cargo.toml")) {
            crate::text::slice_vec(&rel, 0, rel.len() - 11)
        } else if crate::text::has_suffix(&rel, &to_chars("Cargo.toml")) {
            crate::text::slice_vec(&rel, 0, rel.len() - 10)
        } else {
            Vec::new()
        }
    } else {
        Vec::new()
    };
    crate::text::trim_end_char_vec(&d, '/')
}

fn any_proc_macro_kind_exec(ks: &Vec<Json>) -> (r: bool)
    ensures
        r == any_proc_macro_kind(jviews(ks@)),
{
    let ghost kv = jviews(ks@);
    proof {
        lemma_jviews(ks@);
    }
    let mut found = false;
    let mut i: usize = 0;
    assert(kv.take(0) =~= Seq::<JsonV>::empty());
    while i < ks.len()
        invariant
            i <= ks@.len(),
            kv == jviews(ks@),
            kv.len() == ks@.len(),
            forall|t: int| 0 <= t < ks@.len() ==> #[trigger] kv[t] == ks@[t]@,
            found == any_proc_macro_kind(kv.take(i as int)),
        decreases ks@.len() - i,
    {
        assert(kv.take(i + 1).drop_last() =~= kv.take(i as int));
        assert(kv.take(i + 1).last() == ks@[i as int]@);
        match as_str(&ks[i]) {
            Some(s) => if crate::text::eq_lit(&to_chars(s), "proc-macro") {
                found = true;
            },
            None => {},
        }
        i = i + 1;
    }
    assert(kv.take(ks@.len() as int) =~= kv);
    found
}

fn pkg_proc_macro_exec(pkg: &Json) -> (r: bool)
    ensures
        r == pkg_proc_macro(pkg@),
{
    match get(pkg, "targets") {
        Some(Json::Array(ts)) => {
            let ghost tv = jviews(ts@);
            proof {
                lemma_jviews(ts@);
            }
            let mut found = false;
            let mut i: usize = 0;
            assert(tv.take(0) =~= Seq::<JsonV>::empty());
            while i < ts.len()
                invariant
                    i <= ts@.len(),
                    tv == jviews(ts@),
                    tv.len() == ts@.len(),
                    forall|t: int| 0 <= t < ts@.len() ==> #[trigger] tv[t] == ts@[t]@,
                    found == any_proc_macro_target(tv.take(i as int)),
                decreases ts@.len() - i,
            {
                assert(tv.take(i + 1).drop_last() =~= tv.take(i as int));
                assert(tv.take(i + 1).last() == ts@[i as int]@);
                match get(&ts[i], "kind") {
                    Some(Json::Array(ks)) => if any_proc_macro_kind_exec(ks) {
                        found = true;
                    },
                    _ => {},
                }
                i = i + 1;
            }
            assert(tv.take(ts@.len() as int) =~= tv);
            found
        },
        _ => false,
    }
}

fn graph_insert_exec(g: &mut Vec<(String, PackageInfo)>, n: String, i: PackageInfo)
    ensures
        graph_view(final(g)@) == graph_insert(graph_view(old(g)@), n@, info_view(i)),
{
    let ghost gv = graph_view(g@);
    let ghost iv = info_view(i);
    let ghost nv = n@;
    let nc = to_chars(n.as_str());
    let mut k: usize = 0;
    assert(gv.skip(0) =~= gv);
    assert(gv.take(0) + graph_insert(gv.skip(0), nv, iv) =~= graph_insert(gv, nv, iv));
    while k < g.len()
        invariant
            k <= g@.len(),
            gv == graph_view(g@),
            gv == graph_view(old(g)@),
            nc@ == nv,
            n@ == nv,
            info_view(i) == iv,
            gv.take(k as int) + graph_insert(gv.skip(k as int), nv, iv) == graph_insert(gv, nv, iv),
        decreases g@.len() - k,
    {
        let ghost rest = gv.skip(k as int);
        assert(rest[0] == (g@[k as int].0@, info_view(g@[k as int].1)));
        if seq_eq(&to_chars(g[k].0.as_str()), &nc) {
            let ghost old_g = g@;
            let e = (n, i);
            let ghost ev = e;
            assert((ev.0@, info_view(ev.1)) == (nv, iv));
            g.set(k, e);
            assert(g@[k as int] == ev);
            assert(graph_view(g@) =~= gv.take(k as int) + rest.update(0, (nv, iv))) by {
                assert forall|t: int| 0 <= t < g@.len() implies #[trigger] graph_view(g@)[t] == (gv.take(k as int) + rest.update(0, (nv, iv)))[t] by {
                    if t != k {
                        assert(g@[t] == old_g[t]);
                    }
                }
            }
            return;
        }
        assert(rest.drop_first() =~= gv.skip(k + 1));
        assert(gv.take(k as int) + (seq![rest[0]] + graph_insert(rest.drop_first(), nv, iv)) =~= gv.take(
            k + 1,
        ) + graph_insert(gv.skip(k + 1), nv, iv));
        k = k + 1;
    }
    assert(gv.skip(k as int) =~= Seq::<(Seq<char>, InfoV)>::empty());
    assert(gv.take(k as int) =~= gv);
    let ghost prev = g@;
    g.push((n, i));
    assert(graph_view(g@) =~= gv + seq![(nv, iv)]) by {
        assert forall|t: int| 0 <= t < g@.len() implies #[trigger] graph_view(g@)[t] == (gv + seq![(nv, iv)])[t] by {
            if t < prev.len() {
                assert(g@[t] == prev[t]);
            }
        }
    }
}

/// Reads the text `cargo metadata --format-version=1` prints, with
/// `serde_json`; none when it is not one JSON document.
pub fn parse_metadata(text: &str) -> (r: Option<Json>)
    ensures
        r matches Some(j) ==> crate::json::json_parse(text@) == Some(j@),
        r is None ==> crate::json::json_parse(text@) is None,
{
    crate::json::parse_json(text)
}

/// The dependency graph read from the text of `cargo metadata` output (see
/// [`parse_metadata`] and [`parse_dep_graph`]).
pub fn dep_graph_from_metadata_text(text: &str, codex_root: &str) -> (r: Result<Vec<(String, PackageInfo)>, GraphError>)
    ensures
        r matches Ok(g) ==> crate::json::json_parse(text@) matches Some(m) && vget(m, "packages"@) matches Some(JsonV::Array(p))
            && graph_view(g@) == graph_of(p, codex_root@),
        r == Err::<Vec<(String, PackageInfo)>, GraphError>(GraphError::Json) <==> crate::json::json_parse(text@) is None,
        r == Err::<Vec<(String, PackageInfo)>, GraphError>(GraphError::PackagesMissing) <==> (crate::json::json_parse(text@) matches Some(m)
            && !(vget(m, "packages"@) matches Some(JsonV::Array(_)))),
{
    match parse_metadata(text) {
        None => Err(GraphError::Json),
        Some(m) => parse_dep_graph(&m, codex_root),
    }
}

/// The dependency graph of the packages in `cargo metadata` output for the
/// workspace at `codex_root` (see [`graph_of`]).
pub fn parse_dep_graph(metadata: &Json, codex_root: &str) -> (r: Result<Vec<(String, PackageInfo)>, GraphError>)
    ensures
        r matches Ok(g) ==> vget(metadata@, "packages"@) matches Some(JsonV::Array(p)) && graph_view(g@) == graph_of(p, codex_root@),
        r is Err ==> r == Err::<Vec<(String, PackageInfo)>, GraphError>(GraphError::PackagesMissing)
            && !(vget(metadata@, "packages"@) matches Some(JsonV::Array(_))),
{
    let pkgs = match get(metadata, "packages") {
        Some(Json::Array(a)) => a,
        _ => {
            return Err(GraphError::PackagesMissing);
        },
    };
    let ghost pv = jviews(pkgs@);
    proof {
        lemma_jviews(pkgs@);
    }
    let mut g: Vec<(String, PackageInfo)> = Vec::new();
    let mut i: usize = 0;
    assert(pv.take(0) =~= Seq::<JsonV>::empty());
    assert(graph_view(g@) =~= Seq::<(Seq<char>, InfoV)>::empty());
    while i < pkgs.len()
        invariant
            i <= pkgs@.len(),
            pv == jviews(pkgs@),
            pv.len() == pkgs@.len(),
            forall|t: int| 0 <= t < pkgs@.len() ==> #[trigger] pv[t] == pkgs@[t]@,
            graph_view(g@) == graph_of(pv.take(i as int), codex_root@),
        decreases pkgs@.len() - i,
    {
        assert(pv.take(i + 1).drop_last() =~= pv.take(i as int));
        assert(pv.take(i + 1).last() == pkgs@[i as int]@);
        let p = &pkgs[i];
        let name = or_empty_str(get_str(p, "name"));
        if name.len() > 0 {
            let deps = match get(p, "dependencies") {
                Some(Json::Array(a)) => dep_names_exec(a),
                _ => {
                    let v: Vec<String> = Vec::new();
                    assert(strings_view(v@) =~= Seq::<Seq<char>>::empty());
                    v
                },
            };
            assert(strings_view(deps@) == pkg_deps(p@));
            let dir = pkg_dir_exec(p, codex_root);
            let pm = pkg_proc_macro_exec(p);
            let info = PackageInfo { deps, dir: crate::text::from_chars(&dir), is_proc_macro: pm };
            assert(info_view(info) == InfoV { deps: pkg_deps(p@), dir: pkg_dir(p@, codex_root@), is_proc_macro: pkg_proc_macro(p@) });
            graph_insert_exec(&mut g, crate::text::from_chars(&name), info);
        }
        i = i + 1;
    }
    assert(pv.take(pkgs@.len() as int) =~= pv);
    Ok(g)
}

/// Whether [`graph_well_formed`] holds, computed.
pub fn graph_is_well_formed(graph: &[(String, PackageInfo)]) -> (r: bool)
    ensures
        r == graph_well_formed(graph_view(graph@)),
{
    let ghost g = graph_view(graph@);
    let mut k: usize = 0;
    while k < graph.len()
        invariant
            k <= graph@.len(),
            g == graph_view(graph@),
            forall|t: int, d: Seq<char>| 0 <= t < k && #[trigger] g[t].1.deps.contains(d) ==> starts_with(
                d,
                "codex-"@,
            ) && node_info(g, d) is Some,
        decreases graph@.len() - k,
    {
        let deps = &graph[k].1.deps;
        let ghost dv = strings_view(deps@);
        assert(g[k as int].1.deps == dv);
        let mut j: usize = 0;
        while j < deps.len()
            invariant
                j <= deps@.len(),
                k < graph@.len(),
                g == graph_view(graph@),
                dv == strings_view(deps@),
                g[k as int].1.deps == dv,
                forall|t: int| 0 <= t < j ==> starts_with(#[trigger] dv[t], "codex-"@) && node_info(g, dv[t]) is Some,
            decreases deps@.len() - j,
        {
            let d = to_chars(deps[j].as_str());
            assert(dv[j as int] == d@);
            if !crate::text::starts_lit(&d, "codex-") || node_lookup(graph, &d).is_none() {
                assert(g[k as int].1.deps.contains(dv[j as int]));
                return false;
            }
            j = j + 1;
        }
        assert forall|t: int, d: Seq<char>| 0 <= t < k + 1 && #[trigger] g[t].1.deps.contains(d) implies starts_with(
            d,
            "codex-"@,
        ) && node_info(g, d) is Some by {
            if t == k {
                let q = choose|q: int| 0 <= q < dv.len() && dv[q] == d;
                assert(starts_with(dv[q], "codex-"@));
            }
        }
        k = k + 1;
    }
    true
}

} // verus!
