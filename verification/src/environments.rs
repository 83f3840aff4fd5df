//! The execution environments a turn may name: each environment's working
//! directory and workspace roots, checked to be absolute paths, with the
//! roots kept once each in the order given.
//!
//! Whether a path is absolute, and its URI form, are decided by the path
//! utilities of the app server; the caller hands their answer in (`None`
//! for a path that is not absolute).

use vstd::prelude::*;
use crate::manifest::names_view;
use crate::source_rewrite::list_contains;
use crate::text::{extend, from_chars, to_chars};

verus! {

/// The values without repeats, each where it first occurs.
pub open spec fn dedup(s: Seq<Seq<char>>) -> Seq<Seq<char>>
    decreases s.len(),
{
    if s.len() == 0 {
        seq![]
    } else {
        let r = dedup(s.drop_last());
        if r.contains(s.last()) {
            r
        } else {
            r.push(s.last())
        }
    }
}

/// Deduplicating keeps exactly the values given, and repeats none.
pub proof fn lemma_dedup(s: Seq<Seq<char>>)
    ensures
        forall|x: Seq<char>| dedup(s).contains(x) <==> s.contains(x),
        dedup(s).no_duplicates(),
        dedup(s).len() <= s.len(),
    decreases s.len(),
{
    if s.len() > 0 {
        let init = s.drop_last();
        lemma_dedup(init);
        let r = dedup(init);
        assert forall|x: Seq<char>| dedup(s).contains(x) <==> s.contains(x) by {
            if s.contains(x) && x != s.last() {
                let i = choose|i: int| 0 <= i < s.len() && s[i] == x;
                assert(init[i] == x);
            }
            if init.contains(x) {
                let i = choose|i: int| 0 <= i < init.len() && init[i] == x;
                assert(s[i] == x);
            }
            if !r.contains(s.last()) && dedup(s).contains(x) && x != s.last() {
                let i = choose|i: int| 0 <= i < dedup(s).len() && dedup(s)[i] == x;
                assert(r[i] == x);
            }
            if !r.contains(s.last()) && r.contains(x) {
                let i = choose|i: int| 0 <= i < r.len() && r[i] == x;
                assert(dedup(s)[i] == x);
            }
            if !r.contains(s.last()) && x == s.last() {
                assert(dedup(s)[r.len() as int] == x);
            }
            if x == s.last() {
                assert(s[s.len() - 1] == x);
            }
        }
    }
}

/// Keeps each workspace root once, where it first occurs.
pub fn resolve_runtime_workspace_roots(workspace_roots: Vec<String>) -> (r: Vec<String>)
    ensures
        names_view(r@) == dedup(names_view(workspace_roots@)),
{
    let ghost wv = names_view(workspace_roots@);
    let mut out: Vec<String> = Vec::new();
    let mut i: usize = 0;
    assert(wv.take(0) =~= Seq::<Seq<char>>::empty());
    assert(names_view(out@) =~= Seq::<Seq<char>>::empty());
    while i < workspace_roots.len()
        invariant
            i <= workspace_roots@.len(),
            wv == names_view(workspace_roots@),
            names_view(out@) == dedup(wv.take(i as int)),
        decreases workspace_roots@.len() - i,
    {
        assert(wv.take(i + 1).drop_last() =~= wv.take(i as int));
        assert(wv.take(i + 1).last() == workspace_roots@[i as int]@);
        let root = &workspace_roots[i];
        if !list_contains(&out, &to_chars(root.as_str())) {
            let ghost before = out@;
            out.push(root.clone());
            assert(names_view(out@) =~= names_view(before).push(root@));
        }
        i = i + 1;
    }
    assert(wv.take(workspace_roots@.len() as int) =~= wv);
    out
}

/// A turn's request for an environment, with the verdicts of the path
/// utilities already in.
pub struct EnvironmentRequest {
    pub environment_id: String,
    /// The working directory as written.
    pub cwd: String,
    /// Its URI form; none when it is not an absolute path.
    pub cwd_uri: Option<String>,
    /// The workspace roots as written, each with its URI form (none when
    /// it is not an absolute path); none when the request names no roots.
    pub runtime_workspace_roots: Option<Vec<(String, Option<String>)>>,
}

/// An environment a turn runs in.
#[derive(Debug, PartialEq)]
pub struct EnvironmentSelection {
    pub environment_id: String,
    pub cwd: String,
    pub workspace_roots: Vec<String>,
}

pub open spec fn opt_text(o: Option<String>) -> Option<Seq<char>> {
    match o {
        Some(s) => Some(s@),
        None => None,
    }
}

pub open spec fn roots_view(v: Seq<(String, Option<String>)>) -> Seq<(Seq<char>, Option<Seq<char>>)> {
    v.map_values(|p: (String, Option<String>)| (p.0@, opt_text(p.1)))
}

/// The view of a request: (id, cwd, cwd URI, roots).
pub open spec fn request_view(r: EnvironmentRequest) -> (
    Seq<char>,
    Seq<char>,
    Option<Seq<char>>,
    Option<Seq<(Seq<char>, Option<Seq<char>>)>>,
) {
    (
        r.environment_id@,
        r.cwd@,
        opt_text(r.cwd_uri),
        match r.runtime_workspace_roots {
            Some(v) => Some(roots_view(v@)),
            None => None,
        },
    )
}

/// The view of a selection: (id, cwd, roots).
pub open spec fn selection_view(s: EnvironmentSelection) -> (Seq<char>, Seq<char>, Seq<Seq<char>>) {
    (s.environment_id@, s.cwd@, names_view(s.workspace_roots@))
}

/// The message for a working directory that is not an absolute path.
pub open spec fn cwd_error(id: Seq<char>, cwd: Seq<char>) -> Seq<char> {
    "invalid cwd for environment `"@ + id + "`: path `"@ + cwd
        + "` does not use absolute POSIX or Windows path syntax"@
}

/// The message for a workspace root that is not an absolute path.
pub open spec fn root_error(id: Seq<char>, root: Seq<char>) -> Seq<char> {
    "invalid runtime workspace root for environment `"@ + id + "`: path `"@ + root
        + "` does not use absolute POSIX or Windows path syntax"@
}

/// The roots' URI forms, each once in first-occurrence order; the message
/// for the first root that is not an absolute path.
pub open spec fn resolve_roots(id: Seq<char>, roots: Seq<(Seq<char>, Option<Seq<char>>)>) -> Result<
    Seq<Seq<char>>,
    Seq<char>,
>
    decreases roots.len(),
{
    if roots.len() == 0 {
        Ok(seq![])
    } else {
        match resolve_roots(id, roots.drop_last()) {
            Err(e) => Err(e),
            Ok(r) => match roots.last().1 {
                None => Err(root_error(id, roots.last().0)),
                Some(u) => Ok(
                    if r.contains(u) {
                        r
                    } else {
                        r.push(u)
                    },
                ),
            },
        }
    }
}

/// One environment resolved: refused when its working directory, then
/// when one of its roots, is not an absolute path; without roots it works
/// in its working directory alone.
pub open spec fn resolve_environment(
    req: (Seq<char>, Seq<char>, Option<Seq<char>>, Option<Seq<(Seq<char>, Option<Seq<char>>)>>),
) -> Result<(Seq<char>, Seq<char>, Seq<Seq<char>>), Seq<char>> {
    let (id, cwd, cwd_uri, roots) = req;
    match cwd_uri {
        None => Err(cwd_error(id, cwd)),
        Some(c) => match roots {
            None => Ok((id, c, seq![c])),
            Some(rs) => match resolve_roots(id, rs) {
                Err(e) => Err(e),
                Ok(r) => Ok((id, c, r)),
            },
        },
    }
}

/// Every environment resolved in order; the message of the first refused.
pub open spec fn resolve_all(
    reqs: Seq<(Seq<char>, Seq<char>, Option<Seq<char>>, Option<Seq<(Seq<char>, Option<Seq<char>>)>>)>,
) -> Result<Seq<(Seq<char>, Seq<char>, Seq<Seq<char>>)>, Seq<char>>
    decreases reqs.len(),
{
    if reqs.len() == 0 {
        Ok(seq![])
    } else {
        match resolve_all(reqs.drop_last()) {
            Err(e) => Err(e),
            Ok(r) => match resolve_environment(reqs.last()) {
                Err(e) => Err(e),
                Ok(s) => Ok(r.push(s)),
            },
        }
    }
}

/// A refusal among the first roots is the refusal of them all.
proof fn lemma_roots_err_prefix(id: Seq<char>, s: Seq<(Seq<char>, Option<Seq<char>>)>, k: int)
    requires
        0 <= k <= s.len(),
        resolve_roots(id, s.take(k)) is Err,
    ensures
        resolve_roots(id, s) == resolve_roots(id, s.take(k)),
    decreases s.len(),
{
    if k == s.len() {
        assert(s.take(k) =~= s);
    } else {
        assert(s.drop_last().take(k) =~= s.take(k));
        lemma_roots_err_prefix(id, s.drop_last(), k);
    }
}

/// A refusal among the first environments is the refusal of them all.
proof fn lemma_all_err_prefix(
    s: Seq<(Seq<char>, Seq<char>, Option<Seq<char>>, Option<Seq<(Seq<char>, Option<Seq<char>>)>>)>,
    k: int,
)
    requires
        0 <= k <= s.len(),
        resolve_all(s.take(k)) is Err,
    ensures
        resolve_all(s) == resolve_all(s.take(k)),
    decreases s.len(),
{
    if k == s.len() {
        assert(s.take(k) =~= s);
    } else {
        assert(s.drop_last().take(k) =~= s.take(k));
        lemma_all_err_prefix(s.drop_last(), k);
    }
}

fn message(head: &str, id: &str, path: &str) -> (r: String)
    ensures
        r@ == head@ + id@ + "`: path `"@ + path@ + "` does not use absolute POSIX or Windows path syntax"@,
{
    let mut m = to_chars(head);
    extend(&mut m, &to_chars(id));
    extend(&mut m, &to_chars("`: path `"));
    extend(&mut m, &to_chars(path));
    extend(&mut m, &to_chars("` does not use absolute POSIX or Windows path syntax"));
    from_chars(&m)
}

fn resolve_roots_exec(id: &str, roots: &Vec<(String, Option<String>)>) -> (r: Result<Vec<String>, String>)
    ensures
        match (r, resolve_roots(id@, roots_view(roots@))) {
            (Ok(v), Ok(w)) => names_view(v@) == w,
            (Err(e), Err(f)) => e@ == f,
            _ => false,
        },
{
    let ghost rv = roots_view(roots@);
    let mut out: Vec<String> = Vec::new();
    let mut i: usize = 0;
    assert(rv.take(0) =~= Seq::<(Seq<char>, Option<Seq<char>>)>::empty());
    assert(names_view(out@) =~= Seq::<Seq<char>>::empty());
    while i < roots.len()
        invariant
            i <= roots@.len(),
            rv == roots_view(roots@),
            resolve_roots(id@, rv.take(i as int)) == Ok::<Seq<Seq<char>>, Seq<char>>(names_view(out@)),
        decreases roots@.len() - i,
    {
        assert(rv.take(i + 1).drop_last() =~= rv.take(i as int));
        assert(rv.take(i + 1).last() == (roots@[i as int].0@, opt_text(roots@[i as int].1)));
        match &roots[i].1 {
            None => {
                proof {
                    lemma_roots_err_prefix(id@, rv, i + 1);
                }
                return Err(message("invalid runtime workspace root for environment `", id, roots[i].0.as_str()));
            },
            Some(u) => {
                if !list_contains(&out, &to_chars(u.as_str())) {
                    let ghost before = out@;
                    out.push(u.clone());
                    assert(names_view(out@) =~= names_view(before).push(u@));
                }
            },
        }
        i = i + 1;
    }
    assert(rv.take(roots@.len() as int) =~= rv);
    Ok(out)
}

fn resolve_environment_exec(req: &EnvironmentRequest) -> (r: Result<EnvironmentSelection, String>)
    ensures
        match (r, resolve_environment(request_view(*req))) {
            (Ok(s), Ok(t)) => selection_view(s) == t,
            (Err(e), Err(f)) => e@ == f,
            _ => false,
        },
{
    let c = match &req.cwd_uri {
        None => {
            return Err(message("invalid cwd for environment `", req.environment_id.as_str(), req.cwd.as_str()));
        },
        Some(c) => c,
    };
    let roots = match &req.runtime_workspace_roots {
        None => {
            let v = vec![c.clone()];
            assert(names_view(v@) =~= seq![c@]);
            v
        },
        Some(rs) => match resolve_roots_exec(req.environment_id.as_str(), rs) {
            Err(e) => {
                return Err(e);
            },
            Ok(v) => v,
        },
    };
    Ok(EnvironmentSelection { environment_id: req.environment_id.clone(), cwd: c.clone(), workspace_roots: roots })
}

pub open spec fn requests_view(v: Seq<EnvironmentRequest>) -> Seq<
    (Seq<char>, Seq<char>, Option<Seq<char>>, Option<Seq<(Seq<char>, Option<Seq<char>>)>>),
> {
    v.map_values(|r: EnvironmentRequest| request_view(r))
}

pub open spec fn selections_view(v: Seq<EnvironmentSelection>) -> Seq<(Seq<char>, Seq<char>, Seq<Seq<char>>)> {
    v.map_values(|s: EnvironmentSelection| selection_view(s))
}

/// The environments a turn runs in (see [`resolve_all`]); none when the
/// turn names none. The message of an error is that of an invalid-request
/// answer.
pub fn resolve_turn_environment_selections(environments: Option<Vec<EnvironmentRequest>>) -> (r: Result<
    Option<Vec<EnvironmentSelection>>,
    String,
>)
    ensures
        match environments {
            None => r == Ok::<Option<Vec<EnvironmentSelection>>, String>(None),
            Some(envs) => match (r, resolve_all(requests_view(envs@))) {
                (Ok(Some(v)), Ok(w)) => selections_view(v@) == w,
                (Err(e), Err(f)) => e@ == f,
                _ => false,
            },
        },
{
    let envs = match environments {
        None => {
            return Ok(None);
        },
        Some(e) => e,
    };
    assert(environments == Some(envs));
    let ghost ev = requests_view(envs@);
    let mut out: Vec<EnvironmentSelection> = Vec::new();
    let mut i: usize = 0;
    assert(ev.take(0) =~= Seq::<(Seq<char>, Seq<char>, Option<Seq<char>>, Option<Seq<(Seq<char>, Option<Seq<char>>)>>)>::empty());
    assert(selections_view(out@) =~= Seq::<(Seq<char>, Seq<char>, Seq<Seq<char>>)>::empty());
    while i < envs.len()
        invariant
            i <= envs@.len(),
            environments == Some(envs),
            ev == requests_view(envs@),
            resolve_all(ev.take(i as int)) == Ok::<Seq<(Seq<char>, Seq<char>, Seq<Seq<char>>)>, Seq<char>>(
                selections_view(out@),
            ),
        decreases envs@.len() - i,
    {
        assert(ev.take(i + 1).drop_last() =~= ev.take(i as int));
        assert(ev.take(i + 1).last() == request_view(envs@[i as int]));
        match resolve_environment_exec(&envs[i]) {
            Err(e) => {
                proof {
                    lemma_all_err_prefix(ev, i + 1);
                }
                return Err(e);
            },
            Ok(s) => {
                let ghost before = out@;
                let ghost sv = selection_view(s);
                out.push(s);
                assert(selections_view(out@) =~= selections_view(before).push(sv));
            },
        }
        i = i + 1;
    }
    assert(ev.take(envs@.len() as int) =~= ev);
    Ok(Some(out))
}

} // verus!
