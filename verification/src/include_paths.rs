//! Paths named in source text after a cluster merge moved files around:
//! `include_str!` / `include_bytes!` targets, `sqlx::migrate!` directories
//! and `$CARGO_MANIFEST_DIR/src/` paths.
//!
//! Which files exist is asked of the file system by the caller: the
//! functions here list the paths a text names, and rewrite the text given
//! the caller's answers.

use vstd::prelude::*;
use crate::merge_text::{trim_start_str, trim_start_str_exec};
use crate::text::{
    extend, extend_lit, find, find_char, find_ch, find_from, find_seq_from, from_chars, lemma_find_from, lines, split_lines,
    slice_vec, to_chars, trim_end_char, trim_end_char_vec,
};

verus! {

// ---------------------------------------------------------------------------
// Relative paths
// ---------------------------------------------------------------------------

/// The number of leading components two paths share.
pub open spec fn common_prefix(a: Seq<Seq<char>>, b: Seq<Seq<char>>) -> nat
    decreases a.len(),
{
    if a.len() == 0 || b.len() == 0 || a[0] != b[0] {
        0
    } else {
        1 + common_prefix(a.drop_first(), b.drop_first())
    }
}

/// `n` times `../`.
pub open spec fn ups(n: nat) -> Seq<char>
    decreases n,
{
    if n == 0 {
        seq![]
    } else {
        "../"@ + ups((n - 1) as nat)
    }
}

/// Each component followed by `/`.
pub open spec fn slash_join(cs: Seq<Seq<char>>) -> Seq<char>
    decreases cs.len(),
{
    if cs.len() == 0 {
        seq![]
    } else {
        cs[0] + "/"@ + slash_join(cs.drop_first())
    }
}

/// The path from directory `from` to `to`, both given by their components:
/// up out of what they do not share, then down into `to`, with no trailing
/// `/`.
pub open spec fn spec_pathdiff_rel(from: Seq<Seq<char>>, to: Seq<Seq<char>>) -> Seq<char> {
    let c = common_prefix(from, to);
    trim_end_char(ups((from.len() - c) as nat) + slash_join(to.skip(c as int)), '/')
}

proof fn lemma_common_prefix(a: Seq<Seq<char>>, b: Seq<Seq<char>>, i: int)
    requires
        0 <= i <= a.len(),
        i <= b.len(),
        forall|j: int| 0 <= j < i ==> a[j] == b[j],
    ensures
        common_prefix(a, b) == i + common_prefix(a.skip(i), b.skip(i)),
    decreases i,
{
    if i > 0 {
        assert(a[0] == b[0]);
        assert forall|j: int| 0 <= j < i - 1 implies a.drop_first()[j] == b.drop_first()[j] by {
            assert(a[j + 1] == b[j + 1]);
        }
        lemma_common_prefix(a.drop_first(), b.drop_first(), i - 1);
        assert(a.drop_first().skip(i - 1) =~= a.skip(i));
        assert(b.drop_first().skip(i - 1) =~= b.skip(i));
    } else {
        assert(a.skip(0) =~= a);
        assert(b.skip(0) =~= b);
    }
}

proof fn lemma_ups_push(n: nat)
    ensures
        ups(n + 1) == ups(n) + "../"@,
    decreases n,
{
    if n > 0 {
        lemma_ups_push((n - 1) as nat);
        assert(ups(n + 1) == "../"@ + ups(n));
        assert("../"@ + (ups((n - 1) as nat) + "../"@) =~= ("../"@ + ups((n - 1) as nat)) + "../"@);
    } else {
        assert(ups(1) == "../"@ + ups(0));
        assert("../"@ + Seq::<char>::empty() =~= Seq::<char>::empty() + "../"@);
    }
}

proof fn lemma_slash_join_push(cs: Seq<Seq<char>>, x: Seq<char>)
    ensures
        slash_join(cs.push(x)) == slash_join(cs) + x + "/"@,
    decreases cs.len(),
{
    if cs.len() == 0 {
        let p = cs.push(x);
        assert(p[0] == x);
        assert(p.drop_first() =~= Seq::<Seq<char>>::empty());
        assert(slash_join(p.drop_first()) == Seq::<char>::empty());
        assert(slash_join(p) == p[0] + "/"@ + slash_join(p.drop_first()));
        assert(x + "/"@ + Seq::<char>::empty() =~= Seq::<char>::empty() + x + "/"@);
    } else {
        assert(cs.push(x).drop_first() =~= cs.drop_first().push(x));
        lemma_slash_join_push(cs.drop_first(), x);
        assert(cs.push(x)[0] == cs[0]);
        assert(cs[0] + "/"@ + (slash_join(cs.drop_first()) + x + "/"@) =~= (cs[0] + "/"@ + slash_join(cs.drop_first())) + x + "/"@);
    }
}

pub open spec fn comps_view(v: Seq<String>) -> Seq<Seq<char>> {
    v.map_values(|s: String| s@)
}

/// See [`spec_pathdiff_rel`].
pub fn pathdiff_rel(from: &[String], to: &[String]) -> (r: String)
    ensures
        r@ == spec_pathdiff_rel(comps_view(from@), comps_view(to@)),
{
    let ghost a = comps_view(from@);
    let ghost b = comps_view(to@);
    let mut c: usize = 0;
    while c < from.len() && c < to.len() && crate::text::seq_eq(&to_chars(from[c].as_str()), &to_chars(to[c].as_str()))
        invariant
            c <= from@.len(),
            c <= to@.len(),
            a == comps_view(from@),
            b == comps_view(to@),
            forall|j: int| 0 <= j < c ==> a[j] == b[j],
        decreases from@.len() - c,
    {
        assert(a[c as int] == from@[c as int]@);
        assert(b[c as int] == to@[c as int]@);
        c = c + 1;
    }
    proof {
        lemma_common_prefix(a, b, c as int);
        let sa = a.skip(c as int);
        let sb = b.skip(c as int);
        if sa.len() > 0 && sb.len() > 0 {
            assert(sa[0] == from@[c as int]@);
            assert(sb[0] == to@[c as int]@);
        }
        assert(common_prefix(sa, sb) == 0);
    }
    let mut out: Vec<char> = Vec::new();
    let mut k: usize = c;
    assert(out@ =~= ups(0));
    while k < from.len()
        invariant
            c <= k <= from@.len(),
            out@ == ups((k - c) as nat),
        decreases from@.len() - k,
    {
        proof {
            lemma_ups_push((k - c) as nat);
        }
        extend_lit(&mut out, "../");
        k = k + 1;
    }
    let ghost head = out@;
    let mut j: usize = c;
    assert(b.skip(c as int).take(0) =~= Seq::<Seq<char>>::empty());
    while j < to.len()
        invariant
            c <= j <= to@.len(),
            b == comps_view(to@),
            out@ == head + slash_join(b.skip(c as int).take(j - c)),
        decreases to@.len() - j,
    {
        proof {
            let t = b.skip(c as int);
            assert(t.take(j + 1 - c) =~= t.take(j - c).push(t[j - c]));
            assert(t[j - c] == to@[j as int]@);
            lemma_slash_join_push(t.take(j - c), t[j - c]);
        }
        extend(&mut out, &to_chars(to[j].as_str()));
        out.push('/');
        proof {
            reveal_strlit("/");
        }
        assert(out@ =~= head + slash_join(b.skip(c as int).take(j + 1 - c)));
        j = j + 1;
    }
    assert(b.skip(c as int).take(to@.len() - c) =~= b.skip(c as int));
    from_chars(&trim_end_char_vec(&out, '/'))
}


// ---------------------------------------------------------------------------
// include_str! / include_bytes!
// ---------------------------------------------------------------------------

/// The replacement the first entry for `p` gives; `p` itself when none.
pub open spec fn resolved(fixes: Seq<(Seq<char>, Seq<char>)>, p: Seq<char>) -> Seq<char>
    decreases fixes.len(),
{
    if fixes.len() == 0 {
        p
    } else if fixes[0].0 == p {
        fixes[0].1
    } else {
        resolved(fixes.drop_first(), p)
    }
}

/// The text with each `<macro>"<path>"` path replaced as `fixes` says.
/// An opening quote with no closing quote ends the scan, and the text from
/// that macro on is then written twice, as the scan writes it.
pub open spec fn spec_single_includes(rest: Seq<char>, qp: Seq<char>, fixes: Seq<(Seq<char>, Seq<char>)>) -> Seq<char>
    decreases rest.len(),
{
    if qp.len() == 0 {
        rest
    } else {
        match find(rest, qp) {
            None => rest,
            Some(pos) => {
                let ps = pos + qp.len();
                let after = rest.skip(ps);
                match find_char(after, '"') {
                    None => rest + rest,
                    Some(e) => {
                        proof {
                            lemma_find_from(rest, qp, 0);
                            lemma_find_from(after, seq!['"'], 0);
                        }
                        rest.take(ps) + resolved(fixes, after.take(e)) + "\""@ + spec_single_includes(
                            after.skip(e + 1),
                            qp,
                            fixes,
                        )
                    },
                }
            },
        }
    }
}

/// The paths of the `<macro>"<path>"` occurrences the scan of
/// [`spec_single_includes`] meets, in order.
pub open spec fn spec_include_paths(rest: Seq<char>, qp: Seq<char>) -> Seq<Seq<char>>
    decreases rest.len(),
{
    if qp.len() == 0 {
        seq![]
    } else {
        match find(rest, qp) {
            None => seq![],
            Some(pos) => {
                let ps = pos + qp.len();
                let after = rest.skip(ps);
                match find_char(after, '"') {
                    None => seq![],
                    Some(e) => {
                        proof {
                            lemma_find_from(rest, qp, 0);
                            lemma_find_from(after, seq!['"'], 0);
                        }
                        seq![after.take(e)] + spec_include_paths(after.skip(e + 1), qp)
                    },
                }
            },
        }
    }
}

pub open spec fn fixes_view(v: Seq<(String, String)>) -> Seq<(Seq<char>, Seq<char>)> {
    v.map_values(|p: (String, String)| (p.0@, p.1@))
}

fn resolved_exec(fixes: &[(String, String)], p: &[char]) -> (r: Vec<char>)
    ensures
        r@ == resolved(fixes_view(fixes@), p@),
{
    let ghost fv = fixes_view(fixes@);
    let mut i: usize = 0;
    assert(fv.skip(0) =~= fv);
    while i < fixes.len()
        invariant
            i <= fixes@.len(),
            fv == fixes_view(fixes@),
            resolved(fv, p@) == resolved(fv.skip(i as int), p@),
        decreases fixes@.len() - i,
    {
        assert(fv.skip(i as int)[0] == (fixes@[i as int].0@, fixes@[i as int].1@));
        assert(fv.skip(i as int).drop_first() =~= fv.skip(i + 1));
        if crate::text::seq_eq(&to_chars(fixes[i].0.as_str()), p) {
            return to_chars(fixes[i].1.as_str());
        }
        i = i + 1;
    }
    slice_vec(p, 0, p.len())
}

fn quote_prefix(macro_name: &str) -> (r: Vec<char>)
    ensures
        r@ == macro_name@ + "\""@,
        r@.len() > 0,
{
    proof {
        reveal_strlit("\"");
    }
    let mut q = to_chars(macro_name);
    extend_lit(&mut q, "\"");
    q
}

/// See [`spec_single_includes`]; `macro_name` is e.g. `include_str!(`.
pub fn fix_single_includes_text(src: &str, macro_name: &str, fixes: &[(String, String)]) -> (r: String)
    ensures
        r@ == spec_single_includes(src@, macro_name@ + "\""@, fixes_view(fixes@)),
{
    proof {
        reveal_strlit("\"");
    }
    let qp = quote_prefix(macro_name);
    let ghost fv = fixes_view(fixes@);
    let mut rest = to_chars(src);
    let mut out: Vec<char> = Vec::new();
    loop
        invariant
            qp@.len() > 0,
            qp@ == macro_name@ + "\""@,
            fv == fixes_view(fixes@),
            out@ + spec_single_includes(rest@, qp@, fv) == spec_single_includes(src@, qp@, fv),
        decreases rest@.len(),
    {
        let ghost r0 = rest@;
        let ghost o0 = out@;
        let rn = rest.len();
        let pos = match find_seq_from(&rest, &qp, 0) {
            None => {
                extend(&mut out, &rest);
                assert(spec_single_includes(r0, qp@, fv) == r0);
                return from_chars(&out);
            },
            Some(p) => p,
        };
        proof {
            lemma_find_from(rest@, qp@, 0);
        }
        assert(pos + qp@.len() <= rn);
        let ps = pos + qp.len();
        let after = slice_vec(&rest, ps, rest.len());
        assert(after@ =~= rest@.skip(ps as int));
        match find_ch(&after, '"') {
            None => {
                extend(&mut out, &rest);
                extend(&mut out, &rest);
                assert(spec_single_includes(r0, qp@, fv) == r0 + r0);
                assert(out@ =~= o0 + (r0 + r0));
                return from_chars(&out);
            },
            Some(e) => {
                proof {
                    lemma_find_from(after@, seq!['"'], 0);
                }
                let path = slice_vec(&after, 0, e);
                assert(path@ =~= after@.take(e as int));
                extend(&mut out, &slice_vec(&rest, 0, ps));
                assert(rest@.subrange(0, ps as int) =~= rest@.take(ps as int));
                let res = resolved_exec(fixes, &path);
                extend(&mut out, &res);
                extend_lit(&mut out, "\"");
                let next = slice_vec(&after, e + 1, after.len());
                assert(next@ =~= after@.skip(e + 1));
                rest = next;
                proof {
                    assert(spec_single_includes(r0, qp@, fv) == r0.take(ps as int) + resolved(fv, after@.take(e as int))
                        + "\""@ + spec_single_includes(rest@, qp@, fv));
                    assert(out@ + spec_single_includes(rest@, qp@, fv) =~= o0 + spec_single_includes(r0, qp@, fv));
                }
            },
        }
    }
}

/// See [`spec_include_paths`].
pub fn include_paths(src: &str, macro_name: &str) -> (r: Vec<String>)
    ensures
        comps_view(r@) == spec_include_paths(src@, macro_name@ + "\""@),
{
    let qp = quote_prefix(macro_name);
    let mut rest = to_chars(src);
    let mut out: Vec<String> = Vec::new();
    loop
        invariant
            qp@.len() > 0,
            qp@ == macro_name@ + "\""@,
            comps_view(out@) + spec_include_paths(rest@, qp@) == spec_include_paths(src@, qp@),
        decreases rest@.len(),
    {
        let ghost r0 = rest@;
        let rn = rest.len();
        let pos = match find_seq_from(&rest, &qp, 0) {
            None => {
                assert(spec_include_paths(r0, qp@) =~= Seq::<Seq<char>>::empty());
                assert(comps_view(out@) + Seq::<Seq<char>>::empty() =~= comps_view(out@));
                return out;
            },
            Some(p) => p,
        };
        proof {
            lemma_find_from(rest@, qp@, 0);
        }
        assert(pos + qp@.len() <= rn);
        let ps = pos + qp.len();
        let after = slice_vec(&rest, ps, rest.len());
        assert(after@ =~= rest@.skip(ps as int));
        match find_ch(&after, '"') {
            None => {
                assert(spec_include_paths(r0, qp@) =~= Seq::<Seq<char>>::empty());
                assert(comps_view(out@) + Seq::<Seq<char>>::empty() =~= comps_view(out@));
                return out;
            },
            Some(e) => {
                proof {
                    lemma_find_from(after@, seq!['"'], 0);
                }
                let path = slice_vec(&after, 0, e);
                assert(path@ =~= after@.take(e as int));
                let ghost before = comps_view(out@);
                out.push(from_chars(&path));
                assert(comps_view(out@) =~= before.push(after@.take(e as int)));
                let next = slice_vec(&after, e + 1, after.len());
                assert(next@ =~= after@.skip(e + 1));
                rest = next;
                proof {
                    assert(spec_include_paths(r0, qp@) == seq![after@.take(e as int)] + spec_include_paths(rest@, qp@));
                    assert(before.push(after@.take(e as int)) + spec_include_paths(rest@, qp@) =~= before + (
                    seq![after@.take(e as int)] + spec_include_paths(rest@, qp@)));
                }
            },
        }
    }
}


// ---------------------------------------------------------------------------
// $CARGO_MANIFEST_DIR/src/ paths
// ---------------------------------------------------------------------------

/// The prefix of a path below the crate's `src/` directory.
pub open spec fn manifest_src() -> Seq<char> {
    "$CARGO_MANIFEST_DIR/src/"@
}

/// The text with the module inserted after `$CARGO_MANIFEST_DIR/src/` in
/// each path (the text up to the next `"`) that `fixable` lists: those found
/// under `src/<module>/` and not under `src/`. The scan goes on after an
/// inserted path, and after the prefix of one left as it is.
pub open spec fn spec_fix_manifest_dir(rest: Seq<char>, module: Seq<char>, fixable: Seq<Seq<char>>) -> Seq<char>
    decreases rest.len(),
{
    let op = manifest_src();
    match find(rest, op) {
        None => rest,
        Some(pos) => {
            proof {
                reveal_strlit("$CARGO_MANIFEST_DIR/src/");
                lemma_find_from(rest, op, 0);
            }
            let a = pos + op.len();
            let after = rest.skip(a);
            match find_char(after, '"') {
                Some(e) => {
                    proof {
                        lemma_find_from(after, seq!['"'], 0);
                    }
                    if fixable.contains(after.take(e)) {
                        rest.take(pos) + op + module + "/"@ + after.take(e) + spec_fix_manifest_dir(
                            after.skip(e),
                            module,
                            fixable,
                        )
                    } else {
                        rest.take(a) + spec_fix_manifest_dir(after, module, fixable)
                    }
                },
                None => rest.take(a) + spec_fix_manifest_dir(after, module, fixable),
            }
        },
    }
}

/// The paths after every `$CARGO_MANIFEST_DIR/src/` that a `"` closes, in
/// order: the ones [`spec_fix_manifest_dir`] may ask about.
pub open spec fn spec_manifest_dir_tails(rest: Seq<char>) -> Seq<Seq<char>>
    decreases rest.len(),
{
    let op = manifest_src();
    match find(rest, op) {
        None => seq![],
        Some(pos) => {
            proof {
                reveal_strlit("$CARGO_MANIFEST_DIR/src/");
                lemma_find_from(rest, op, 0);
            }
            let after = rest.skip(pos + op.len());
            match find_char(after, '"') {
                Some(e) => seq![after.take(e)] + spec_manifest_dir_tails(after),
                None => spec_manifest_dir_tails(after),
            }
        },
    }
}

fn list_has(v: &[String], x: &[char]) -> (r: bool)
    ensures
        r == comps_view(v@).contains(x@),
{
    let ghost cv = comps_view(v@);
    let mut i: usize = 0;
    while i < v.len()
        invariant
            i <= v@.len(),
            cv == comps_view(v@),
            forall|j: int| 0 <= j < i ==> cv[j] != x@,
        decreases v@.len() - i,
    {
        assert(cv[i as int] == v@[i as int]@);
        if crate::text::seq_eq(&to_chars(v[i].as_str()), x) {
            return true;
        }
        i = i + 1;
    }
    false
}

/// See [`spec_fix_manifest_dir`]; a file outside any module (`module`
/// empty) is left as it is.
pub fn fix_manifest_dir_text(raw: &str, module: &str, fixable: &[String]) -> (r: String)
    ensures
        module@.len() == 0 ==> r@ == raw@,
        module@.len() > 0 ==> r@ == spec_fix_manifest_dir(raw@, module@, comps_view(fixable@)),
{
    proof {
        reveal_strlit("$CARGO_MANIFEST_DIR/src/");
        reveal_strlit("/");
    }
    if module.is_empty() {
        return raw.to_owned();
    }
    let ghost fx = comps_view(fixable@);
    let op = to_chars("$CARGO_MANIFEST_DIR/src/");
    let m = to_chars(module);
    let mut rest = to_chars(raw);
    let mut out: Vec<char> = Vec::new();
    loop
        invariant
            op@ == manifest_src(),
            op@.len() > 0,
            module@.len() > 0,
            m@ == module@,
            fx == comps_view(fixable@),
            out@ + spec_fix_manifest_dir(rest@, module@, fx) == spec_fix_manifest_dir(raw@, module@, fx),
        decreases rest@.len(),
    {
        let ghost r0 = rest@;
        let ghost o0 = out@;
        let rn = rest.len();
        let pos = match find_seq_from(&rest, &op, 0) {
            None => {
                extend(&mut out, &rest);
                return from_chars(&out);
            },
            Some(p) => p,
        };
        proof {
            lemma_find_from(rest@, op@, 0);
        }
        assert(pos + op@.len() <= rn);
        let a = pos + op.len();
        let after = slice_vec(&rest, a, rest.len());
        assert(after@ =~= rest@.skip(a as int));
        let fixed = match find_ch(&after, '"') {
            Some(e) => {
                proof {
                    lemma_find_from(after@, seq!['"'], 0);
                }
                let tail = slice_vec(&after, 0, e);
                assert(tail@ =~= after@.take(e as int));
                if list_has(fixable, &tail) {
                    proof {
                        reveal_strlit("/");
                        assert(spec_fix_manifest_dir(r0, module@, fx) == r0.take(pos as int) + op@ + module@ + "/"@
                            + after@.take(e as int) + spec_fix_manifest_dir(after@.skip(e as int), module@, fx));
                    }
                    extend(&mut out, &slice_vec(&rest, 0, pos));
                    assert(rest@.subrange(0, pos as int) =~= rest@.take(pos as int));
                    extend(&mut out, &op);
                    extend(&mut out, &m);
                    out.push('/');
                    extend(&mut out, &tail);
                    let next = slice_vec(&after, e, after.len());
                    assert(next@ =~= after@.skip(e as int));
                    rest = next;
                    assert(out@ + spec_fix_manifest_dir(rest@, module@, fx) =~= o0 + spec_fix_manifest_dir(r0, module@, fx));
                    true
                } else {
                    false
                }
            },
            None => false,
        };
        if !fixed {
            extend(&mut out, &slice_vec(&rest, 0, a));
            assert(rest@.subrange(0, a as int) =~= rest@.take(a as int));
            rest = after;
            assert(out@ + spec_fix_manifest_dir(rest@, module@, fx) =~= o0 + spec_fix_manifest_dir(r0, module@, fx));
        }
    }
}

/// See [`spec_manifest_dir_tails`].
pub fn manifest_dir_tails(raw: &str) -> (r: Vec<String>)
    ensures
        comps_view(r@) == spec_manifest_dir_tails(raw@),
{
    proof {
        reveal_strlit("$CARGO_MANIFEST_DIR/src/");
    }
    let op = to_chars("$CARGO_MANIFEST_DIR/src/");
    let mut rest = to_chars(raw);
    let mut out: Vec<String> = Vec::new();
    loop
        invariant
            op@ == manifest_src(),
            op@.len() > 0,
            comps_view(out@) + spec_manifest_dir_tails(rest@) == spec_manifest_dir_tails(raw@),
        decreases rest@.len(),
    {
        let ghost r0 = rest@;
        let ghost o0 = comps_view(out@);
        let rn = rest.len();
        let pos = match find_seq_from(&rest, &op, 0) {
            None => {
                assert(comps_view(out@) + Seq::<Seq<char>>::empty() =~= comps_view(out@));
                return out;
            },
            Some(p) => p,
        };
        proof {
            lemma_find_from(rest@, op@, 0);
        }
        assert(pos + op@.len() <= rn);
        let a = pos + op.len();
        let after = slice_vec(&rest, a, rest.len());
        assert(after@ =~= rest@.skip(a as int));
        match find_ch(&after, '"') {
            Some(e) => {
                proof {
                    lemma_find_from(after@, seq!['"'], 0);
                }
                let tail = slice_vec(&after, 0, e);
                assert(tail@ =~= after@.take(e as int));
                out.push(from_chars(&tail));
                assert(comps_view(out@) =~= o0.push(after@.take(e as int)));
                assert(o0.push(after@.take(e as int)) + spec_manifest_dir_tails(after@) =~= o0 + (seq![after@.take(e as int)] + spec_manifest_dir_tails(after@)));
            },
            None => {},
        }
        rest = after;
    }
}


// ---------------------------------------------------------------------------
// sqlx::migrate! directories
// ---------------------------------------------------------------------------

/// What opens the directory argument of `sqlx::migrate!`.
pub open spec fn migrate_marker() -> Seq<char> {
    "sqlx::migrate!(\""@
}

/// Where the directory of the first `sqlx::migrate!("...")` of a text
/// starts and ends; none when there is none or its quote is not closed.
pub open spec fn first_migrate(s: Seq<char>) -> Option<(int, int)> {
    match find(s, migrate_marker()) {
        None => None,
        Some(pos) => {
            let ps = pos + migrate_marker().len();
            match find_char(s.skip(ps), '"') {
                Some(e) => Some((ps, ps + e)),
                None => None,
            }
        },
    }
}

/// A migrations directory moved into `src/<module>/`, as the crate root
/// sees it.
pub open spec fn moved_migrations(module: Seq<char>, p: Seq<char>) -> Seq<char> {
    "./src/"@ + module + "/"@ + trim_start_str(p, "./"@)
}

/// The first `sqlx::migrate!` directory moved when `fixable` lists it
/// (found under `src/<module>/` and not at the crate root). The scan that
/// does this meets the moved directory next, which is found, and stops.
pub open spec fn migrate_first_pass(s: Seq<char>, module: Seq<char>, fixable: Seq<Seq<char>>) -> Seq<char> {
    match first_migrate(s) {
        Some((ps, pe)) => if fixable.contains(s.subrange(ps, pe)) {
            s.take(ps) + moved_migrations(module, s.subrange(ps, pe)) + s.skip(pe)
        } else {
            s
        },
        None => s,
    }
}

/// `str::replacen(p, new, 1)`.
pub open spec fn replace_first(line: Seq<char>, p: Seq<char>, new: Seq<char>) -> Seq<char> {
    match find(line, p) {
        Some(i) => line.take(i) + new + line.skip(i + p.len()),
        None => line,
    }
}

/// A line whose first `sqlx::migrate!` directory `fixable` lists, with the
/// first occurrence of that directory's text moved.
pub open spec fn migrate_line(line: Seq<char>, module: Seq<char>, fixable: Seq<Seq<char>>) -> Seq<char> {
    match first_migrate(line) {
        Some((ps, pe)) => if fixable.contains(line.subrange(ps, pe)) {
            replace_first(line, line.subrange(ps, pe), moved_migrations(module, line.subrange(ps, pe)))
        } else {
            line
        },
        None => line,
    }
}

/// Lines joined by `\n`, with none after the last.
pub open spec fn join_nl(ls: Seq<Seq<char>>) -> Seq<char>
    decreases ls.len(),
{
    if ls.len() == 0 {
        seq![]
    } else if ls.len() == 1 {
        ls[0]
    } else {
        join_nl(ls.drop_last()) + "\n"@ + ls.last()
    }
}

/// The text with its `sqlx::migrate!` directories moved into the module:
/// the first pass, then each line, joined again by `\n`.
pub open spec fn spec_fix_migrate_paths(src: Seq<char>, module: Seq<char>, fixable: Seq<Seq<char>>) -> Seq<char> {
    join_nl(lines(migrate_first_pass(src, module, fixable)).map_values(|l: Seq<char>| migrate_line(l, module, fixable)))
}

fn first_migrate_exec(s: &[char]) -> (r: Option<(usize, usize)>)
    ensures
        match r {
            Some((a, b)) => first_migrate(s@) == Some((a as int, b as int)) && a <= b <= s@.len(),
            None => first_migrate(s@) is None,
        },
{
    proof {
        reveal_strlit("sqlx::migrate!(\"");
    }
    let m = to_chars("sqlx::migrate!(\"");
    let n = s.len();
    let pos = match find_seq_from(s, &m, 0) {
        None => {
            return None;
        },
        Some(p) => p,
    };
    proof {
        lemma_find_from(s@, m@, 0);
    }
    assert(pos + m@.len() <= n);
    let ps = pos + m.len();
    let after = slice_vec(s, ps, n);
    assert(after@ =~= s@.skip(ps as int));
    match find_ch(&after, '"') {
        Some(e) => {
            proof {
                lemma_find_from(after@, seq!['"'], 0);
            }
            Some((ps, ps + e))
        },
        None => None,
    }
}

fn moved_migrations_exec(module: &[char], p: &[char]) -> (r: Vec<char>)
    ensures
        r@ == moved_migrations(module@, p@),
{
    proof {
        reveal_strlit("./src/");
        reveal_strlit("/");
    }
    let mut out = to_chars("./src/");
    extend(&mut out, module);
    out.push('/');
    extend(&mut out, &trim_start_str_exec(p, &to_chars("./")));
    out
}

fn replace_first_exec(line: &[char], p: &[char], new: &[char]) -> (r: Vec<char>)
    ensures
        r@ == replace_first(line@, p@, new@),
{
    let n = line.len();
    match find_seq_from(line, p, 0) {
        Some(i) => {
            proof {
                lemma_find_from(line@, p@, 0);
            }
            assert(i + p@.len() <= n);
            let mut out = slice_vec(line, 0, i);
            assert(out@ =~= line@.take(i as int));
            extend(&mut out, new);
            let tail = slice_vec(line, i + p.len(), n);
            assert(tail@ =~= line@.skip(i + p@.len()));
            extend(&mut out, &tail);
            out
        },
        None => slice_vec(line, 0, n),
    }
}

fn migrate_line_exec(line: &[char], module: &[char], fixable: &[String]) -> (r: Vec<char>)
    ensures
        r@ == migrate_line(line@, module@, comps_view(fixable@)),
{
    match first_migrate_exec(line) {
        Some((a, b)) => {
            let p = slice_vec(line, a, b);
            if list_has(fixable, &p) {
                replace_first_exec(line, &p, &moved_migrations_exec(module, &p))
            } else {
                slice_vec(line, 0, line.len())
            }
        },
        None => slice_vec(line, 0, line.len()),
    }
}

/// See [`spec_fix_migrate_paths`]; `fixable` lists the directories (as
/// written) found under `src/<module>/` and not at the crate root.
pub fn fix_migrate_paths_text(src: &str, module: &str, fixable: &[String]) -> (r: String)
    ensures
        r@ == spec_fix_migrate_paths(src@, module@, comps_view(fixable@)),
{
    let ghost fx = comps_view(fixable@);
    let s = to_chars(src);
    let m = to_chars(module);
    let first: Vec<char> = match first_migrate_exec(&s) {
        Some((a, b)) => {
            let p = slice_vec(&s, a, b);
            if list_has(fixable, &p) {
                let mut out = slice_vec(&s, 0, a);
                assert(out@ =~= s@.take(a as int));
                extend(&mut out, &moved_migrations_exec(&m, &p));
                let tail = slice_vec(&s, b, s.len());
                assert(tail@ =~= s@.skip(b as int));
                extend(&mut out, &tail);
                out
            } else {
                s
            }
        },
        None => s,
    };
    assert(first@ == migrate_first_pass(src@, module@, fx));
    let ls = split_lines(&first);
    let ghost lv = crate::text::views(ls@);
    let ghost mapped = lv.map_values(|l: Seq<char>| migrate_line(l, module@, fx));
    let mut out: Vec<char> = Vec::new();
    let mut i: usize = 0;
    assert(mapped.take(0) =~= Seq::<Seq<char>>::empty());
    while i < ls.len()
        invariant
            i <= ls@.len(),
            lv == crate::text::views(ls@),
            lv.len() == ls@.len(),
            m@ == module@,
            fx == comps_view(fixable@),
            mapped == lv.map_values(|l: Seq<char>| migrate_line(l, module@, fx)),
            out@ == join_nl(mapped.take(i as int)),
        decreases ls@.len() - i,
    {
        assert(lv[i as int] == ls@[i as int]@);
        let line = migrate_line_exec(&ls[i], &m, fixable);
        assert(line@ == mapped[i as int]);
        let ghost before = out@;
        if i > 0 {
            out.push('\n');
        }
        extend(&mut out, &line);
        proof {
            let t = mapped.take(i + 1);
            assert(t.drop_last() =~= mapped.take(i as int));
            assert(t.last() == mapped[i as int]);
            if i == 0 {
                assert(join_nl(t) == t[0]);
                assert(out@ =~= line@);
            } else {
                assert(out@ =~= before + "\n"@ + line@) by {
                    reveal_strlit("\n");
                }
            }
        }
        i = i + 1;
    }
    assert(mapped.take(ls@.len() as int) =~= mapped);
    proof {
        assert(lv == lines(first@));
    }
    from_chars(&out)
}

/// The directory of each line's first `sqlx::migrate!` call, in order.
pub open spec fn line_migrate_paths(ls: Seq<Seq<char>>) -> Seq<Seq<char>>
    decreases ls.len(),
{
    if ls.len() == 0 {
        seq![]
    } else {
        let r = line_migrate_paths(ls.drop_last());
        match first_migrate(ls.last()) {
            Some((a, b)) => r.push(ls.last().subrange(a, b)),
            None => r,
        }
    }
}

/// The `sqlx::migrate!` directories [`spec_fix_migrate_paths`] may ask
/// about: that of the text's first call, then that of each line's first.
pub open spec fn spec_migrate_paths(src: Seq<char>) -> Seq<Seq<char>> {
    let head = match first_migrate(src) {
        Some((a, b)) => seq![src.subrange(a, b)],
        None => seq![],
    };
    head + line_migrate_paths(lines(src))
}

/// See [`spec_migrate_paths`].
pub fn migrate_paths(src: &str) -> (r: Vec<String>)
    ensures
        comps_view(r@) == spec_migrate_paths(src@),
{
    let s = to_chars(src);
    let mut out: Vec<String> = Vec::new();
    match first_migrate_exec(&s) {
        Some((a, b)) => {
            out.push(from_chars(&slice_vec(&s, a, b)));
        },
        None => {},
    }
    let ghost head = comps_view(out@);
    let ls = split_lines(&s);
    let ghost lv = crate::text::views(ls@);
    let mut i: usize = 0;
    assert(lv.take(0) =~= Seq::<Seq<char>>::empty());
    assert(comps_view(out@) =~= head + line_migrate_paths(lv.take(0)));
    while i < ls.len()
        invariant
            i <= ls@.len(),
            lv == crate::text::views(ls@),
            lv.len() == ls@.len(),
            comps_view(out@) == head + line_migrate_paths(lv.take(i as int)),
        decreases ls@.len() - i,
    {
        assert(lv[i as int] == ls@[i as int]@);
        assert(lv.take(i + 1).drop_last() =~= lv.take(i as int));
        assert(lv.take(i + 1).last() == lv[i as int]);
        match first_migrate_exec(&ls[i]) {
            Some((a, b)) => {
                let ghost before = comps_view(out@);
                out.push(from_chars(&slice_vec(&ls[i], a, b)));
                assert(comps_view(out@) =~= before.push(ls@[i as int]@.subrange(a as int, b as int)));
                assert(head + line_migrate_paths(lv.take(i as int)).push(ls@[i as int]@.subrange(a as int, b as int)) =~= (head + line_migrate_paths(lv.take(i as int))).push(ls@[i as int]@.subrange(a as int, b as int)));
            },
            None => {},
        }
        i = i + 1;
    }
    assert(lv.take(ls@.len() as int) =~= lv);
    out
}


// ---------------------------------------------------------------------------
// Paths into other crates of the source tree
// ---------------------------------------------------------------------------

/// The last `i' <= i` at which `p` occurs in `s`.
pub open spec fn rfind_at(s: Seq<char>, p: Seq<char>, i: int) -> Option<int>
    decreases i + 1,
{
    if i < 0 {
        None
    } else if crate::text::matches_at(s, i, p) {
        Some(i)
    } else {
        rfind_at(s, p, i - 1)
    }
}

/// `str::rfind` with a text pattern.
pub open spec fn rfind_seq(s: Seq<char>, p: Seq<char>) -> Option<int> {
    rfind_at(s, p, s.len() - p.len())
}

proof fn lemma_rfind_at(s: Seq<char>, p: Seq<char>, i: int)
    ensures
        rfind_at(s, p, i) matches Some(j) ==> 0 <= j <= i && crate::text::matches_at(s, j, p),
    decreases i + 1,
{
    if i >= 0 && !crate::text::matches_at(s, i, p) {
        lemma_rfind_at(s, p, i - 1);
    }
}

fn rfind_seq_exec(s: &[char], p: &[char]) -> (r: Option<usize>)
    ensures
        match r {
            Some(j) => rfind_seq(s@, p@) == Some(j as int),
            None => rfind_seq(s@, p@) is None,
        },
{
    if p.len() > s.len() {
        assert(rfind_at(s@, p@, s@.len() - p@.len()) is None);
        return None;
    }
    let mut i: usize = s.len() - p.len();
    loop
        invariant
            i <= s@.len() - p@.len(),
            rfind_seq(s@, p@) == rfind_at(s@, p@, i as int),
        decreases i,
    {
        if crate::text::match_at(s, i, p) {
            return Some(i);
        }
        if i == 0 {
            assert(rfind_at(s@, p@, -1) is None);
            return None;
        }
        i = i - 1;
    }
}

/// A path into another crate of the source tree (`codex-rs/<crate>/<path>`)
/// in an `include_str!` or `include_bytes!`: the span to replace (from
/// after the macro's opening quote to the end of the path), the crate's
/// module name, and the path inside that crate.
pub struct CrossCrateInclude {
    pub quote_start: usize,
    pub replace_end: usize,
    pub module: String,
    pub rel_path: String,
}

/// The first `codex-rs/` of the text, read as [`CrossCrateInclude`]: the
/// last `include_str!("` before it (else the last `include_bytes!("`)
/// opens the span; the path runs to the next `"` and must hold a `/` after
/// the crate's name. None when any of these is missing.
pub open spec fn spec_next_cross_crate(out: Seq<char>) -> Option<(int, int, Seq<char>, Seq<char>)> {
    match find(out, "codex-rs/"@) {
        None => None,
        Some(start) => {
            let prefix = out.take(start);
            let q = match rfind_seq(prefix, "include_str!(\""@) {
                Some(q) => Some(q),
                None => rfind_seq(prefix, "include_bytes!(\""@),
            };
            match q {
                None => None,
                Some(q) => match find_char(prefix.skip(q), '"') {
                    None => None,
                    Some(k) => {
                        let after = out.skip(start + 9);
                        match find_char(after, '"') {
                            None => None,
                            Some(end_rel) => {
                                let crate_dir = after.take(end_rel);
                                match find_char(crate_dir, '/') {
                                    None => None,
                                    Some(sl) => Some(
                                        (
                                            q + k + 1,
                                            start + 9 + end_rel,
                                            crate::rename::spec_crate_ident(crate_dir.take(sl)),
                                            crate::text::trim_start_char(crate_dir.skip(sl), '/'),
                                        ),
                                    ),
                                }
                            },
                        }
                    },
                },
            }
        },
    }
}

/// See [`spec_next_cross_crate`].
pub fn next_cross_crate_include(out: &str) -> (r: Option<CrossCrateInclude>)
    ensures
        match r {
            Some(c) => spec_next_cross_crate(out@) == Some(
                (c.quote_start as int, c.replace_end as int, c.module@, c.rel_path@),
            ),
            None => spec_next_cross_crate(out@) is None,
        },
{
    proof {
        reveal_strlit("codex-rs/");
    }
    let s = to_chars(out);
    let n = s.len();
    let start = match find_seq_from(&s, &to_chars("codex-rs/"), 0) {
        None => {
            return None;
        },
        Some(x) => x,
    };
    proof {
        lemma_find_from(s@, "codex-rs/"@, 0);
    }
    assert(start + 9 <= n);
    let prefix = slice_vec(&s, 0, start);
    assert(prefix@ =~= s@.take(start as int));
    let q = match rfind_seq_exec(&prefix, &to_chars("include_str!(\"")) {
        Some(q) => q,
        None => match rfind_seq_exec(&prefix, &to_chars("include_bytes!(\"")) {
            Some(q) => q,
            None => {
                return None;
            },
        },
    };
    proof {
        lemma_rfind_at(prefix@, "include_str!(\""@, prefix@.len() - "include_str!(\""@.len());
        lemma_rfind_at(prefix@, "include_bytes!(\""@, prefix@.len() - "include_bytes!(\""@.len());
    }
    assert(q <= start);
    let tailq = slice_vec(&prefix, q, prefix.len());
    assert(tailq@ =~= prefix@.skip(q as int));
    let k = match find_ch(&tailq, '"') {
        None => {
            return None;
        },
        Some(k) => k,
    };
    proof {
        lemma_find_from(tailq@, seq!['"'], 0);
    }
    assert(q + k + 1 <= start);
    let after = slice_vec(&s, start + 9, n);
    assert(after@ =~= s@.skip(start + 9));
    let end_rel = match find_ch(&after, '"') {
        None => {
            return None;
        },
        Some(e) => e,
    };
    proof {
        lemma_find_from(after@, seq!['"'], 0);
    }
    let crate_dir = slice_vec(&after, 0, end_rel);
    assert(crate_dir@ =~= after@.take(end_rel as int));
    let sl = match find_ch(&crate_dir, '/') {
        None => {
            return None;
        },
        Some(x) => x,
    };
    proof {
        lemma_find_from(crate_dir@, seq!['/'], 0);
    }
    let name = slice_vec(&crate_dir, 0, sl);
    assert(name@ =~= crate_dir@.take(sl as int));
    let rest = slice_vec(&crate_dir, sl, crate_dir.len());
    assert(rest@ =~= crate_dir@.skip(sl as int));
    let module = crate::rename::crate_ident(from_chars(&name).as_str());
    let rel = crate::text::trim_start_char_vec(&rest, '/');
    Some(
        CrossCrateInclude {
            quote_start: q + k + 1,
            replace_end: start + 9 + end_rel,
            module,
            rel_path: from_chars(&rel),
        },
    )
}

/// The text with `text[quote_start..replace_end]` replaced by `rel`; none
/// when the span does not lie in the text.
pub fn apply_cross_crate_include(out: &str, quote_start: usize, replace_end: usize, rel: &str) -> (r: Option<String>)
    ensures
        quote_start <= replace_end <= out@.len() ==> (r matches Some(t) && t@ == out@.take(quote_start as int)
            + rel@ + out@.skip(replace_end as int)),
        !(quote_start <= replace_end <= out@.len()) ==> r is None,
{
    let s = to_chars(out);
    if !(quote_start <= replace_end && replace_end <= s.len()) {
        return None;
    }
    let mut v = slice_vec(&s, 0, quote_start);
    assert(v@ =~= s@.take(quote_start as int));
    extend(&mut v, &to_chars(rel));
    let tail = slice_vec(&s, replace_end, s.len());
    assert(tail@ =~= s@.skip(replace_end as int));
    extend(&mut v, &tail);
    Some(from_chars(&v))
}

} // verus!
