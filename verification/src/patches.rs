//! The `[patch.*]` sections of a workspace manifest: the patched keys, and
//! the manifest with every patch entry commented out (to check whether the
//! workspace still builds without them).

use vstd::prelude::*;
use crate::text::{
    extend, extend_lit, find_ch, lemma_find_from, find_char, from_chars, lines, slice_vec, split_lines, starts_lit,
    starts_with, to_chars, trim, trim_vec, views,
};

verus! {

/// A patched dependency: its key and the index of its line.
pub struct PatchEntry {
    pub key: String,
    pub line_idx: usize,
}

/// Whether the lines after `line` are in a `[patch...]` section, when
/// `in_patch` says so of the lines before it.
pub open spec fn patch_state(in_patch: bool, line: Seq<char>) -> bool {
    let t = trim(line);
    if starts_with(t, "["@) {
        starts_with(t, "[patch"@)
    } else {
        in_patch
    }
}

/// A body line of a patch section holds an entry: not blank, not a comment.
pub open spec fn is_patch_entry(in_patch: bool, line: Seq<char>) -> bool {
    let t = trim(line);
    !starts_with(t, "["@) && in_patch && t.len() > 0 && !starts_with(t, "#"@)
}

/// The key of an entry line: what stands before its first `=`, trimmed;
/// none when the line has no `=`.
pub open spec fn patch_key(line: Seq<char>) -> Option<Seq<char>> {
    let t = trim(line);
    match find_char(t, '=') {
        Some(eq) => Some(trim(t.take(eq))),
        None => None,
    }
}

/// The section state after the first `k` lines, and the entries found in
/// them (key, line index).
pub open spec fn patch_scan(ls: Seq<Seq<char>>, k: int) -> (bool, Seq<(Seq<char>, int)>)
    decreases k,
{
    if k <= 0 {
        (false, seq![])
    } else {
        let (in_patch, found) = patch_scan(ls, k - 1);
        let l = ls[k - 1];
        let found2 = if is_patch_entry(in_patch, l) {
            match patch_key(l) {
                Some(key) => found.push((key, k - 1)),
                None => found,
            }
        } else {
            found
        };
        (patch_state(in_patch, l), found2)
    }
}

pub open spec fn entries_view(v: Seq<PatchEntry>) -> Seq<(Seq<char>, int)> {
    v.map_values(|e: PatchEntry| (e.key@, e.line_idx as int))
}

/// The entries of the `[patch...]` sections, in order (see [`patch_scan`]).
pub fn extract_patch_entries(manifest: &str) -> (r: Vec<PatchEntry>)
    ensures
        entries_view(r@) == patch_scan(lines(manifest@), lines(manifest@).len() as int).1,
{
    let ls = split_lines(&to_chars(manifest));
    let ghost lv = views(ls@);
    let mut out: Vec<PatchEntry> = Vec::new();
    let mut in_patch = false;
    let mut i: usize = 0;
    while i < ls.len()
        invariant
            i <= ls@.len(),
            lv == views(ls@),
            lv == lines(manifest@),
            (in_patch, entries_view(out@)) == patch_scan(lv, i as int),
        decreases ls@.len() - i,
    {
        let l = &ls[i];
        assert(lv[i as int] == l@);
        let t = trim_vec(l);
        if starts_lit(&t, "[") {
            in_patch = starts_lit(&t, "[patch");
        } else {
            if in_patch && t.len() > 0 && !starts_lit(&t, "#") {
                match find_ch(&t, '=') {
                    Some(eq) => {
                        proof {
                            lemma_find_from(t@, seq!['='], 0);
                        }
                        let key = trim_vec(&slice_vec(&t, 0, eq));
                        assert(t@.subrange(0, eq as int) =~= t@.take(eq as int));
                        let ghost prev = out@;
                        out.push(PatchEntry { key: from_chars(&key), line_idx: i });
                        assert(entries_view(out@) =~= entries_view(prev).push((key@, i as int)));
                    },
                    None => {},
                }
            }
        }
        i = i + 1;
    }
    out
}

/// The marker put before a commented-out patch entry.
pub open spec fn disabled_marker() -> Seq<char> {
    "# [xtask-disabled] "@
}

/// The manifest with each entry line of a `[patch...]` section commented
/// out; every line ends with a newline.
pub open spec fn commented(ls: Seq<Seq<char>>, k: int) -> (bool, Seq<char>)
    decreases k,
{
    if k <= 0 {
        (false, seq![])
    } else {
        let (in_patch, out) = commented(ls, k - 1);
        let l = ls[k - 1];
        let add = if is_patch_entry(in_patch, l) {
            disabled_marker() + l + "\n"@
        } else {
            l + "\n"@
        };
        (patch_state(in_patch, l), out + add)
    }
}

/// See [`commented`].
pub fn comment_out_patches(manifest: &str) -> (r: String)
    ensures
        r@ == commented(lines(manifest@), lines(manifest@).len() as int).1,
{
    let ls = split_lines(&to_chars(manifest));
    let ghost lv = views(ls@);
    let mut out: Vec<char> = Vec::new();
    let mut in_patch = false;
    let mut i: usize = 0;
    while i < ls.len()
        invariant
            i <= ls@.len(),
            lv == views(ls@),
            lv == lines(manifest@),
            (in_patch, out@) == commented(lv, i as int),
        decreases ls@.len() - i,
    {
        let l = &ls[i];
        assert(lv[i as int] == l@);
        let ghost o = out@;
        let t = trim_vec(l);
        if starts_lit(&t, "[") {
            in_patch = starts_lit(&t, "[patch");
            extend(&mut out, l);
            extend_lit(&mut out, "\n");
            assert(out@ =~= o + (l@ + "\n"@));
        } else {
            if in_patch && t.len() > 0 && !starts_lit(&t, "#") {
                extend_lit(&mut out, "# [xtask-disabled] ");
                extend(&mut out, l);
                extend_lit(&mut out, "\n");
                assert(out@ =~= o + (disabled_marker() + l@ + "\n"@));
            } else {
                extend(&mut out, l);
                extend_lit(&mut out, "\n");
                assert(out@ =~= o + (l@ + "\n"@));
            }
        }
        i = i + 1;
    }
    from_chars(&out)
}

} // verus!
