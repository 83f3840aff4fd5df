//! The size probe of the release checks: which crates are measured, where
//! their directories are looked for, and the crates.io size limit they are
//! held to.

use vstd::prelude::*;
use crate::manifest::{rename_with, spec_rename_package};
use crate::text::{extend, find_from, find_seq_from, from_chars, lemma_find_from, slice_vec, to_chars};

verus! {

/// The crates.io limit on a compressed `.crate` file: 10 MiB.
pub const CRATES_IO_SIZE_LIMIT_BYTES: u64 = 10485760;

/// The crates measured by the size probe, the largest of the workspace.
pub open spec fn spec_largest_crates() -> Seq<Seq<char>> {
    seq![
        "codex-core"@,
        "codex-tui"@,
        "codex-app-server"@,
        "codex-app-server-protocol"@,
        "codex-exec-server"@,
    ]
}

/// See [`spec_largest_crates`].
pub fn largest_crates() -> (r: Vec<&'static str>)
    ensures
        r@.map_values(|s: &str| s@) == spec_largest_crates(),
{
    let v = vec!["codex-core", "codex-tui", "codex-app-server", "codex-app-server-protocol", "codex-exec-server"];
    assert(v@.map_values(|s: &str| s@) =~= spec_largest_crates());
    v
}

/// Whether a compressed size is within the crates.io limit.
pub fn fits_size_limit(crate_bytes: u64) -> (r: bool)
    ensures
        r == (crate_bytes <= 10485760),
{
    crate_bytes <= CRATES_IO_SIZE_LIMIT_BYTES
}

/// A crate's name without its `codex-` prefix.
pub open spec fn dir_suffix(crate_name: Seq<char>) -> Seq<char> {
    if crate::text::starts_with(crate_name, "codex-"@) {
        crate_name.skip(6)
    } else {
        crate_name
    }
}

/// Where a crate's directory is looked for, in order, relative to the
/// workspace root: its name without `codex-`, then that name under
/// `utils/`, `ext/` and `memories/`.
pub open spec fn spec_crate_dir_candidates(crate_name: Seq<char>) -> Seq<Seq<char>> {
    let s = dir_suffix(crate_name);
    seq![s, "utils/"@ + s, "ext/"@ + s, "memories/"@ + s]
}

fn under(dir: &str, s: &[char]) -> (r: String)
    ensures
        r@ == dir@ + "/"@ + s@,
{
    proof {
        reveal_strlit("/");
    }
    let mut v = to_chars(dir);
    v.push('/');
    extend(&mut v, s);
    from_chars(&v)
}

/// See [`spec_crate_dir_candidates`].
pub fn crate_dir_candidates(crate_name: &str) -> (r: Vec<String>)
    ensures
        r@.map_values(|s: String| s@) == spec_crate_dir_candidates(crate_name@),
{
    proof {
        reveal_strlit("codex-");
        reveal_strlit("utils");
        reveal_strlit("ext");
        reveal_strlit("memories");
        reveal_strlit("utils/");
        reveal_strlit("ext/");
        reveal_strlit("memories/");
        reveal_strlit("");
    }
    let s = rename_with(&to_chars(crate_name), "codex-", "");
    assert(s@ =~= dir_suffix(crate_name@));
    proof {
        reveal_strlit("/");
        assert("utils"@ + "/"@ =~= "utils/"@);
        assert("ext"@ + "/"@ =~= "ext/"@);
        assert("memories"@ + "/"@ =~= "memories/"@);
    }
    let v = vec![from_chars(&s), under("utils", &s), under("ext", &s), under("memories", &s)];
    assert(v@.map_values(|x: String| x@) =~= spec_crate_dir_candidates(crate_name@));
    v
}

/// The text of `"name":"<crate>"` in `cargo metadata` output.
pub open spec fn name_marker(crate_name: Seq<char>) -> Seq<char> {
    "\"name\":\""@ + crate_name + "\""@
}

/// The key that opens a manifest path in `cargo metadata` output.
pub open spec fn manifest_key() -> Seq<char> {
    "\"manifest_path\":\""@
}

/// The manifest path of a crate read from the text of `cargo metadata`
/// output: after the first `"name":"<crate>"`, the string that follows the
/// next `"manifest_path":"`, up to the next `"`; none when one of the three
/// is missing.
pub open spec fn spec_manifest_path_after_name(json: Seq<char>, crate_name: Seq<char>) -> Option<Seq<char>> {
    match find_from(json, name_marker(crate_name), 0) {
        Some(pos) => match find_from(json, manifest_key(), pos) {
            Some(mp) => {
                let start = mp + manifest_key().len();
                match find_from(json, "\""@, start) {
                    Some(end) => Some(json.subrange(start, end)),
                    None => None,
                }
            },
            None => None,
        },
        None => None,
    }
}

/// See [`spec_manifest_path_after_name`].
pub fn manifest_path_after_name(json: &str, crate_name: &str) -> (r: Option<String>)
    ensures
        match r {
            Some(p) => spec_manifest_path_after_name(json@, crate_name@) == Some(p@),
            None => spec_manifest_path_after_name(json@, crate_name@) is None,
        },
{
    proof {
        reveal_strlit("\"name\":\"");
        reveal_strlit("\"");
    }
    let j = to_chars(json);
    let jn = j.len();
    let mut marker = to_chars("\"name\":\"");
    extend(&mut marker, &to_chars(crate_name));
    marker.push('"');
    assert(marker@ =~= name_marker(crate_name@));
    let key = to_chars("\"manifest_path\":\"");
    let quote = to_chars("\"");
    let pos = match find_seq_from(&j, &marker, 0) {
        Some(p) => p,
        None => {
            return None;
        },
    };
    let mp = match find_seq_from(&j, &key, pos) {
        Some(m) => m,
        None => {
            return None;
        },
    };
    proof {
        lemma_find_from(j@, key@, pos as int);
    }
    assert(mp + key@.len() <= jn);
    let start = mp + key.len();
    let end = match find_seq_from(&j, &quote, start) {
        Some(e) => e,
        None => {
            return None;
        },
    };
    proof {
        lemma_find_from(j@, quote@, start as int);
    }
    Some(from_chars(&slice_vec(&j, start, end)))
}

} // verus!
