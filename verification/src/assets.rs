//! Serving the embedded frontend build: path resolution, content types and
//! lookups in the table of embedded files.

use vstd::prelude::*;
use crate::text::{
    eq_lit, lemma_rfind_char_before, rfind_ch, rfind_char, rfind_char_before, seq_eq, slice_vec,
    to_chars,
};

verus! {

/// Scheme of the custom protocol the webview loads from.
pub const PROTOCOL_SCHEME: &'static str = "lemurclaw";

/// Host segment of the custom protocol URLs.
pub const PROTOCOL_HOST: &'static str = "app";

/// The URL the webview opens.
pub open spec fn spec_entry_url() -> Seq<char> {
    PROTOCOL_SCHEME@ + "://"@ + PROTOCOL_HOST@ + "/index.html"@
}

/// The URL the webview opens: `lemurclaw://app/index.html`.
pub fn entry_url() -> (r: String)
    ensures
        r@ == spec_entry_url(),
{
    let mut s = String::from_str(PROTOCOL_SCHEME);
    s.append("://");
    s.append(PROTOCOL_HOST);
    s.append("/index.html");
    s
}

/// The embedded files: each entry is a path relative to the build directory
/// (such as `index.html` or `assets/index-abc.js`) and the file's bytes.
pub struct AssetStore {
    pub files: Vec<(String, Vec<u8>)>,
}

/// The paths and contents of a file table, as plain values.
pub open spec fn entries_view(files: Seq<(String, Vec<u8>)>) -> Seq<(Seq<char>, Seq<u8>)> {
    files.map_values(|e: (String, Vec<u8>)| (e.0@, e.1@))
}

/// The contents of the first file stored under `path`.
pub open spec fn lookup(files: Seq<(Seq<char>, Seq<u8>)>, path: Seq<char>) -> Option<Seq<u8>>
    decreases files.len(),
{
    if files.len() == 0 {
        None
    } else if files[0].0 == path {
        Some(files[0].1)
    } else {
        lookup(files.drop_first(), path)
    }
}

impl AssetStore {
    pub open spec fn view(&self) -> Seq<(Seq<char>, Seq<u8>)> {
        entries_view(self.files@)
    }

    /// The bytes of the file at `rel_path` (relative to the build directory).
    pub fn dist_file(&self, rel_path: &str) -> (r: Option<&Vec<u8>>)
        ensures
            match r {
                Some(b) => lookup(self.view(), rel_path@) == Some(b@),
                None => lookup(self.view(), rel_path@) is None,
            },
    {
        let want = to_chars(rel_path);
        let mut i: usize = 0;
        assert(self.view().skip(0) =~= self.view());
        while i < self.files.len()
            invariant
                i <= self.files@.len(),
                want@ == rel_path@,
                lookup(self.view(), rel_path@) == lookup(self.view().skip(i as int), rel_path@),
            decreases self.files@.len() - i,
        {
            let ghost rest = self.view().skip(i as int);
            assert(rest[0] == (self.files@[i as int].0@, self.files@[i as int].1@));
            assert(rest.drop_first() =~= self.view().skip(i + 1));
            let name = to_chars(self.files[i].0.as_str());
            if seq_eq(&name, &want) {
                return Some(&self.files[i].1);
            }
            i = i + 1;
        }
        None
    }

    /// The files directly inside directory `rel_dir` (not in its
    /// subdirectories), as (file name, bytes) pairs in table order.
    pub fn dist_subdir_files(&self, rel_dir: &str) -> (r: Vec<(String, &Vec<u8>)>)
        ensures
            subdir_view(r@) == subdir_files(self.view(), rel_dir@),
    {
        let dir = to_chars(rel_dir);
        let mut out: Vec<(String, &Vec<u8>)> = Vec::new();
        let mut i: usize = 0;
        while i < self.files.len()
            invariant
                i <= self.files@.len(),
                dir@ == rel_dir@,
                subdir_view(out@) == subdir_files(self.view().take(i as int), rel_dir@),
            decreases self.files@.len() - i,
        {
            let path = to_chars(self.files[i].0.as_str());
            let ghost e = self.view()[i as int];
            assert(self.view().take(i + 1).drop_last() =~= self.view().take(i as int));
            assert(self.view().take(i + 1).last() == e);
            match file_in_dir(&path, &dir) {
                Some(name) => {
                    let ghost prev = subdir_view(out@);
                    out.push((crate::text::from_chars(&name), &self.files[i].1));
                    assert(subdir_view(out@) =~= prev.push((name@, e.1)));
                },
                None => {},
            }
            i = i + 1;
        }
        assert(self.view().take(self.files@.len() as int) =~= self.view());
        out
    }

    /// Resolves a URL path against the embedded files (see
    /// [`spec_serve_path`]).
    pub fn serve_path(&self, path: &str) -> (r: (u16, &'static str, Option<&Vec<u8>>))
        ensures
            (r.0, r.1@, match r.2 {
                Some(b) => Some(b@),
                None => None,
            }) == spec_serve_path(self.view(), path@),
    {
        let p = to_chars(path);
        let rel = strip_leading_slashes(&p);
        let rel = if rel.len() == 0 {
            to_chars("index.html")
        } else {
            rel
        };
        let rel_s = crate::text::from_chars(&rel);
        match self.dist_file(rel_s.as_str()) {
            Some(bytes) => (200, content_type_for(rel_s.as_str()), Some(bytes)),
            None => (404, "text/plain", None),
        }
    }
}

/// The (name, bytes) pairs of a directory listing.
pub open spec fn subdir_view(v: Seq<(String, &Vec<u8>)>) -> Seq<(Seq<char>, Seq<u8>)> {
    v.map_values(|e: (String, &Vec<u8>)| (e.0@, e.1@))
}

/// The file name of `path` if it lies directly inside `dir`: `path` is
/// `dir`, a `/`, and a name without `/`.
pub open spec fn name_in_dir(path: Seq<char>, dir: Seq<char>) -> Option<Seq<char>> {
    let name = path.skip(dir.len() + 1int);
    if path.len() > dir.len() + 1 && path.take(dir.len() as int) == dir && path[dir.len() as int]
        == '/' && !name.contains('/') {
        Some(name)
    } else {
        None
    }
}

/// The files directly inside `dir`, in table order.
pub open spec fn subdir_files(files: Seq<(Seq<char>, Seq<u8>)>, dir: Seq<char>) -> Seq<
    (Seq<char>, Seq<u8>),
>
    decreases files.len(),
{
    if files.len() == 0 {
        seq![]
    } else {
        let rest = subdir_files(files.drop_last(), dir);
        match name_in_dir(files.last().0, dir) {
            Some(name) => rest.push((name, files.last().1)),
            None => rest,
        }
    }
}

fn file_in_dir(path: &[char], dir: &[char]) -> (r: Option<Vec<char>>)
    ensures
        match r {
            Some(n) => name_in_dir(path@, dir@) == Some(n@),
            None => name_in_dir(path@, dir@) is None,
        },
{
    if path.len() <= dir.len() || path.len() - dir.len() < 2 {
        return None;
    }
    if !crate::text::match_at(path, 0, dir) || path[dir.len()] != '/' {
        proof {
            assert(path@.subrange(0, dir@.len() as int) =~= path@.take(dir@.len() as int));
        }
        return None;
    }
    assert(path@.subrange(0, dir@.len() as int) =~= path@.take(dir@.len() as int));
    let name = slice_vec(path, dir.len() + 1, path.len());
    assert(name@ =~= path@.skip(dir@.len() + 1int));
    let mut k: usize = 0;
    while k < name.len()
        invariant
            k <= name@.len(),
            name@ == path@.skip(dir@.len() + 1int),
            forall|j: int| 0 <= j < k ==> name@[j] != '/',
        decreases name@.len() - k,
    {
        if name[k] == '/' {
            assert(name@[k as int] == '/');
            assert(name@.contains('/'));
            assert(path@.skip(dir@.len() + 1int).contains('/'));
            return None;
        }
        k = k + 1;
    }
    Some(name)
}

/// `path` without its leading `/` characters.
pub open spec fn strip_leading_slashes_spec(p: Seq<char>) -> Seq<char>
    decreases p.len(),
{
    if p.len() > 0 && p[0] == '/' {
        strip_leading_slashes_spec(p.drop_first())
    } else {
        p
    }
}

fn strip_leading_slashes(p: &[char]) -> (r: Vec<char>)
    ensures
        r@ == strip_leading_slashes_spec(p@),
{
    let mut i: usize = 0;
    assert(p@.skip(0) =~= p@);
    while i < p.len() && p[i] == '/'
        invariant
            i <= p@.len(),
            strip_leading_slashes_spec(p@) == strip_leading_slashes_spec(p@.skip(i as int)),
        decreases p@.len() - i,
    {
        assert(p@.skip(i as int).drop_first() =~= p@.skip(i + 1));
        i = i + 1;
    }
    slice_vec(p, i, p.len())
}

/// What a request for URL path `path` is answered with: status, content type
/// and body. The leading `/` characters are dropped and an empty path means
/// `index.html`; a known file is served with status 200 and the content type
/// of its extension, anything else with status 404, `text/plain` and no body.
pub open spec fn spec_serve_path(files: Seq<(Seq<char>, Seq<u8>)>, path: Seq<char>) -> (
    u16,
    Seq<char>,
    Option<Seq<u8>>,
) {
    let stripped = strip_leading_slashes_spec(path);
    let rel = if stripped.len() == 0 {
        "index.html"@
    } else {
        stripped
    };
    match lookup(files, rel) {
        Some(b) => (200, spec_content_type(rel), Some(b)),
        None => (404, "text/plain"@, None),
    }
}

/// The part of `path` after its last `.` (all of `path` when it has none).
pub open spec fn extension(path: Seq<char>) -> Seq<char> {
    match rfind_char(path, '.') {
        Some(k) => path.skip(k + 1),
        None => path,
    }
}

/// The content type served for a file, chosen by its extension.
pub open spec fn spec_content_type(path: Seq<char>) -> Seq<char> {
    let e = extension(path);
    if e == "html"@ || e == "htm"@ {
        "text/html; charset=utf-8"@
    } else if e == "js"@ || e == "mjs"@ {
        "application/javascript; charset=utf-8"@
    } else if e == "css"@ {
        "text/css; charset=utf-8"@
    } else if e == "json"@ {
        "application/json; charset=utf-8"@
    } else if e == "svg"@ {
        "image/svg+xml"@
    } else if e == "png"@ {
        "image/png"@
    } else if e == "jpg"@ || e == "jpeg"@ {
        "image/jpeg"@
    } else if e == "gif"@ {
        "image/gif"@
    } else if e == "ico"@ {
        "image/x-icon"@
    } else if e == "woff"@ {
        "font/woff"@
    } else if e == "woff2"@ {
        "font/woff2"@
    } else if e == "ttf"@ {
        "font/ttf"@
    } else if e == "wasm"@ {
        "application/wasm"@
    } else if e == "map"@ {
        "application/json; charset=utf-8"@
    } else {
        "application/octet-stream"@
    }
}

/// A `.` at index `k` with no `.` after it is the last one.
proof fn lemma_last_dot(s: Seq<char>, k: int, upto: int)
    requires
        0 <= k < upto <= s.len(),
        s[k] == '.',
        forall|j: int| k < j < s.len() ==> s[j] != '.',
    ensures
        rfind_char_before(s, '.', upto) == Some(k),
    decreases upto,
{
    if upto - 1 != k {
        lemma_last_dot(s, k, upto - 1);
    }
}

/// The extension of `stem.ext` is `ext`, whatever the stem holds, as long as
/// `ext` has no `.` of its own.
pub proof fn lemma_extension_after_last_dot(stem: Seq<char>, ext: Seq<char>)
    requires
        !ext.contains('.'),
    ensures
        extension(stem + seq!['.'] + ext) == ext,
{
    let path = stem + seq!['.'] + ext;
    assert forall|j: int| stem.len() < j < path.len() implies path[j] != '.' by {
        assert(path[j] == ext[j - stem.len() - 1]);
    }
    lemma_last_dot(path, stem.len() as int, path.len() as int);
    assert(path.skip(stem.len() + 1int) =~= ext);
}

/// The table of content types: a file named `stem.ext`, with no `.` in `ext`,
/// is served with the type that its extension names, and with
/// `application/octet-stream` when the extension is not in the table.
pub proof fn lemma_content_type_table(stem: Seq<char>, ext: Seq<char>)
    requires
        !ext.contains('.'),
    ensures
        ({
            let t = spec_content_type(stem + seq!['.'] + ext);
            &&& (ext == seq!['h', 't', 'm', 'l'] || ext == seq!['h', 't', 'm'])
                ==> t == "text/html; charset=utf-8"@
            &&& (ext == seq!['j', 's'] || ext == seq!['m', 'j', 's'])
                ==> t == "application/javascript; charset=utf-8"@
            &&& ext == seq!['c', 's', 's'] ==> t == "text/css; charset=utf-8"@
            &&& ext == seq!['j', 's', 'o', 'n'] ==> t == "application/json; charset=utf-8"@
            &&& ext == seq!['s', 'v', 'g'] ==> t == "image/svg+xml"@
            &&& ext == seq!['p', 'n', 'g'] ==> t == "image/png"@
            &&& (ext == seq!['j', 'p', 'g'] || ext == seq!['j', 'p', 'e', 'g']) ==> t
                == "image/jpeg"@
            &&& ext == seq!['g', 'i', 'f'] ==> t == "image/gif"@
            &&& ext == seq!['i', 'c', 'o'] ==> t == "image/x-icon"@
            &&& ext == seq!['w', 'o', 'f', 'f'] ==> t == "font/woff"@
            &&& ext == seq!['w', 'o', 'f', 'f', '2'] ==> t == "font/woff2"@
            &&& ext == seq!['t', 't', 'f'] ==> t == "font/ttf"@
            &&& ext == seq!['w', 'a', 's', 'm'] ==> t == "application/wasm"@
            &&& ext == seq!['m', 'a', 'p'] ==> t == "application/json; charset=utf-8"@
            &&& !(seq![seq!['h', 't', 'm', 'l'], seq!['h', 't', 'm'], seq!['j', 's'], seq![
                'm',
                'j',
                's',
            ], seq!['c', 's', 's'], seq!['j', 's', 'o', 'n'], seq!['s', 'v', 'g'], seq![
                'p',
                'n',
                'g',
            ], seq!['j', 'p', 'g'], seq!['j', 'p', 'e', 'g'], seq!['g', 'i', 'f'], seq![
                'i',
                'c',
                'o',
            ], seq!['w', 'o', 'f', 'f'], seq!['w', 'o', 'f', 'f', '2'], seq!['t', 't', 'f'], seq![
                'w',
                'a',
                's',
                'm',
            ], seq!['m', 'a', 'p']].contains(ext)) ==> t == "application/octet-stream"@
        }),
{
    lemma_extension_after_last_dot(stem, ext);
    reveal_strlit("html");
    reveal_strlit("htm");
    reveal_strlit("js");
    reveal_strlit("mjs");
    reveal_strlit("css");
    reveal_strlit("json");
    reveal_strlit("svg");
    reveal_strlit("png");
    reveal_strlit("jpg");
    reveal_strlit("jpeg");
    reveal_strlit("gif");
    reveal_strlit("ico");
    reveal_strlit("woff");
    reveal_strlit("woff2");
    reveal_strlit("ttf");
    reveal_strlit("wasm");
    reveal_strlit("map");
    let table = seq![seq!['h', 't', 'm', 'l'], seq!['h', 't', 'm'], seq!['j', 's'], seq![
        'm',
        'j',
        's',
    ], seq!['c', 's', 's'], seq!['j', 's', 'o', 'n'], seq!['s', 'v', 'g'], seq!['p', 'n', 'g'], seq![
        'j',
        'p',
        'g',
    ], seq!['j', 'p', 'e', 'g'], seq!['g', 'i', 'f'], seq!['i', 'c', 'o'], seq![
        'w',
        'o',
        'f',
        'f',
    ], seq!['w', 'o', 'f', 'f', '2'], seq!['t', 't', 'f'], seq!['w', 'a', 's', 'm'], seq![
        'm',
        'a',
        'p',
    ]];
    assert("html"@ =~= table[0]);
    assert("htm"@ =~= table[1]);
    assert("js"@ =~= table[2]);
    assert("mjs"@ =~= table[3]);
    assert("css"@ =~= table[4]);
    assert("json"@ =~= table[5]);
    assert("svg"@ =~= table[6]);
    assert("png"@ =~= table[7]);
    assert("jpg"@ =~= table[8]);
    assert("jpeg"@ =~= table[9]);
    assert("gif"@ =~= table[10]);
    assert("ico"@ =~= table[11]);
    assert("woff"@ =~= table[12]);
    assert("woff2"@ =~= table[13]);
    assert("ttf"@ =~= table[14]);
    assert("wasm"@ =~= table[15]);
    assert("map"@ =~= table[16]);
}

/// A request for `/dir/name.png` (any stored file whose name ends in `.png`)
/// is answered with status 200, content type `image/png` and the stored bytes.
pub proof fn lemma_serve_png(files: Seq<(Seq<char>, Seq<u8>)>, stem: Seq<char>, bytes: Seq<u8>)
    requires
        stem.len() > 0,
        stem[0] != '/',
        lookup(files, stem + ".png"@) == Some(bytes),
    ensures
        spec_serve_path(files, seq!['/'] + stem + ".png"@) == (
            200u16,
            "image/png"@,
            Some(bytes),
        ),
{
    reveal_strlit(".png");
    let rel = stem + ".png"@;
    let path = seq!['/'] + rel;
    assert(path =~= seq!['/'] + stem + ".png"@);
    assert(path.drop_first() =~= rel);
    assert(rel[0] == stem[0]);
    assert(strip_leading_slashes_spec(rel) == rel);
    assert(strip_leading_slashes_spec(path) == rel);
    assert(rel =~= stem + seq!['.'] + seq!['p', 'n', 'g']);
    lemma_content_type_table(stem, seq!['p', 'n', 'g']);
}

/// A request for `/rel` (with `rel` not empty and not starting with `/`)
/// is answered from the file stored under `rel`: status 200, the content
/// type of its extension and its bytes; a name that is not stored gets 404,
/// `text/plain` and no body. A request for `/` is one for `index.html`.
pub proof fn lemma_serve_path_lookup(files: Seq<(Seq<char>, Seq<u8>)>, rel: Seq<char>)
    requires
        rel.len() > 0,
        rel[0] != '/',
    ensures
        lookup(files, rel) matches Some(b) ==> spec_serve_path(files, seq!['/'] + rel) == (
            200u16,
            spec_content_type(rel),
            Some(b),
        ),
        lookup(files, rel) is None ==> spec_serve_path(files, seq!['/'] + rel) == (
            404u16,
            seq!['t', 'e', 'x', 't', '/', 'p', 'l', 'a', 'i', 'n'],
            None::<Seq<u8>>,
        ),
        spec_serve_path(files, seq!['/']) == spec_serve_path(files, seq!['/'] + "index.html"@),
{
    reveal_strlit("text/plain");
    reveal_strlit("index.html");
    let path = seq!['/'] + rel;
    assert(path.drop_first() =~= rel);
    assert(strip_leading_slashes_spec(rel) == rel);
    assert(strip_leading_slashes_spec(path) == rel);
    assert("text/plain"@ =~= seq!['t', 'e', 'x', 't', '/', 'p', 'l', 'a', 'i', 'n']);
    let ix = "index.html"@;
    let pix = seq!['/'] + ix;
    assert(pix.drop_first() =~= ix);
    assert(strip_leading_slashes_spec(ix) == ix);
    assert(strip_leading_slashes_spec(pix) == ix);
    assert(seq!['/'].drop_first() =~= Seq::<char>::empty());
    assert(strip_leading_slashes_spec(Seq::<char>::empty()) == Seq::<char>::empty());
    assert(strip_leading_slashes_spec(seq!['/']) == strip_leading_slashes_spec(
        Seq::<char>::empty(),
    ));
}

/// The content type of a file, from its extension; unknown extensions are
/// `application/octet-stream`.
pub fn content_type_for(path: &str) -> (r: &'static str)
    ensures
        r@ == spec_content_type(path@),
{
    let p = to_chars(path);
    let e = match rfind_ch(&p, '.') {
        Some(k) => {
            proof {
                lemma_rfind_char_before(p@, '.', p@.len() as int);
            }
            slice_vec(&p, k + 1, p.len())
        },
        None => p,
    };
    assert(e@ =~= extension(path@));
    if eq_lit(&e, "html") || eq_lit(&e, "htm") {
        "text/html; charset=utf-8"
    } else if eq_lit(&e, "js") || eq_lit(&e, "mjs") {
        "application/javascript; charset=utf-8"
    } else if eq_lit(&e, "css") {
        "text/css; charset=utf-8"
    } else if eq_lit(&e, "json") {
        "application/json; charset=utf-8"
    } else if eq_lit(&e, "svg") {
        "image/svg+xml"
    } else if eq_lit(&e, "png") {
        "image/png"
    } else if eq_lit(&e, "jpg") || eq_lit(&e, "jpeg") {
        "image/jpeg"
    } else if eq_lit(&e, "gif") {
        "image/gif"
    } else if eq_lit(&e, "ico") {
        "image/x-icon"
    } else if eq_lit(&e, "woff") {
        "font/woff"
    } else if eq_lit(&e, "woff2") {
        "font/woff2"
    } else if eq_lit(&e, "ttf") {
        "font/ttf"
    } else if eq_lit(&e, "wasm") {
        "application/wasm"
    } else if eq_lit(&e, "map") {
        "application/json; charset=utf-8"
    } else {
        "application/octet-stream"
    }
}

} // verus!
