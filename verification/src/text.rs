//! Character-sequence helpers shared by the text rewriters.
//!
//! Text is handled as a sequence of Unicode scalar values: `&str` arguments are
//! turned into `Vec<char>` with [`to_chars`], processed index by index, and
//! turned back into a `String` with [`from_chars`].

use vstd::prelude::*;
use vstd::std_specs::iter::IteratorSpec;

verus! {

// ---------------------------------------------------------------------------
// Character classes
// ---------------------------------------------------------------------------

/// `char::is_whitespace`: the Unicode `White_Space` property.
pub open spec fn is_ws(c: char) -> bool {
    let u = c as u32;
    ||| 9 <= u <= 13
    ||| u == 32
    ||| u == 0x85
    ||| u == 0xA0
    ||| u == 0x1680
    ||| 0x2000 <= u <= 0x200A
    ||| u == 0x2028
    ||| u == 0x2029
    ||| u == 0x202F
    ||| u == 0x205F
    ||| u == 0x3000
}

/// `char::is_ascii_alphanumeric`.
pub open spec fn is_alnum(c: char) -> bool {
    let u = c as u32;
    ||| 48 <= u <= 57
    ||| 65 <= u <= 90
    ||| 97 <= u <= 122
}

/// A character that may appear in a Rust identifier or a bare TOML key
/// (ASCII letters, digits and `_`).
pub open spec fn is_ident_char(c: char) -> bool {
    is_alnum(c) || c == '_'
}

pub fn ws(c: char) -> (r: bool)
    ensures
        r == is_ws(c),
{
    let u = c as u32;
    (9 <= u && u <= 13) || u == 32 || u == 0x85 || u == 0xA0 || u == 0x1680 || (0x2000 <= u && u
        <= 0x200A) || u == 0x2028 || u == 0x2029 || u == 0x202F || u == 0x205F || u == 0x3000
}

pub fn alnum(c: char) -> (r: bool)
    ensures
        r == is_alnum(c),
{
    let u = c as u32;
    (48 <= u && u <= 57) || (65 <= u && u <= 90) || (97 <= u && u <= 122)
}

pub fn ident_char(c: char) -> (r: bool)
    ensures
        r == is_ident_char(c),
{
    alnum(c) || c == '_'
}

// ---------------------------------------------------------------------------
// Conversions between `str` and character vectors
// ---------------------------------------------------------------------------

/// Appends one character to a `String` (std's `String::push`).
#[verifier::external_body]
pub fn push_char(s: &mut String, c: char)
    ensures
        final(s)@ == old(s)@.push(c),
{
    s.push(c);
}

/// The characters of `s`, in order.
pub fn to_chars(s: &str) -> (r: Vec<char>)
    ensures
        r@ == s@,
{
    let mut out: Vec<char> = Vec::new();
    let chars_it = s.chars();
    for c in it: chars_it
        invariant
            out@ == it.seq().take(it.index() as int),
            it.seq() == s@,
    {
        out.push(c);
    }
    out
}

/// A `String` holding exactly the given characters.
pub fn from_chars(v: &[char]) -> (r: String)
    ensures
        r@ == v@,
{
    let mut out = String::new();
    let mut i: usize = 0;
    while i < v.len()
        invariant
            i <= v@.len(),
            out@ == v@.take(i as int),
        decreases v@.len() - i,
    {
        push_char(&mut out, v[i]);
        assert(v@.take(i as int).push(v@[i as int]) =~= v@.take(i + 1));
        i = i + 1;
    }
    assert(v@.take(v@.len() as int) =~= v@);
    out
}

/// Appends `src` to `dst`.
pub fn extend(dst: &mut Vec<char>, src: &[char])
    ensures
        final(dst)@ == old(dst)@ + src@,
{
    let mut i: usize = 0;
    while i < src.len()
        invariant
            i <= src@.len(),
            dst@ == old(dst)@ + src@.take(i as int),
        decreases src@.len() - i,
    {
        dst.push(src[i]);
        assert(old(dst)@ + src@.take(i as int) + seq![src@[i as int]] =~= old(dst)@ + src@.take(
            i + 1,
        ));
        i = i + 1;
    }
    assert(src@.take(src@.len() as int) =~= src@);
}

/// The characters `s[lo..hi]` as a new vector.
pub fn slice_vec(s: &[char], lo: usize, hi: usize) -> (r: Vec<char>)
    requires
        lo <= hi <= s@.len(),
    ensures
        r@ == s@.subrange(lo as int, hi as int),
{
    let mut out: Vec<char> = Vec::new();
    let mut i = lo;
    while i < hi
        invariant
            lo <= i <= hi <= s@.len(),
            out@ == s@.subrange(lo as int, i as int),
        decreases hi - i,
    {
        out.push(s[i]);
        assert(s@.subrange(lo as int, i as int).push(s@[i as int]) =~= s@.subrange(
            lo as int,
            i + 1,
        ));
        i = i + 1;
    }
    out
}

// ---------------------------------------------------------------------------
// Prefixes, suffixes and matching
// ---------------------------------------------------------------------------

/// `p` occurs in `s` starting at index `i`.
pub open spec fn matches_at(s: Seq<char>, i: int, p: Seq<char>) -> bool {
    0 <= i && i + p.len() <= s.len() && s.subrange(i, i + p.len()) == p
}

pub open spec fn starts_with(s: Seq<char>, p: Seq<char>) -> bool {
    matches_at(s, 0, p)
}

pub open spec fn ends_with(s: Seq<char>, p: Seq<char>) -> bool {
    matches_at(s, s.len() - p.len(), p)
}

/// Exec form of [`matches_at`].
pub fn match_at(s: &[char], i: usize, p: &[char]) -> (r: bool)
    ensures
        r == matches_at(s@, i as int, p@),
{
    if i > s.len() || p.len() > s.len() - i {
        return false;
    }
    let mut k: usize = 0;
    let n = s.len();
    while k < p.len()
        invariant
            n == s@.len(),
            i <= s@.len(),
            i + p@.len() <= s@.len(),
            k <= p@.len(),
            forall|j: int| 0 <= j < k ==> s@[i + j] == p@[j],
        decreases p@.len() - k,
    {
        if s[i + k] != p[k] {
            assert(s@.subrange(i as int, i + p@.len())[k as int] != p@[k as int]);
            return false;
        }
        k = k + 1;
    }
    assert(s@.subrange(i as int, i + p@.len()) =~= p@);
    true
}

pub fn has_prefix(s: &[char], p: &[char]) -> (r: bool)
    ensures
        r == starts_with(s@, p@),
{
    match_at(s, 0, p)
}

pub fn has_suffix(s: &[char], p: &[char]) -> (r: bool)
    ensures
        r == ends_with(s@, p@),
{
    if p.len() > s.len() {
        false
    } else {
        match_at(s, s.len() - p.len(), p)
    }
}

/// Matching at `i` is a prefix test on the suffix from `i`.
pub proof fn lemma_starts_skip(s: Seq<char>, i: int, p: Seq<char>)
    requires
        0 <= i <= s.len(),
    ensures
        starts_with(s.skip(i), p) == matches_at(s, i, p),
{
    if i + p.len() <= s.len() {
        assert(s.skip(i).subrange(0, p.len() as int) =~= s.subrange(i, i + p.len()));
    }
}

// ---------------------------------------------------------------------------
// Searching
// ---------------------------------------------------------------------------

/// Index of the first occurrence of `p` in `s` at or after `from`
/// (`str::find` when `from` is 0).
pub open spec fn find_from(s: Seq<char>, p: Seq<char>, from: int) -> Option<int>
    decreases s.len() + 1 - from,
{
    if from < 0 || from + p.len() > s.len() {
        None
    } else if matches_at(s, from, p) {
        Some(from)
    } else {
        find_from(s, p, from + 1)
    }
}

pub open spec fn find(s: Seq<char>, p: Seq<char>) -> Option<int> {
    find_from(s, p, 0)
}

pub open spec fn contains(s: Seq<char>, p: Seq<char>) -> bool {
    find(s, p) is Some
}

/// What `find_from` returns, stated directly.
pub proof fn lemma_find_from(s: Seq<char>, p: Seq<char>, from: int)
    requires
        0 <= from,
    ensures
        find_from(s, p, from) matches Some(i) ==> from <= i && matches_at(s, i, p) && forall|
            j: int,
        |
            from <= j < i ==> !matches_at(s, j, p),
        find_from(s, p, from) is None ==> forall|j: int| from <= j ==> !matches_at(s, j, p),
    decreases s.len() + 1 - from,
{
    if from + p.len() > s.len() {
    } else if matches_at(s, from, p) {
    } else {
        lemma_find_from(s, p, from + 1);
    }
}

/// Exec form of [`find_from`].
pub fn find_seq_from(s: &[char], p: &[char], from: usize) -> (r: Option<usize>)
    ensures
        r matches Some(i) ==> find_from(s@, p@, from as int) == Some(i as int),
        r is None ==> find_from(s@, p@, from as int) is None,
{
    let mut i = from;
    while i <= s.len() && p.len() <= s.len() - i
        invariant
            from <= i,
            find_from(s@, p@, from as int) == find_from(s@, p@, i as int),
        decreases s@.len() + 1 - i,
    {
        if match_at(s, i, p) {
            return Some(i);
        }
        if i == s.len() {
            assert(s@.subrange(i as int, i as int) =~= p@);
            return None;
        }
        i = i + 1;
    }
    None
}

pub fn find_seq(s: &[char], p: &[char]) -> (r: Option<usize>)
    ensures
        r matches Some(i) ==> find(s@, p@) == Some(i as int),
        r is None ==> find(s@, p@) is None,
{
    find_seq_from(s, p, 0)
}

pub fn contains_seq(s: &[char], p: &[char]) -> (r: bool)
    ensures
        r == contains(s@, p@),
{
    find_seq(s, p).is_some()
}

/// Index of the first occurrence of character `c` (`str::find(char)`).
pub open spec fn find_char(s: Seq<char>, c: char) -> Option<int> {
    find(s, seq![c])
}

/// Index of the last occurrence of `c` before `upto` (`str::rfind(char)` when
/// `upto` is the length).
pub open spec fn rfind_char_before(s: Seq<char>, c: char, upto: int) -> Option<int>
    decreases upto,
{
    if upto <= 0 || upto > s.len() {
        None
    } else if s[upto - 1] == c {
        Some(upto - 1)
    } else {
        rfind_char_before(s, c, upto - 1)
    }
}

pub open spec fn rfind_char(s: Seq<char>, c: char) -> Option<int> {
    rfind_char_before(s, c, s.len() as int)
}

pub proof fn lemma_rfind_char_before(s: Seq<char>, c: char, upto: int)
    requires
        0 <= upto <= s.len(),
    ensures
        rfind_char_before(s, c, upto) matches Some(i) ==> 0 <= i < upto && s[i] == c && forall|
            j: int,
        |
            i < j < upto ==> s[j] != c,
        rfind_char_before(s, c, upto) is None ==> forall|j: int| 0 <= j < upto ==> s[j] != c,
    decreases upto,
{
    if upto > 0 && s[upto - 1] != c {
        lemma_rfind_char_before(s, c, upto - 1);
    }
}

pub fn rfind_ch(s: &[char], c: char) -> (r: Option<usize>)
    ensures
        r matches Some(i) ==> rfind_char(s@, c) == Some(i as int),
        r is None ==> rfind_char(s@, c) is None,
{
    let mut upto = s.len();
    while upto > 0
        invariant
            upto <= s@.len(),
            rfind_char(s@, c) == rfind_char_before(s@, c, upto as int),
        decreases upto,
    {
        if s[upto - 1] == c {
            return Some(upto - 1);
        }
        upto = upto - 1;
    }
    None
}

pub fn find_ch(s: &[char], c: char) -> (r: Option<usize>)
    ensures
        r matches Some(i) ==> find_char(s@, c) == Some(i as int),
        r is None ==> find_char(s@, c) is None,
{
    let mut i: usize = 0;
    while i < s.len()
        invariant
            i <= s@.len(),
            find_char(s@, c) == find_from(s@, seq![c], i as int),
        decreases s@.len() - i,
    {
        if s[i] == c {
            assert(s@.subrange(i as int, i + 1) =~= seq![c]);
            return Some(i);
        }
        assert(s@.subrange(i as int, i + 1)[0] != c);
        i = i + 1;
    }
    None
}

// ---------------------------------------------------------------------------
// Trimming
// ---------------------------------------------------------------------------

/// Number of leading whitespace characters.
pub open spec fn lead_ws(s: Seq<char>) -> nat
    decreases s.len(),
{
    if s.len() > 0 && is_ws(s[0]) {
        1 + lead_ws(s.drop_first())
    } else {
        0
    }
}

/// Number of trailing whitespace characters.
pub open spec fn trail_ws(s: Seq<char>) -> nat
    decreases s.len(),
{
    if s.len() > 0 && is_ws(s.last()) {
        1 + trail_ws(s.drop_last())
    } else {
        0
    }
}

/// `str::trim_start`.
pub open spec fn trim_start(s: Seq<char>) -> Seq<char> {
    s.skip(lead_ws(s) as int)
}

/// `str::trim_end`.
pub open spec fn trim_end(s: Seq<char>) -> Seq<char> {
    s.take(s.len() - trail_ws(s))
}

/// `str::trim`.
pub open spec fn trim(s: Seq<char>) -> Seq<char> {
    trim_end(trim_start(s))
}

pub proof fn lemma_lead_ws(s: Seq<char>)
    ensures
        lead_ws(s) <= s.len(),
        forall|j: int| 0 <= j < lead_ws(s) ==> is_ws(s[j]),
        lead_ws(s) < s.len() ==> !is_ws(s[lead_ws(s) as int]),
    decreases s.len(),
{
    if s.len() > 0 && is_ws(s[0]) {
        lemma_lead_ws(s.drop_first());
        assert forall|j: int| 0 <= j < lead_ws(s) implies is_ws(s[j]) by {
            if j > 0 {
                assert(s[j] == s.drop_first()[j - 1]);
            }
        }
    }
}

pub proof fn lemma_trail_ws(s: Seq<char>)
    ensures
        trail_ws(s) <= s.len(),
        forall|j: int| s.len() - trail_ws(s) <= j < s.len() ==> is_ws(s[j]),
        trail_ws(s) < s.len() ==> !is_ws(s[s.len() - trail_ws(s) - 1]),
    decreases s.len(),
{
    if s.len() > 0 && is_ws(s.last()) {
        lemma_trail_ws(s.drop_last());
        assert forall|j: int| s.len() - trail_ws(s) <= j < s.len() implies is_ws(s[j]) by {
            if j < s.len() - 1 {
                assert(s[j] == s.drop_last()[j]);
            }
        }
    }
}

/// Leading whitespace count, computed.
pub fn lead_ws_len(s: &[char]) -> (r: usize)
    ensures
        r == lead_ws(s@),
{
    let mut i: usize = 0;
    assert(s@.skip(0) =~= s@);
    while i < s.len() && ws(s[i])
        invariant
            i <= s@.len(),
            lead_ws(s@) == i + lead_ws(s@.skip(i as int)),
        decreases s@.len() - i,
    {
        assert(s@.skip(i as int).drop_first() =~= s@.skip(i + 1));
        i = i + 1;
    }
    i
}

/// Trailing whitespace count, computed.
pub fn trail_ws_len(s: &[char]) -> (r: usize)
    ensures
        r == trail_ws(s@),
{
    let mut n: usize = s.len();
    assert(s@.take(s@.len() as int) =~= s@);
    while n > 0 && ws(s[n - 1])
        invariant
            n <= s@.len(),
            trail_ws(s@) == (s@.len() - n) + trail_ws(s@.take(n as int)),
        decreases n,
    {
        assert(s@.take(n as int).drop_last() =~= s@.take(n - 1));
        n = n - 1;
    }
    s.len() - n
}

/// `line.trim_start()` as a new vector.
pub fn trim_start_vec(s: &[char]) -> (r: Vec<char>)
    ensures
        r@ == trim_start(s@),
{
    let k = lead_ws_len(s);
    proof {
        lemma_lead_ws(s@);
    }
    slice_vec(s, k, s.len())
}

/// `line.trim()` as a new vector.
pub fn trim_vec(s: &[char]) -> (r: Vec<char>)
    ensures
        r@ == trim(s@),
{
    let t = trim_start_vec(s);
    let k = trail_ws_len(&t);
    proof {
        lemma_trail_ws(t@);
    }
    slice_vec(&t, 0, t.len() - k)
}

// ---------------------------------------------------------------------------
// Replacing
// ---------------------------------------------------------------------------

/// `str::replace(s, p, r)` for a non-empty pattern: every occurrence, found
/// left to right without overlap, replaced.
pub open spec fn replace_all(s: Seq<char>, p: Seq<char>, r: Seq<char>) -> Seq<char>
    decreases s.len(),
{
    if p.len() == 0 || s.len() < p.len() {
        s
    } else if starts_with(s, p) {
        r + replace_all(s.skip(p.len() as int), p, r)
    } else {
        seq![s[0]] + replace_all(s.drop_first(), p, r)
    }
}

/// `s.matches(p).count()` for a non-empty pattern.
pub open spec fn count_matches(s: Seq<char>, p: Seq<char>) -> nat
    decreases s.len(),
{
    if p.len() == 0 || s.len() < p.len() {
        0
    } else if starts_with(s, p) {
        1 + count_matches(s.skip(p.len() as int), p)
    } else {
        count_matches(s.drop_first(), p)
    }
}

pub proof fn lemma_count_zero_replace_noop(s: Seq<char>, p: Seq<char>, r: Seq<char>)
    requires
        count_matches(s, p) == 0,
    ensures
        replace_all(s, p, r) == s,
    decreases s.len(),
{
    if p.len() == 0 || s.len() < p.len() {
    } else if starts_with(s, p) {
    } else {
        lemma_count_zero_replace_noop(s.drop_first(), p, r);
        assert(seq![s[0]] + s.drop_first() =~= s);
    }
}

/// Exec form of [`replace_all`].
pub fn replace_vec(s: &[char], p: &[char], r: &[char]) -> (out: Vec<char>)
    requires
        p@.len() > 0,
    ensures
        out@ == replace_all(s@, p@, r@),
{
    let mut out: Vec<char> = Vec::new();
    let mut i: usize = 0;
    assert(s@.skip(0) =~= s@);
    assert(out@ + s@ =~= s@);
    while i < s.len()
        invariant
            i <= s@.len(),
            p@.len() > 0,
            out@ + replace_all(s@.skip(i as int), p@, r@) == replace_all(s@, p@, r@),
        decreases s@.len() - i,
    {
        let ghost rest = s@.skip(i as int);
        let ghost prev = out@;
        if s.len() - i < p.len() {
            assert(replace_all(rest, p@, r@) == rest);
            extend(&mut out, &slice_vec(s, i, s.len()));
            assert(s@.subrange(i as int, s@.len() as int) =~= rest);
            return out;
        }
        assert(rest.subrange(0, p@.len() as int) =~= s@.subrange(i as int, i + p@.len()));
        if match_at(s, i, p) {
            assert(rest.skip(p@.len() as int) =~= s@.skip(i + p@.len()));
            extend(&mut out, r);
            assert(prev + (r@ + replace_all(rest.skip(p@.len() as int), p@, r@)) =~= out@
                + replace_all(s@.skip(i + p@.len()), p@, r@));
            i = i + p.len();
        } else {
            assert(rest.drop_first() =~= s@.skip(i + 1));
            out.push(s[i]);
            assert(prev + (seq![rest[0]] + replace_all(rest.drop_first(), p@, r@)) =~= out@
                + replace_all(s@.skip(i + 1), p@, r@));
            i = i + 1;
        }
    }
    assert(s@.skip(i as int) =~= Seq::<char>::empty());
    assert(out@ + Seq::<char>::empty() =~= out@);
    out
}

/// `a == b`, computed.
pub fn seq_eq(a: &[char], b: &[char]) -> (r: bool)
    ensures
        r == (a@ == b@),
{
    if a.len() != b.len() {
        return false;
    }
    let r = match_at(a, 0, b);
    assert(r ==> a@.subrange(0, b@.len() as int) =~= a@);
    assert(a@ == b@ ==> a@.subrange(0, b@.len() as int) =~= a@);
    r
}

/// `a == lit`, computed.
pub fn eq_lit(a: &[char], lit: &str) -> (r: bool)
    ensures
        r == (a@ == lit@),
{
    let l = to_chars(lit);
    seq_eq(a, &l)
}

/// `a.starts_with(lit)`, computed.
pub fn starts_lit(a: &[char], lit: &str) -> (r: bool)
    ensures
        r == starts_with(a@, lit@),
{
    let l = to_chars(lit);
    has_prefix(a, &l)
}

// ---------------------------------------------------------------------------
// Runs of one character
// ---------------------------------------------------------------------------

/// Number of leading copies of `c`.
pub open spec fn lead_run(s: Seq<char>, c: char) -> nat
    decreases s.len(),
{
    if s.len() > 0 && s[0] == c {
        1 + lead_run(s.drop_first(), c)
    } else {
        0
    }
}

/// Number of trailing copies of `c`.
pub open spec fn trail_run(s: Seq<char>, c: char) -> nat
    decreases s.len(),
{
    if s.len() > 0 && s.last() == c {
        1 + trail_run(s.drop_last(), c)
    } else {
        0
    }
}

pub proof fn lemma_runs(s: Seq<char>, c: char)
    ensures
        lead_run(s, c) <= s.len(),
        trail_run(s, c) <= s.len(),
    decreases s.len(),
{
    if s.len() > 0 {
        lemma_runs(s.drop_first(), c);
        lemma_runs(s.drop_last(), c);
    }
}

/// `str::trim_end_matches(c)`.
pub open spec fn trim_end_char(s: Seq<char>, c: char) -> Seq<char> {
    s.take(s.len() - trail_run(s, c))
}

/// `str::trim_start_matches(c)`.
pub open spec fn trim_start_char(s: Seq<char>, c: char) -> Seq<char> {
    s.skip(lead_run(s, c) as int)
}

/// `str::trim_matches(c)`.
pub open spec fn trim_char(s: Seq<char>, c: char) -> Seq<char> {
    trim_end_char(trim_start_char(s, c), c)
}

pub fn trim_start_char_vec(s: &[char], c: char) -> (r: Vec<char>)
    ensures
        r@ == trim_start_char(s@, c),
{
    let mut i: usize = 0;
    assert(s@.skip(0) =~= s@);
    while i < s.len() && s[i] == c
        invariant
            i <= s@.len(),
            lead_run(s@, c) == i + lead_run(s@.skip(i as int), c),
        decreases s@.len() - i,
    {
        assert(s@.skip(i as int).drop_first() =~= s@.skip(i + 1));
        i = i + 1;
    }
    slice_vec(s, i, s.len())
}

pub fn trim_end_char_vec(s: &[char], c: char) -> (r: Vec<char>)
    ensures
        r@ == trim_end_char(s@, c),
{
    let mut n: usize = s.len();
    assert(s@.take(s@.len() as int) =~= s@);
    while n > 0 && s[n - 1] == c
        invariant
            n <= s@.len(),
            trail_run(s@, c) == (s@.len() - n) + trail_run(s@.take(n as int), c),
        decreases n,
    {
        assert(s@.take(n as int).drop_last() =~= s@.take(n - 1));
        n = n - 1;
    }
    slice_vec(s, 0, n)
}

pub fn trim_char_vec(s: &[char], c: char) -> (r: Vec<char>)
    ensures
        r@ == trim_char(s@, c),
{
    let t = trim_start_char_vec(s, c);
    trim_end_char_vec(&t, c)
}

/// `line.trim_end()` as a new vector.
pub fn trim_end_vec(s: &[char]) -> (r: Vec<char>)
    ensures
        r@ == trim_end(s@),
{
    let k = trail_ws_len(s);
    proof {
        lemma_trail_ws(s@);
    }
    slice_vec(s, 0, s.len() - k)
}

/// Concatenation of two vectors.
pub fn concat(a: &[char], b: &[char]) -> (r: Vec<char>)
    ensures
        r@ == a@ + b@,
{
    let mut out = slice_vec(a, 0, a.len());
    assert(a@.subrange(0, a@.len() as int) =~= a@);
    extend(&mut out, b);
    out
}

/// Appends the characters of `lit`.
pub fn extend_lit(dst: &mut Vec<char>, lit: &str)
    ensures
        final(dst)@ == old(dst)@ + lit@,
{
    let l = to_chars(lit);
    extend(dst, &l);
}

// ---------------------------------------------------------------------------
// Decimal numbers
// ---------------------------------------------------------------------------

/// The digit character for `d < 10`.
pub open spec fn digit_char(d: nat) -> char {
    ((d + 48) as u32) as char
}

/// The decimal form of `n`, as `format!("{}", n)` writes it.
pub open spec fn dec(n: nat) -> Seq<char>
    decreases n,
{
    if n < 10 {
        seq![digit_char(n)]
    } else {
        dec(n / 10) + seq![digit_char(n % 10)]
    }
}

fn digit(d: usize) -> (r: char)
    requires
        d < 10,
    ensures
        r == digit_char(d as nat),
{
    if d == 0 { '0' } else if d == 1 { '1' } else if d == 2 { '2' } else if d == 3 { '3' }
    else if d == 4 { '4' } else if d == 5 { '5' } else if d == 6 { '6' } else if d == 7 { '7' }
    else if d == 8 { '8' } else { '9' }
}

/// The decimal form of `n`.
pub fn fmt_dec(n: usize) -> (r: Vec<char>)
    ensures
        r@ == dec(n as nat),
    decreases n,
{
    if n < 10 {
        vec![digit(n)]
    } else {
        let mut v = fmt_dec(n / 10);
        v.push(digit(n % 10));
        v
    }
}

/// The decimal form of a `u64`.
pub fn fmt_dec_u64(n: u64) -> (r: Vec<char>)
    ensures
        r@ == dec(n as nat),
    decreases n,
{
    if n < 10 {
        vec![digit(n as usize)]
    } else {
        let mut v = fmt_dec_u64(n / 10);
        v.push(digit((n % 10) as usize));
        v
    }
}

/// The decimal form of an integer, with a leading `-` when negative.
pub open spec fn signed_dec(n: int) -> Seq<char> {
    if n < 0 {
        seq!['-'] + dec((-n) as nat)
    } else {
        dec(n as nat)
    }
}

/// The decimal form of an `i64`.
pub fn fmt_i64(n: i64) -> (r: Vec<char>)
    ensures
        r@ == signed_dec(n as int),
{
    if n < 0 {
        let m: u64 = (0i128 - (n as i128)) as u64;
        let mut v: Vec<char> = vec!['-'];
        let d = fmt_dec_u64(m);
        extend(&mut v, &d);
        v
    } else {
        fmt_dec_u64(n as u64)
    }
}

// ---------------------------------------------------------------------------
// Lines
// ---------------------------------------------------------------------------

/// Searching from an offset is searching the suffix, shifted.
pub proof fn lemma_find_from_skip(s: Seq<char>, p: Seq<char>, start: int, k: int)
    requires
        0 <= start <= k,
        start <= s.len(),
    ensures
        find_from(s, p, k) == (match find_from(s.skip(start), p, k - start) {
            Some(i) => Some(i + start),
            None => None,
        }),
    decreases s.len() + 1 - k,
{
    let t = s.skip(start);
    if k + p.len() > s.len() {
    } else {
        assert(matches_at(s, k, p) == matches_at(t, k - start, p)) by {
            assert(s.subrange(k, k + p.len()) =~= t.subrange(k - start, k - start + p.len()));
        }
        if !matches_at(s, k, p) {
            lemma_find_from_skip(s, p, start, k + 1);
        }
    }
}

/// A line without its trailing carriage return.
pub open spec fn strip_cr(l: Seq<char>) -> Seq<char> {
    if l.len() > 0 && l.last() == '\r' {
        l.drop_last()
    } else {
        l
    }
}

/// `str::lines`: split at `\n`, drop a `\r` before each `\n`, and yield no
/// empty line after a final newline.
pub open spec fn lines(s: Seq<char>) -> Seq<Seq<char>>
    decreases s.len(),
{
    if s.len() == 0 {
        seq![]
    } else {
        match find_char(s, '\n') {
            Some(i) => {
                proof {
                    lemma_find_from(s, seq!['\n'], 0);
                }
                seq![strip_cr(s.take(i))] + lines(s.skip(i + 1))
            },
            None => seq![s],
        }
    }
}

/// The views of a vector of character vectors.
pub open spec fn views(v: Seq<Vec<char>>) -> Seq<Seq<char>> {
    v.map_values(|x: Vec<char>| x@)
}

/// Every line followed by a newline, concatenated.
pub open spec fn unlines(ls: Seq<Seq<char>>) -> Seq<char>
    decreases ls.len(),
{
    if ls.len() == 0 {
        seq![]
    } else {
        unlines(ls.drop_last()) + ls.last() + seq!['\n']
    }
}

pub fn strip_cr_vec(l: Vec<char>) -> (r: Vec<char>)
    ensures
        r@ == strip_cr(l@),
{
    let mut l = l;
    if l.len() > 0 && l[l.len() - 1] == '\r' {
        l.pop();
    }
    l
}

/// Exec form of [`lines`].
pub fn split_lines(s: &[char]) -> (r: Vec<Vec<char>>)
    ensures
        views(r@) == lines(s@),
{
    let mut out: Vec<Vec<char>> = Vec::new();
    let mut start: usize = 0;
    let nl: [char; 1] = ['\n'];
    assert(nl@ =~= seq!['\n']);
    assert(s@.skip(0) =~= s@);
    assert(views(out@) + lines(s@) =~= lines(s@));
    while start < s.len()
        invariant
            start <= s@.len(),
            nl@ == seq!['\n'],
            views(out@) + lines(s@.skip(start as int)) == lines(s@),
        decreases s@.len() - start,
    {
        let ghost rest = s@.skip(start as int);
        let ghost prev = views(out@);
        proof {
            lemma_find_from_skip(s@, seq!['\n'], start as int, start as int);
            lemma_find_from(rest, seq!['\n'], 0);
        }
        match find_seq_from(s, &nl, start) {
            Some(j) => {
                let line = strip_cr_vec(slice_vec(s, start, j));
                assert(rest.take(j - start) =~= s@.subrange(start as int, j as int));
                assert(rest.skip(j - start + 1) =~= s@.skip(j + 1));
                out.push(line);
                assert(views(out@) =~= prev.push(line@));
                assert(prev + (seq![line@] + lines(s@.skip(j + 1))) =~= views(out@) + lines(
                    s@.skip(j + 1),
                ));
                start = j + 1;
            },
            None => {
                let line = slice_vec(s, start, s.len());
                assert(line@ =~= rest);
                out.push(line);
                assert(views(out@) =~= prev.push(line@));
                assert(s@.skip(s@.len() as int) =~= Seq::<char>::empty());
                assert(views(out@) + lines(s@.skip(s@.len() as int)) =~= views(out@));
                assert(prev + seq![rest] =~= views(out@));
                start = s.len();
            },
        }
    }
    assert(s@.skip(start as int) =~= Seq::<char>::empty());
    assert(views(out@) + Seq::<Seq<char>>::empty() =~= views(out@));
    out
}

/// Sum of the lengths of some lines.
pub open spec fn total_len(ls: Seq<Seq<char>>) -> nat
    decreases ls.len(),
{
    if ls.len() == 0 {
        0
    } else {
        ls[0].len() + total_len(ls.drop_first())
    }
}

/// The lines of a text are no longer, together, than the text; and there
/// are no more of them than characters.
pub proof fn lemma_lines_len(s: Seq<char>)
    ensures
        total_len(lines(s)) <= s.len(),
        lines(s).len() <= s.len(),
    decreases s.len(),
{
    if s.len() > 0 {
        match find_char(s, '\n') {
            Some(i) => {
                lemma_find_from(s, seq!['\n'], 0);
                lemma_lines_len(s.skip(i + 1));
                let ls = lines(s);
                assert(ls[0] == strip_cr(s.take(i)));
                assert(ls[0].len() <= i);
                assert(ls.drop_first() =~= lines(s.skip(i + 1)));
                assert(total_len(ls) == ls[0].len() + total_len(ls.drop_first()));
            },
            None => {
                let ls = lines(s);
                assert(ls.drop_first() =~= Seq::<Seq<char>>::empty());
                assert(total_len(ls) == ls[0].len() + total_len(ls.drop_first()));
            },
        }
    }
}

/// Each line of a text is no longer than the text.
pub proof fn lemma_lines_elem_len(s: Seq<char>)
    ensures
        forall|k: int| 0 <= k < lines(s).len() ==> #[trigger] lines(s)[k].len() <= s.len(),
    decreases s.len(),
{
    if s.len() > 0 {
        match find_char(s, '\n') {
            Some(i) => {
                lemma_find_from(s, seq!['\n'], 0);
                lemma_lines_elem_len(s.skip(i + 1));
                let ls = lines(s);
                let rest = lines(s.skip(i + 1));
                assert forall|k: int| 0 <= k < ls.len() implies #[trigger] ls[k].len() <= s.len() by {
                    if k > 0 {
                        assert(ls[k] == rest[k - 1]);
                    }
                }
            },
            None => {},
        }
    }
}


/// A line holds no newline and does not end with a carriage return.
pub open spec fn plain_line(l: Seq<char>) -> bool {
    &&& forall|j: int| 0 <= j < l.len() ==> l[j] != '\n'
    &&& !(l.len() > 0 && l.last() == '\r')
}

/// No line of a text holds a newline.
pub proof fn lemma_lines_no_newline(s: Seq<char>)
    ensures
        forall|k: int, j: int| 0 <= k < lines(s).len() && 0 <= j < lines(s)[k].len() ==> #[trigger] lines(s)[k][j] != '\n',
    decreases s.len(),
{
    if s.len() > 0 {
        match find_char(s, '\n') {
            Some(i) => {
                lemma_find_from(s, seq!['\n'], 0);
                lemma_lines_no_newline(s.skip(i + 1));
                let ls = lines(s);
                let rest = lines(s.skip(i + 1));
                assert forall|k: int, j: int| 0 <= k < ls.len() && 0 <= j < ls[k].len() implies #[trigger] ls[k][j] != '\n' by {
                    if k > 0 {
                        assert(ls[k] == rest[k - 1]);
                    } else {
                        assert(ls[0] == strip_cr(s.take(i)));
                        assert(ls[0][j] == s[j]);
                        assert(!matches_at(s, j, seq!['\n']));
                        assert(s.subrange(j, j + 1) =~= seq![s[j]]);
                    }
                }
            },
            None => {
                lemma_find_from(s, seq!['\n'], 0);
                let ls = lines(s);
                assert forall|k: int, j: int| 0 <= k < ls.len() && 0 <= j < ls[k].len() implies #[trigger] ls[k][j] != '\n' by {
                    assert(ls[k] == s);
                    assert(!matches_at(s, j, seq!['\n']));
                    assert(s.subrange(j, j + 1) =~= seq![s[j]]);
                }
            },
        }
    }
}

pub proof fn lemma_unlines_front(ls: Seq<Seq<char>>)
    requires
        ls.len() > 0,
    ensures
        unlines(ls) == ls[0] + seq!['\n'] + unlines(ls.drop_first()),
    decreases ls.len(),
{
    if ls.len() > 1 {
        lemma_unlines_front(ls.drop_last());
        assert(ls.drop_last().drop_first() =~= ls.drop_first().drop_last());
        assert(ls.drop_last()[0] == ls[0]);
        assert(ls.drop_first().last() == ls.last());
    } else {
        assert(ls.drop_first() =~= Seq::<Seq<char>>::empty());
        assert(ls.drop_last() =~= Seq::<Seq<char>>::empty());
    }
}

/// Splitting joined plain lines gives them back.
pub proof fn lemma_lines_unlines(ls: Seq<Seq<char>>)
    requires
        forall|k: int| 0 <= k < ls.len() ==> #[trigger] plain_line(ls[k]),
    ensures
        lines(unlines(ls)) == ls,
    decreases ls.len(),
{
    if ls.len() > 0 {
        let rest = ls.drop_first();
        assert forall|k: int| 0 <= k < rest.len() implies #[trigger] plain_line(rest[k]) by {
            assert(rest[k] == ls[k + 1]);
        }
        lemma_unlines_front(ls);
        lemma_lines_unlines(rest);
        let a = ls[0];
        assert(plain_line(a));
        let s = unlines(ls);
        let n = a.len() as int;
        lemma_find_from(s, seq!['\n'], 0);
        assert(s[n] == '\n');
        assert(s.subrange(n, n + 1) =~= seq!['\n']);
        assert(matches_at(s, n, seq!['\n']));
        match find_char(s, '\n') {
            Some(i) => {
                if i < n {
                    assert(s.subrange(i, i + 1) =~= seq![s[i]]);
                    assert(s[i] == a[i]);
                }
                assert(i == n);
            },
            None => {},
        }
        assert(s.take(n) =~= a);
        assert(strip_cr(a) == a);
        assert(s.skip(n + 1) =~= unlines(rest));
        assert(lines(s) =~= seq![a] + rest);
    } else {
        assert(unlines(ls) =~= Seq::<char>::empty());
    }
}

// ---------------------------------------------------------------------------
// Prefixes, newlines and trimming
// ---------------------------------------------------------------------------

/// No character of `s` is a newline.
pub open spec fn no_newline(s: Seq<char>) -> bool {
    forall|j: int| 0 <= j < s.len() ==> s[j] != '\n'
}

pub proof fn lemma_no_newline_add(a: Seq<char>, b: Seq<char>)
    requires
        no_newline(a),
        no_newline(b),
    ensures
        no_newline(a + b),
{
    assert forall|j: int| 0 <= j < (a + b).len() implies (a + b)[j] != '\n' by {
        if j < a.len() {
            assert((a + b)[j] == a[j]);
        } else {
            assert((a + b)[j] == b[j - a.len()]);
        }
    }
}

pub proof fn lemma_no_newline_sub(s: Seq<char>, i: int, j: int)
    requires
        no_newline(s),
        0 <= i <= j <= s.len(),
    ensures
        no_newline(s.subrange(i, j)),
{
    assert forall|k: int| 0 <= k < j - i implies s.subrange(i, j)[k] != '\n' by {
        assert(s.subrange(i, j)[k] == s[i + k]);
    }
}

/// Trimming keeps a text free of newlines.
pub proof fn lemma_no_newline_trims(s: Seq<char>, c: char)
    requires
        no_newline(s),
    ensures
        no_newline(trim_start(s)),
        no_newline(trim_end(s)),
        no_newline(trim(s)),
        no_newline(trim_end_char(s, c)),
        no_newline(trim_char(s, c)),
{
    lemma_lead_ws(s);
    lemma_no_newline_sub(s, lead_ws(s) as int, s.len() as int);
    lemma_trail_ws(s);
    lemma_no_newline_sub(s, 0, s.len() - trail_ws(s));
    let ts = trim_start(s);
    lemma_trail_ws(ts);
    lemma_no_newline_sub(ts, 0, ts.len() - trail_ws(ts));
    lemma_runs(s, c);
    lemma_no_newline_sub(s, 0, s.len() - trail_run(s, c));
    let sc = trim_start_char(s, c);
    lemma_no_newline_sub(s, lead_run(s, c) as int, s.len() as int);
    lemma_runs(sc, c);
    lemma_no_newline_sub(sc, 0, sc.len() - trail_run(sc, c));
}

/// Trailing copies of `c` stop at the last other character.
pub proof fn lemma_trail_run_stop(s: Seq<char>, c: char, j: int)
    requires
        0 <= j < s.len(),
        s[j] != c,
    ensures
        trail_run(s, c) <= s.len() - 1 - j,
    decreases s.len(),
{
    if s.last() == c {
        assert(s.drop_last()[j] == s[j]);
        lemma_trail_run_stop(s.drop_last(), c, j);
    }
}

/// Dropping trailing whitespace and then trailing commas keeps a prefix
/// that ends in neither.
pub proof fn lemma_trim_keeps_prefix(s: Seq<char>, p: Seq<char>)
    requires
        starts_with(s, p),
        p.len() > 0,
        !is_ws(p.last()),
        p.last() != ',',
    ensures
        starts_with(trim_end_char(trim_end(s), ','), p),
        trim_end_char(trim_end(s), ',').len() <= s.len(),
        trim_end_char(trim_end(s), ',') == s.take(trim_end_char(trim_end(s), ',').len() as int),
{
    let n = p.len() as int;
    assert(s.subrange(0, n)[n - 1] == s[n - 1]);
    lemma_trail_ws(s);
    let e = trim_end(s);
    assert(n <= e.len());
    assert(e[n - 1] == s[n - 1]);
    lemma_trail_run_stop(e, ',', n - 1);
    let r = trim_end_char(e, ',');
    assert(r.subrange(0, n) =~= s.subrange(0, n));
    assert(r =~= s.take(r.len() as int));
}

/// Whitespace in front of a text that starts with something else is its
/// whole leading whitespace.
pub proof fn lemma_lead_ws_concat(a: Seq<char>, b: Seq<char>)
    requires
        forall|j: int| 0 <= j < a.len() ==> is_ws(a[j]),
        b.len() > 0,
        !is_ws(b[0]),
    ensures
        lead_ws(a + b) == a.len(),
        trim_start(a + b) == b,
    decreases a.len(),
{
    if a.len() > 0 {
        assert((a + b).drop_first() =~= a.drop_first() + b);
        assert((a + b)[0] == a[0]);
        lemma_lead_ws_concat(a.drop_first(), b);
    } else {
        assert(a + b =~= b);
    }
    assert((a + b).skip(a.len() as int) =~= b);
}

/// `p` occurs in `s` where it matches.
pub proof fn lemma_contains_at(s: Seq<char>, i: int, p: Seq<char>)
    requires
        matches_at(s, i, p),
    ensures
        contains(s, p),
{
    lemma_find_from(s, p, 0);
}

/// Two prefixes of one text agree where both reach.
pub proof fn lemma_prefix_agree(s: Seq<char>, p: Seq<char>, q: Seq<char>, m: int)
    requires
        starts_with(s, p),
        starts_with(s, q),
        0 <= m < p.len(),
        m < q.len(),
    ensures
        p[m] == q[m],
{
    assert(s.subrange(0, p.len() as int)[m] == s[m]);
    assert(s.subrange(0, q.len() as int)[m] == s[m]);
}


} // verus!
