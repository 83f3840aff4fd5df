//! Disabling the custom HTTP clients handed to the telemetry exporters: the
//! `if let Some(tls) = tls.as_ref() { .. with_http_client .. }` blocks and the
//! standalone `exporter_builder.with_http_client(client)` statements of a
//! source file become a short comment and `let _ = tls;`.

use vstd::prelude::*;
use crate::text::{
    contains, contains_seq, ends_with, extend, extend_lit, from_chars, has_suffix, lead_ws,
    lead_ws_len, lemma_lead_ws, replace_all, replace_vec, lemma_lines_elem_len, lemma_lines_len, lines, rfind_ch,
    rfind_char, slice_vec, split_lines, starts_lit, starts_with, to_chars, trim, trim_vec, views,
};

verus! {

/// The number of bytes of `c` in UTF-8.
pub open spec fn utf8_len(c: char) -> nat {
    if (c as u32) < 0x80 {
        1
    } else if (c as u32) < 0x800 {
        2
    } else if (c as u32) < 0x10000 {
        3
    } else {
        4
    }
}

/// The number of bytes of `s` in UTF-8.
pub open spec fn utf8_total(s: Seq<char>) -> nat
    decreases s.len(),
{
    if s.len() == 0 {
        0
    } else {
        utf8_total(s.drop_last()) + utf8_len(s.last())
    }
}

/// The indentation copied in front of the inserted lines: as many leading
/// characters of `l` as its leading whitespace has bytes.
pub open spec fn indent_of(l: Seq<char>) -> Seq<char> {
    let b = utf8_total(l.take(lead_ws(l) as int));
    if b >= l.len() {
        l
    } else {
        l.take(b as int)
    }
}

/// The opening braces of `l` less its closing braces.
pub open spec fn brace_delta(l: Seq<char>) -> int
    decreases l.len(),
{
    if l.len() == 0 {
        0
    } else {
        brace_delta(l.drop_last()) + if l.last() == '{' {
            1int
        } else if l.last() == '}' {
            -1int
        } else {
            0int
        }
    }
}

/// The line that closes a block open to `depth` when line `j` is reached:
/// lines are counted whole; the scan stops on the line after which the
/// depth is zero, goes one line further when it falls below zero, and ends
/// at the number of lines when they run out.
pub open spec fn close_line(ls: Seq<Seq<char>>, j: int, depth: int) -> int
    decreases ls.len() - j,
{
    if j >= ls.len() || depth <= 0 {
        j
    } else {
        let d = depth + brace_delta(ls[j]);
        if d == 0 {
            j
        } else {
            close_line(ls, j + 1, d)
        }
    }
}

pub proof fn lemma_close_line_ge(ls: Seq<Seq<char>>, j: int, depth: int)
    ensures
        close_line(ls, j, depth) >= j,
        j <= ls.len() ==> close_line(ls, j, depth) <= ls.len(),
    decreases ls.len() - j,
{
    if j < ls.len() && depth > 0 {
        let d = depth + brace_delta(ls[j]);
        if d != 0 {
            lemma_close_line_ge(ls, j + 1, d);
        }
    }
}

/// One of the `n` lines from `k` on mentions `with_http_client`.
pub open spec fn any_mentions(ls: Seq<Seq<char>>, k: int, n: nat) -> bool
    decreases n,
{
    if n == 0 || k < 0 || k >= ls.len() {
        false
    } else {
        contains(ls[k], "with_http_client"@) || any_mentions(ls, k + 1, (n - 1) as nat)
    }
}

/// Line `i` opens a TLS block that hands over a custom client: it starts with
/// `if let Some(tls) = tls.as_ref() {` and one of the five lines after it
/// mentions `with_http_client`.
pub open spec fn opens_tls_block(ls: Seq<Seq<char>>, i: int) -> bool {
    &&& starts_with(trim(ls[i]), "if let Some(tls) = tls.as_ref() {"@)
    &&& i + 1 < ls.len()
    &&& any_mentions(ls, i + 1, 5)
}

/// Line `i` is the standalone statement that hands the client over.
pub open spec fn is_http_client_statement(l: Seq<char>) -> bool {
    trim(l) == "exporter_builder = exporter_builder.with_http_client(client);"@
}

/// A line that ends the walk back over the statement building the client.
pub open spec fn ends_walk(l: Seq<char>) -> bool {
    let t = trim(l);
    t.len() > 0 && !starts_with(t, ")?;"@) && !ends_with(t, ","@)
}

/// Walking back from line `k - 1` towards the start: the distance from line
/// `i` to the nearest line that mentions `build_async_http_client`, or zero
/// when a line that is not blank, not a `)?;` line and not ending in a comma
/// comes first.
pub open spec fn lines_to_remove(ls: Seq<Seq<char>>, i: int, k: int) -> int
    decreases k,
{
    if k <= 0 {
        0
    } else if contains(ls[k - 1], "build_async_http_client"@) {
        i - (k - 1)
    } else if ends_walk(ls[k - 1]) {
        0
    } else {
        lines_to_remove(ls, i, k - 1)
    }
}

pub proof fn lemma_lines_to_remove(ls: Seq<Seq<char>>, i: int, k: int)
    requires
        0 <= k <= i,
    ensures
        0 <= lines_to_remove(ls, i, k) <= i,
    decreases k,
{
    if k <= 0 {
        assert(lines_to_remove(ls, i, k) == 0);
    } else if contains(ls[k - 1], "build_async_http_client"@) {
        assert(lines_to_remove(ls, i, k) == i - (k - 1));
    } else if ends_walk(ls[k - 1]) {
        assert(lines_to_remove(ls, i, k) == 0);
    } else {
        lemma_lines_to_remove(ls, i, k - 1);
        assert(lines_to_remove(ls, i, k) == lines_to_remove(ls, i, k - 1));
    }
}

/// The text cut at its last newline (the newline included); unchanged
/// when it has none.
pub open spec fn drop_last_line(s: Seq<char>) -> Seq<char> {
    match rfind_char(s, '\n') {
        Some(p) => s.take(p),
        None => s,
    }
}

/// [`drop_last_line`] `n` times.
pub open spec fn drop_last_lines(s: Seq<char>, n: nat) -> Seq<char>
    decreases n,
{
    if n == 0 {
        s
    } else {
        drop_last_lines(drop_last_line(s), (n - 1) as nat)
    }
}

/// What replaces a TLS block.
pub open spec fn tls_block(ind: Seq<char>) -> Seq<char> {
    ind + "// TODO(merge): Custom TLS client disabled — reqwest 0.13 (rmcp) and\n"@ + ind
        + "//                opentelemetry-http (reqwest 0.12) are incompatible.\n"@ + ind
        + "let _ = tls;\n"@
}

/// What replaces the standalone statement.
pub open spec fn http_client_block(ind: Seq<char>) -> Seq<char> {
    "\n"@ + ind + "// TODO(merge): with_http_client disabled — reqwest 0.13 (rmcp) and\n"@ + ind
        + "//                opentelemetry-http (reqwest 0.12) are incompatible.\n"@ + ind
        + "let _ = tls;\n"@
}

/// The pass over the lines from `i`, with the output so far and whether
/// anything was replaced: a TLS block is replaced up to and including its
/// closing line; the standalone statement replaces itself and the lines
/// already written for the statement that built the client; every other
/// line is copied with a newline.
pub open spec fn otel_pass(ls: Seq<Seq<char>>, i: int, out: Seq<char>, modified: bool) -> (
    Seq<char>,
    bool,
)
    decreases ls.len() + 1 - i,
{
    if i < 0 || i >= ls.len() {
        (out, modified)
    } else if opens_tls_block(ls, i) {
        let j = close_line(ls, i + 1, 1);
        proof {
            lemma_close_line_ge(ls, i + 1, 1);
        }
        otel_pass(ls, j + 1, out + tls_block(indent_of(ls[i])), true)
    } else if is_http_client_statement(ls[i]) {
        let n = lines_to_remove(ls, i, i);
        otel_pass(
            ls,
            i + 1,
            drop_last_lines(out, n as nat) + http_client_block(indent_of(ls[i])),
            true,
        )
    } else {
        otel_pass(ls, i + 1, out + ls[i] + "\n"@, modified)
    }
}

/// The whole rewrite of a file's text: unchanged when nothing was replaced;
/// otherwise the pass's output, without its last newline when the text had
/// none.
pub open spec fn spec_comment_out_otel(content: Seq<char>) -> Seq<char> {
    let (out, modified) = otel_pass(lines(content), 0, seq![], false);
    if !modified {
        content
    } else if !ends_with(content, "\n"@) && ends_with(out, "\n"@) {
        out.drop_last()
    } else {
        out
    }
}

proof fn lemma_otel_pass_untouched(ls: Seq<Seq<char>>, i: int, out: Seq<char>, modified: bool)
    requires
        forall|k: int| 0 <= k < ls.len() ==> !opens_tls_block(ls, k) && !is_http_client_statement(#[trigger] ls[k]),
    ensures
        otel_pass(ls, i, out, modified).1 == modified,
    decreases ls.len() + 1 - i,
{
    if 0 <= i < ls.len() {
        lemma_otel_pass_untouched(ls, i + 1, out + ls[i] + "\n"@, modified);
    }
}

/// A text in which no line opens a TLS block handing over a custom client
/// and no line is the standalone `with_http_client` statement comes back
/// unchanged.
pub proof fn lemma_comment_out_otel_untouched(content: Seq<char>)
    requires
        forall|k: int| 0 <= k < lines(content).len() ==> !opens_tls_block(lines(content), k)
            && !is_http_client_statement(#[trigger] lines(content)[k]),
    ensures
        spec_comment_out_otel(content) == content,
{
    lemma_otel_pass_untouched(lines(content), 0, seq![], false);
}

fn utf8_len_exec(c: char) -> (r: u64)
    ensures
        r == utf8_len(c),
{
    let u = c as u32;
    if u < 0x80 {
        1
    } else if u < 0x800 {
        2
    } else if u < 0x10000 {
        3
    } else {
        4
    }
}

fn indent_exec(l: &[char]) -> (r: Vec<char>)
    ensures
        r@ == indent_of(l@),
{
    let w = lead_ws_len(l);
    proof {
        lemma_lead_ws(l@);
    }
    let mut b: u128 = 0;
    let mut k: usize = 0;
    assert(l@.take(0) =~= Seq::<char>::empty());
    while k < w
        invariant
            w <= l@.len(),
            k <= w,
            b == utf8_total(l@.take(k as int)),
            b <= 4 * k,
        decreases w - k,
    {
        assert(l@.take(k + 1).drop_last() =~= l@.take(k as int));
        b = b + utf8_len_exec(l[k]) as u128;
        k = k + 1;
    }
    assert(l@.take(w as int) == l@.take(lead_ws(l@) as int));
    if b >= l.len() as u128 {
        slice_vec(l, 0, l.len())
    } else {
        slice_vec(l, 0, b as usize)
    }
}

fn any_mentions_exec(ls: &Vec<Vec<char>>, k: usize, n: usize) -> (r: bool)
    ensures
        r == any_mentions(views(ls@), k as int, n as nat),
{
    let pat = to_chars("with_http_client");
    let mut j: usize = k;
    let mut m: usize = n;
    while m > 0 && j < ls.len()
        invariant
            j >= k,
            pat@ == "with_http_client"@,
            any_mentions(views(ls@), j as int, m as nat) == any_mentions(
                views(ls@),
                k as int,
                n as nat,
            ),
        decreases m,
    {
        assert(views(ls@)[j as int] == ls@[j as int]@);
        if contains_seq(&ls[j], &pat) {
            return true;
        }
        j = j + 1;
        m = m - 1;
    }
    false
}

fn brace_delta_exec(l: &[char], d0: i128) -> (r: i128)
    requires
        -0x2_0000_0000_0000_0000 <= d0 <= 0x2_0000_0000_0000_0000,
    ensures
        r == d0 + brace_delta(l@),
        d0 - l@.len() <= r <= d0 + l@.len(),
{
    let mut d: i128 = d0;
    let mut k: usize = 0;
    assert(l@.take(0) =~= Seq::<char>::empty());
    while k < l.len()
        invariant
            k <= l@.len(),
            -0x2_0000_0000_0000_0000 <= d0 <= 0x2_0000_0000_0000_0000,
            d == d0 + brace_delta(l@.take(k as int)),
            d0 - k <= d <= d0 + k,
        decreases l@.len() - k,
    {
        assert(l@.take(k + 1).drop_last() =~= l@.take(k as int));
        if l[k] == '{' {
            d = d + 1;
        } else if l[k] == '}' {
            d = d - 1;
        }
        k = k + 1;
    }
    assert(l@.take(l@.len() as int) =~= l@);
    d
}

/// The lines from `k` on are no longer, together, than all the lines.
proof fn lemma_total_len_skip(ls: Seq<Seq<char>>, k: int)
    requires
        0 <= k <= ls.len(),
    ensures
        crate::text::total_len(ls.skip(k)) <= crate::text::total_len(ls),
    decreases k,
{
    if k > 0 {
        assert(crate::text::total_len(ls) == ls[0].len() + crate::text::total_len(ls.drop_first()));
        assert(ls.skip(k) =~= ls.drop_first().skip(k - 1));
        lemma_total_len_skip(ls.drop_first(), k - 1);
    } else {
        assert(ls.skip(0) =~= ls);
    }
}

fn close_line_exec(ls: &Vec<Vec<char>>, start: usize) -> (r: usize)
    requires
        start <= ls@.len(),
        crate::text::total_len(views(ls@).skip(start as int)) <= usize::MAX,
    ensures
        r == close_line(views(ls@), start as int, 1),
{
    let ghost l = views(ls@);
    let ghost r0 = crate::text::total_len(l.skip(start as int));
    let mut depth: i128 = 1;
    let mut j: usize = start;
    while j < ls.len() && depth > 0
        invariant
            start <= j <= ls@.len(),
            l == views(ls@),
            r0 == crate::text::total_len(l.skip(start as int)),
            r0 <= usize::MAX,
            close_line(l, j as int, depth as int) == close_line(l, start as int, 1),
            -(r0 - crate::text::total_len(l.skip(j as int))) <= depth - 1 <= r0 - crate::text::total_len(
                l.skip(j as int),
            ),
            crate::text::total_len(l.skip(j as int)) <= r0,
        decreases ls@.len() - j,
    {
        assert(l[j as int] == ls@[j as int]@);
        assert(l.skip(j as int).drop_first() =~= l.skip(j + 1));
        assert(l.skip(j as int)[0] == l[j as int]);
        let d = brace_delta_exec(&ls[j], depth);
        if d == 0 {
            return j;
        }
        depth = d;
        j = j + 1;
    }
    j
}

fn lines_to_remove_exec(ls: &Vec<Vec<char>>, i: usize) -> (r: usize)
    requires
        i <= ls@.len(),
    ensures
        r == lines_to_remove(views(ls@), i as int, i as int),
{
    let ghost l = views(ls@);
    let pat = to_chars("build_async_http_client");
    let comma: [char; 1] = [','];
    assert(comma@ =~= ","@) by {
        reveal_strlit(",");
    }
    proof {
        lemma_lines_to_remove(l, i as int, i as int);
    }
    let mut k: usize = i;
    while k > 0
        invariant
            k <= i <= ls@.len(),
            l == views(ls@),
            pat@ == "build_async_http_client"@,
            comma@ == ","@,
            lines_to_remove(l, i as int, k as int) == lines_to_remove(l, i as int, i as int),
        decreases k,
    {
        let line = &ls[k - 1];
        assert(l[k - 1] == line@);
        if contains_seq(line, &pat) {
            return i - (k - 1);
        }
        let t = trim_vec(line);
        if t.len() > 0 && !starts_lit(&t, ")?;") && !has_suffix(&t, &comma) {
            return 0;
        }
        k = k - 1;
    }
    0
}

fn drop_last_line_exec(s: Vec<char>) -> (r: Vec<char>)
    ensures
        r@ == drop_last_line(s@),
{
    proof {
        crate::text::lemma_rfind_char_before(s@, '\n', s@.len() as int);
    }
    match rfind_ch(&s, '\n') {
        Some(p) => slice_vec(&s, 0, p),
        None => s,
    }
}

fn extend_block(out: &mut Vec<char>, ind: &[char], first: &str)
    ensures
        final(out)@ == old(out)@ + ind@ + first@ + ind@
            + "//                opentelemetry-http (reqwest 0.12) are incompatible.\n"@ + ind@
            + "let _ = tls;\n"@,
{
    extend(out, ind);
    extend_lit(out, first);
    extend(out, ind);
    extend_lit(out, "//                opentelemetry-http (reqwest 0.12) are incompatible.\n");
    extend(out, ind);
    extend_lit(out, "let _ = tls;\n");
}

/// Replaces, in a source file's text, each TLS block that hands a custom
/// HTTP client to an exporter and each standalone `with_http_client`
/// statement by a comment and `let _ = tls;` (see
/// [`spec_comment_out_otel`]).
pub fn comment_out_otel_tls_blocks(content: &str) -> (r: String)
    ensures
        r@ == spec_comment_out_otel(content@),
{
    let cs = to_chars(content);
    let ls = split_lines(&cs);
    let ghost l = views(ls@);
    proof {
        lemma_lines_len(content@);
        assert(cs@.len() == cs.len());
    }
    let mut out: Vec<char> = Vec::new();
    let mut modified = false;
    let mut i: usize = 0;
    while i < ls.len()
        invariant
            i <= ls@.len() + 1,
            l == views(ls@),
            l == lines(content@),
            crate::text::total_len(l) <= usize::MAX,
            otel_pass(l, i as int, out@, modified) == otel_pass(l, 0, seq![], false),
        decreases ls@.len() + 1 - i,
    {
        let line = &ls[i];
        assert(l[i as int] == line@);
        let t = trim_vec(line);
        if starts_lit(&t, "if let Some(tls) = tls.as_ref() {") && i + 1 < ls.len()
            && any_mentions_exec(&ls, i + 1, 5) {
            let ind = indent_exec(line);
            proof {
                lemma_total_len_skip(l, i + 1);
            }
            let j = close_line_exec(&ls, i + 1);
            proof {
                lemma_close_line_ge(l, i + 1, 1);
            }
            let ghost prev = out@;
            extend_block(
                &mut out,
                &ind,
                "// TODO(merge): Custom TLS client disabled — reqwest 0.13 (rmcp) and\n",
            );
            assert(out@ =~= prev + tls_block(indent_of(line@)));
            modified = true;
            i = if j < usize::MAX {
                j + 1
            } else {
                j
            };
            assert(otel_pass(l, i as int, out@, true) == otel_pass(l, j + 1, out@, true));
        } else if crate::text::eq_lit(
            &t,
            "exporter_builder = exporter_builder.with_http_client(client);",
        ) {
            let ind = indent_exec(line);
            let n = lines_to_remove_exec(&ls, i);
            let ghost out0 = out@;
            let mut c: usize = 0;
            while c < n
                invariant
                    c <= n,
                    out@ == drop_last_lines(out0, c as nat),
                decreases n - c,
            {
                proof {
                    lemma_drop_last_lines_step(out0, c as nat);
                }
                out = drop_last_line_exec(out);
                c = c + 1;
            }
            out.push('\n');
            extend_block(
                &mut out,
                &ind,
                "// TODO(merge): with_http_client disabled — reqwest 0.13 (rmcp) and\n",
            );
            assert(out@ =~= drop_last_lines(out0, n as nat) + http_client_block(indent_of(line@)))
                by {
                reveal_strlit("\n");
            }
            modified = true;
            i = i + 1;
        } else {
            let ghost prev = out@;
            extend(&mut out, line);
            out.push('\n');
            assert(out@ =~= prev + l[i as int] + "\n"@) by {
                reveal_strlit("\n");
            }
            i = i + 1;
        }
    }
    if !modified {
        return from_chars(&cs);
    }
    let nl: [char; 1] = ['\n'];
    assert(nl@ =~= "\n"@) by {
        reveal_strlit("\n");
    }
    if !has_suffix(&cs, &nl) && has_suffix(&out, &nl) {
        out.pop();
    }
    from_chars(&out)
}

pub proof fn lemma_drop_last_lines_step(s: Seq<char>, n: nat)
    ensures
        drop_last_lines(s, n + 1) == drop_last_line(drop_last_lines(s, n)),
    decreases n,
{
    let t = drop_last_line(s);
    assert(drop_last_lines(s, n + 1) == drop_last_lines(t, n));
    if n > 0 {
        lemma_drop_last_lines_step(t, (n - 1) as nat);
        assert(((n - 1) as nat) + 1 == n);
        assert(drop_last_lines(s, n) == drop_last_lines(t, (n - 1) as nat));
    }
}

/// The provider's text with the client-building line left dangling by
/// [`comment_out_otel_tls_blocks`] removed, and `mut` dropped from the span
/// and log exporter builders that are no longer changed.
pub open spec fn spec_fix_otel_provider(raw: Seq<char>) -> Seq<char> {
    let a = replace_all(
        raw,
        "                let client = crate::otel::otlp::build_async_http_client(\n"@,
        ""@,
    );
    let b = replace_all(
        a,
        "let mut exporter_builder = SpanExporter::builder()"@,
        "let exporter_builder = SpanExporter::builder()"@,
    );
    replace_all(
        b,
        "let mut exporter_builder = LogExporter::builder()"@,
        "let exporter_builder = LogExporter::builder()"@,
    )
}

fn replace_lit(s: &[char], pat: &str, rep: &str) -> (r: Vec<char>)
    requires
        pat@.len() > 0,
    ensures
        r@ == replace_all(s@, pat@, rep@),
{
    replace_vec(s, &to_chars(pat), &to_chars(rep))
}

/// See [`spec_fix_otel_provider`].
pub fn fix_otel_provider_text(raw: &str) -> (r: String)
    ensures
        r@ == spec_fix_otel_provider(raw@),
{
    proof {
        reveal_strlit("                let client = crate::otel::otlp::build_async_http_client(\n");
        reveal_strlit("let mut exporter_builder = SpanExporter::builder()");
        reveal_strlit("let mut exporter_builder = LogExporter::builder()");
    }
    let a = replace_lit(
        &to_chars(raw),
        "                let client = crate::otel::otlp::build_async_http_client(\n",
        "",
    );
    let b = replace_lit(
        &a,
        "let mut exporter_builder = SpanExporter::builder()",
        "let exporter_builder = SpanExporter::builder()",
    );
    let c = replace_lit(
        &b,
        "let mut exporter_builder = LogExporter::builder()",
        "let exporter_builder = LogExporter::builder()",
    );
    from_chars(&c)
}

/// The metrics client's text without the unused client assignment before
/// the disabled `with_http_client` comment, and without `mut` on the metric
/// exporter builder.
pub open spec fn spec_fix_otel_metrics_client(raw: Seq<char>) -> Seq<char> {
    let a = replace_all(
        raw,
        "                let client =\n                    crate::otel::otlp::build_http_client(tls, OTEL_EXPORTER_OTLP_METRICS_TIMEOUT)\n                        .map_err(|err| MetricsError::InvalidConfig {\n                            message: err.to_string(),\n                        })?;\n\n                // TODO(merge): with_http_client disabled — reqwest 0.13 (rmcp) and"@,
        "                // TODO(merge): with_http_client disabled — reqwest 0.13 (rmcp) and"@,
    );
    replace_all(
        a,
        "let mut exporter_builder = opentelemetry_otlp::MetricExporter::builder()"@,
        "let exporter_builder = opentelemetry_otlp::MetricExporter::builder()"@,
    )
}

/// See [`spec_fix_otel_metrics_client`].
pub fn fix_otel_metrics_client_text(raw: &str) -> (r: String)
    ensures
        r@ == spec_fix_otel_metrics_client(raw@),
{
    proof {
        reveal_strlit("                let client =\n                    crate::otel::otlp::build_http_client(tls, OTEL_EXPORTER_OTLP_METRICS_TIMEOUT)\n                        .map_err(|err| MetricsError::InvalidConfig {\n                            message: err.to_string(),\n                        })?;\n\n                // TODO(merge): with_http_client disabled — reqwest 0.13 (rmcp) and");
        reveal_strlit("let mut exporter_builder = opentelemetry_otlp::MetricExporter::builder()");
    }
    let a = replace_lit(
        &to_chars(raw),
        "                let client =\n                    crate::otel::otlp::build_http_client(tls, OTEL_EXPORTER_OTLP_METRICS_TIMEOUT)\n                        .map_err(|err| MetricsError::InvalidConfig {\n                            message: err.to_string(),\n                        })?;\n\n                // TODO(merge): with_http_client disabled — reqwest 0.13 (rmcp) and",
        "                // TODO(merge): with_http_client disabled — reqwest 0.13 (rmcp) and",
    );
    let b = replace_lit(
        &a,
        "let mut exporter_builder = opentelemetry_otlp::MetricExporter::builder()",
        "let exporter_builder = opentelemetry_otlp::MetricExporter::builder()",
    );
    from_chars(&b)
}

} // verus!
