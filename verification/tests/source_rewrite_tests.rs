use lemurclaw::source_rewrite::{
    decode_lc, encode_lc, is_string_interior, rewrite_line_surgical, rewrite_path_expressions,
    rewrite_surgical, strip_visibility,
};

fn chars(s: &str) -> Vec<char> {
    s.chars().collect()
}

fn text(v: &[char]) -> String {
    v.iter().collect()
}

fn crates() -> Vec<String> {
    vec!["codex_core".to_string(), "codex_protocol".to_string()]
}

#[test]
fn use_and_extern_crate_lines_are_renamed() {
    let c = crates();
    assert_eq!(text(&rewrite_line_surgical(&chars("    pub use codex_core::Foo;"), &c)), "    pub use lemurclaw_core::Foo;");
    assert_eq!(text(&rewrite_line_surgical(&chars("pub(crate) use codex_core::{a, b};"), &c)), "pub(crate) use lemurclaw_core::{a, b};");
    assert_eq!(text(&rewrite_line_surgical(&chars("use ::codex_protocol;"), &c)), "use lemurclaw_protocol;");
    assert_eq!(text(&rewrite_line_surgical(&chars("extern crate codex_core;"), &c)), "extern crate lemurclaw_core;");
}

#[test]
fn unknown_crates_and_locals_are_left_alone() {
    let c = crates();
    assert_eq!(text(&rewrite_line_surgical(&chars("use codex_other::x;"), &c)), "use codex_other::x;");
    assert_eq!(text(&rewrite_line_surgical(&chars("let codex_core_dir = codex_core;"), &c)), "let codex_core_dir = codex_core;");
}

#[test]
fn path_expressions_are_renamed() {
    let c = crates();
    assert_eq!(
        text(&rewrite_path_expressions(&chars("let x = codex_core::f(codex_home, my_codex_core::g);"), &c)),
        "let x = lemurclaw_core::f(codex_home, my_codex_core::g);"
    );
    assert_eq!(
        text(&rewrite_line_surgical(&chars("    codex_protocol::Op::Run => {}"), &c)),
        "    lemurclaw_protocol::Op::Run => {}"
    );
}

#[test]
fn whole_source_rewrite() {
    let c = crates();
    assert_eq!(
        rewrite_surgical("use codex_core::A;\nfn f() {}\n", &c),
        Some("use lemurclaw_core::A;\nfn f() {}\n".to_string())
    );
    assert_eq!(
        rewrite_surgical("use codex_core::A;\nfn f() {}", &c),
        Some("use lemurclaw_core::A;\nfn f() {}".to_string())
    );
    assert_eq!(rewrite_surgical("fn f() {}\n", &c), None);
}

#[test]
fn string_and_comment_interiors() {
    let line = chars("let s = \"a\\\"b\"; /* c */ x // d");
    assert!(!is_string_interior(&line, 4));
    assert!(is_string_interior(&line, 10));
    assert!(!is_string_interior(&line, 15));
    assert!(is_string_interior(&line, 19));
    assert!(!is_string_interior(&line, 25));
    assert!(is_string_interior(&line, 29));
}

#[test]
fn visibility_is_stripped() {
    assert_eq!(text(&strip_visibility(&chars("pub use x;"))), "use x;");
    assert_eq!(text(&strip_visibility(&chars("crate use x;"))), "use x;");
    assert_eq!(text(&strip_visibility(&chars("pub(in crate::a)   use x;"))), "use x;");
    assert_eq!(text(&strip_visibility(&chars("use x;"))), "use x;");
}

#[test]
fn line_column_packing_round_trips() {
    let p = encode_lc(12, 34);
    assert_eq!(p, 12_000_034);
    assert_eq!(decode_lc(p), (12, 34));
}

use lemurclaw::source_rewrite::{apply_spans_via_linecol, rewrite_string_from_parse, rewrite_string_safe, SpanEdit};

fn span(line: usize, col: usize, len: usize, ident: &str) -> SpanEdit {
    SpanEdit { start: encode_lc(line, col), end: encode_lc(line, col + len), old_ident: ident.to_string() }
}

#[test]
fn parser_spans_are_applied() {
    let src = "use codex_core::A;\nfn f() { codex_core::g(); }\n";
    let spans = vec![span(1, 4, 10, "codex_core"), span(2, 9, 10, "codex_core"), span(2, 9, 10, "codex_core")];
    assert_eq!(
        apply_spans_via_linecol(src, &spans),
        Some("use lemurclaw_core::A;\nfn f() { lemurclaw_core::g(); }\n".to_string())
    );
    assert_eq!(apply_spans_via_linecol(src, &[span(0, 0, 1, "x")]), None);
    assert_eq!(apply_spans_via_linecol(src, &[span(9, 0, 1, "x")]), None);
    assert_eq!(apply_spans_via_linecol(src, &[span(1, 4, 100, "codex_core")]), None);
}

#[test]
fn columns_count_characters() {
    let src = "// é\nuse codex_core::A;\n";
    assert_eq!(
        apply_spans_via_linecol(src, &[span(2, 4, 10, "codex_core")]),
        Some("// é\nuse lemurclaw_core::A;\n".to_string())
    );
}

#[test]
fn whole_source_rewrite_with_and_without_a_parse() {
    let c = crates();
    let src = "use codex_core::A;\n";
    let spans = vec![span(1, 4, 10, "codex_core")];
    assert!(rewrite_string_safe(src, Some(&spans), &c));
    assert_eq!(rewrite_string_from_parse(src, Some(&spans), &c), Some("use lemurclaw_core::A;\n".to_string()));
    assert_eq!(rewrite_string_from_parse(src, None, &c), Some("use lemurclaw_core::A;\n".to_string()));
    assert_eq!(rewrite_string_from_parse("fn f() {}\n", Some(&[]), &c), None);
}

#[test]
fn strings_and_comments_are_left_untouched() {
    let c = crates();
    assert_eq!(rewrite_surgical("let s = \"codex_core::x\"; // codex_core::y", &c), None);
    assert_eq!(
        text(&rewrite_path_expressions(&chars("f(codex_core::a, \"codex_core::b\") /* codex_core::c */ codex_core::d"), &c)),
        "f(lemurclaw_core::a, \"codex_core::b\") /* codex_core::c */ lemurclaw_core::d"
    );
}

use lemurclaw::source_rewrite::{rewrite_string, rewrite_string_from_refs, rewrite_string_from_sites, RefItem, UseTok};

#[test]
fn syn_finds_the_crate_references_of_a_source() {
    let c = crates();
    let src = "use codex_core::{A, B};\nextern crate codex_core;\nfn f() {\n    let codex_core = 1;\n    codex_core::run();\n    let s = \"codex_core::x\"; // codex_core::y\n}\n";
    let out = rewrite_string(src, &c).unwrap();
    assert_eq!(
        out,
        "use lemurclaw_core::{A, B};\nextern crate lemurclaw_core;\nfn f() {\n    let codex_core = 1;\n    lemurclaw_core::run();\n    let s = \"codex_core::x\"; // codex_core::y\n}\n"
    );
    assert_eq!(rewrite_string("fn main() {}\n", &c), None);
    assert_eq!(rewrite_string("use codex_unknown::X;\n", &c), None);
}

#[test]
fn a_source_that_does_not_parse_gets_the_line_rewrite() {
    let c = crates();
    assert_eq!(
        rewrite_string("use codex_core::A;\nfn f( {\n", &c),
        Some("use lemurclaw_core::A;\nfn f( {\n".to_string())
    );
}

#[test]
fn sites_are_filtered_before_they_are_applied() {
    let c = crates();
    let src = "use codex_core::A;\n";
    let sites = vec![
        ("codex_core".to_string(), 1, 4, 1, 14, None),
        ("codex_core".to_string(), 1, 4, 1, 14, Some(1)),
        ("other".to_string(), 1, 0, 1, 3, None),
    ];
    assert_eq!(rewrite_string_from_sites(src, Some(sites.as_slice()), &c), Some("use lemurclaw_core::A;\n".to_string()));
    let lone = vec![("codex_core".to_string(), 1, 4, 1, 14, Some(1))];
    assert_eq!(rewrite_string_from_sites(src, Some(lone.as_slice()), &c), Some("use lemurclaw_core::A;\n".to_string()));
    let huge = vec![("codex_core".to_string(), usize::MAX, 4, 1, 14, None)];
    assert_eq!(rewrite_string_from_sites(src, Some(huge.as_slice()), &c), None);
    assert_eq!(rewrite_string_from_sites(src, None, &c), Some("use lemurclaw_core::A;\n".to_string()));
}

#[test]
fn use_trees_give_their_leading_identifiers() {
    let c = crates();
    // use {codex_core::codex_protocol, codex_protocol as p};
    let src = "use {codex_core::codex_protocol, codex_protocol as p};\n";
    let tree = vec![
        UseTok::Group(2),
        UseTok::Path(("codex_core".to_string(), 1, 5, 1, 15)),
        UseTok::Name(("codex_protocol".to_string(), 1, 17, 1, 31)),
        UseTok::Rename(("codex_protocol".to_string(), 1, 33, 1, 47)),
    ];
    let refs = vec![RefItem::Use(tree)];
    assert_eq!(
        rewrite_string_from_refs(src, Some(refs.as_slice()), &c),
        Some("use {lemurclaw_core::codex_protocol, lemurclaw_protocol as p};\n".to_string())
    );
    assert_eq!(rewrite_string(src, &c), rewrite_string_from_refs(src, Some(refs.as_slice()), &c));
}
