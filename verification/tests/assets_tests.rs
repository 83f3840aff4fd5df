use lemurclaw::assets::{content_type_for, entry_url, AssetStore};

const INDEX: &str = "<!doctype html>\n<html><head><script type=\"module\" src=\"./assets/index-abc.js\"></script><link rel=\"stylesheet\" href=\"./assets/index-abc.css\"></head><body><div id=\"root\"></div></body></html>\n";

fn store() -> AssetStore {
    AssetStore {
        files: vec![
            ("index.html".to_string(), INDEX.as_bytes().to_vec()),
            ("assets/index-abc.js".to_string(), vec![b'x'; 20_000]),
            ("assets/index-abc.css".to_string(), vec![b'y'; 2_000]),
            ("assets/fonts/a.woff2".to_string(), vec![1, 2, 3]),
            ("favicon.ico".to_string(), vec![0]),
        ],
    }
}

#[test]
fn dist_file_returns_html_for_index() {
    let s = store();
    let bytes = s.dist_file("index.html").expect("dist/index.html must exist");
    let head = std::str::from_utf8(&bytes[..bytes.len().min(64)])
        .unwrap_or("")
        .trim_start();
    let lower = head.to_ascii_lowercase();
    assert!(
        lower.starts_with("<!doctype") || lower.starts_with("<html"),
        "expected HTML for index.html, got: {head:?}"
    );
}

#[test]
fn serve_path_returns_html_for_root() {
    let s = store();
    let (status, content_type, body) = s.serve_path("/");
    assert_eq!(status, 200);
    assert_eq!(content_type, "text/html; charset=utf-8");
    assert!(body.is_some());
}

#[test]
fn serve_path_returns_404_for_missing() {
    let s = store();
    let (status, content_type, body) = s.serve_path("/does-not-exist.js");
    assert_eq!(status, 404);
    assert_eq!(content_type, "text/plain");
    assert!(body.is_none());
}

#[test]
fn content_type_covers_common_extensions() {
    assert_eq!(content_type_for("index.html"), "text/html; charset=utf-8");
    assert_eq!(
        content_type_for("app.js"),
        "application/javascript; charset=utf-8"
    );
    assert_eq!(content_type_for("style.css"), "text/css; charset=utf-8");
    assert_eq!(content_type_for("logo.svg"), "image/svg+xml");
    assert_eq!(
        content_type_for("data.json"),
        "application/json; charset=utf-8"
    );
    assert_eq!(content_type_for("font.woff2"), "font/woff2");
    assert_eq!(content_type_for("unknown.xyz"), "application/octet-stream");
}

#[test]
fn content_type_uses_last_extension_and_bare_names() {
    assert_eq!(content_type_for("a.tar.map"), "application/json; charset=utf-8");
    assert_eq!(content_type_for("html"), "text/html; charset=utf-8");
    assert_eq!(content_type_for("README"), "application/octet-stream");
}

#[test]
fn serve_path_strips_every_leading_slash() {
    let s = store();
    let (status, content_type, body) = s.serve_path("//assets/index-abc.css");
    assert_eq!(status, 200);
    assert_eq!(content_type, "text/css; charset=utf-8");
    assert_eq!(body.unwrap().len(), 2_000);
    assert_eq!(s.serve_path("").0, 200);
}

#[test]
fn subdir_listing_is_not_recursive() {
    let s = store();
    let files = s.dist_subdir_files("assets");
    let names: Vec<&str> = files.iter().map(|(n, _)| n.as_str()).collect();
    assert_eq!(names, vec!["index-abc.js", "index-abc.css"]);
    assert!(s.dist_subdir_files("missing").is_empty());
}

#[test]
fn entry_url_is_custom_protocol_index() {
    assert_eq!(entry_url(), "lemurclaw://app/index.html");
}
