use lemurclaw::environments::{
    resolve_runtime_workspace_roots, resolve_turn_environment_selections, EnvironmentRequest, EnvironmentSelection,
};

fn strings(v: &[&str]) -> Vec<String> {
    v.iter().map(|s| s.to_string()).collect()
}

fn root(raw: &str, uri: Option<&str>) -> (String, Option<String>) {
    (raw.to_string(), uri.map(str::to_string))
}

fn request(id: &str, cwd: &str, cwd_uri: Option<&str>, roots: Option<Vec<(String, Option<String>)>>) -> EnvironmentRequest {
    EnvironmentRequest {
        environment_id: id.to_string(),
        cwd: cwd.to_string(),
        cwd_uri: cwd_uri.map(str::to_string),
        runtime_workspace_roots: roots,
    }
}

#[test]
fn workspace_roots_are_kept_once_in_first_order() {
    assert_eq!(
        resolve_runtime_workspace_roots(strings(&["/a", "/b", "/a", "/c", "/b"])),
        strings(&["/a", "/b", "/c"])
    );
    assert!(resolve_runtime_workspace_roots(Vec::new()).is_empty());
}

#[test]
fn no_environments_means_none() {
    assert_eq!(resolve_turn_environment_selections(None), Ok(None));
    assert_eq!(resolve_turn_environment_selections(Some(Vec::new())), Ok(Some(Vec::new())));
}

#[test]
fn environment_without_roots_works_in_its_cwd() {
    let r = resolve_turn_environment_selections(Some(vec![request("local", "/w", Some("file:///w"), None)]));
    assert_eq!(
        r,
        Ok(Some(vec![EnvironmentSelection {
            environment_id: "local".to_string(),
            cwd: "file:///w".to_string(),
            workspace_roots: strings(&["file:///w"]),
        }]))
    );
}

#[test]
fn roots_are_resolved_and_deduplicated() {
    let roots = vec![root("/a", Some("file:///a")), root("/b", Some("file:///b")), root("/a/", Some("file:///a"))];
    let r = resolve_turn_environment_selections(Some(vec![request("e1", "/w", Some("file:///w"), Some(roots))]));
    assert_eq!(
        r,
        Ok(Some(vec![EnvironmentSelection {
            environment_id: "e1".to_string(),
            cwd: "file:///w".to_string(),
            workspace_roots: strings(&["file:///a", "file:///b"]),
        }]))
    );
}

#[test]
fn relative_cwd_is_refused() {
    let r = resolve_turn_environment_selections(Some(vec![
        request("ok", "/w", Some("file:///w"), None),
        request("bad", "rel/dir", None, None),
    ]));
    assert_eq!(
        r,
        Err("invalid cwd for environment `bad`: path `rel/dir` does not use absolute POSIX or Windows path syntax"
            .to_string())
    );
}

#[test]
fn relative_root_is_refused_after_the_cwd_check() {
    let roots = vec![root("/a", Some("file:///a")), root("x", None), root("y", None)];
    let r = resolve_turn_environment_selections(Some(vec![request("e", "/w", Some("file:///w"), Some(roots))]));
    assert_eq!(
        r,
        Err("invalid runtime workspace root for environment `e`: path `x` does not use absolute POSIX or Windows path syntax"
            .to_string())
    );
    let both = resolve_turn_environment_selections(Some(vec![request("e", "c", None, Some(vec![root("x", None)]))]));
    assert_eq!(
        both,
        Err("invalid cwd for environment `e`: path `c` does not use absolute POSIX or Windows path syntax".to_string())
    );
}
