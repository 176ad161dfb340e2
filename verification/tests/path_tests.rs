use swerve::urlpath::{find_index_file, join_path, needs_redirect, resolve_request_path};

#[test]
fn resolves_simple_paths() {
    assert_eq!(
        resolve_request_path("root", "/a/b.txt"),
        Some("root/a/b.txt".to_string())
    );
    assert_eq!(resolve_request_path("root", "/"), Some("root".to_string()));
    assert_eq!(resolve_request_path("root", ""), Some("root".to_string()));
}

#[test]
fn rejects_escaping_paths() {
    assert_eq!(resolve_request_path("root", "/../secret"), None);
    assert_eq!(resolve_request_path("root", "/a/../b"), None);
    assert_eq!(resolve_request_path("root", "/a/.."), None);
    assert_eq!(resolve_request_path("root", "/.."), None);
    // a second leading slash must not restart from the filesystem root
    assert_eq!(resolve_request_path("root", "//etc/passwd"), None);
}

#[test]
fn dots_inside_names_are_fine() {
    assert_eq!(
        resolve_request_path("root", "/..hidden"),
        Some("root/..hidden".to_string())
    );
    assert_eq!(
        resolve_request_path("root", "/a..b/c"),
        Some("root/a..b/c".to_string())
    );
    assert_eq!(
        resolve_request_path("root", "/a.b.txt"),
        Some("root/a.b.txt".to_string())
    );
}

#[test]
fn directory_without_trailing_slash_redirects() {
    assert_eq!(needs_redirect("/sub", true), Some("/sub/".to_string()));
    assert_eq!(needs_redirect("/sub/", true), None);
    assert_eq!(needs_redirect("/sub", false), None);
    assert_eq!(needs_redirect("", true), Some("/".to_string()));
}

#[test]
fn index_html_takes_priority() {
    let entries = vec![
        "zzz.txt".to_string(),
        "index.htm".to_string(),
        "index.html".to_string(),
    ];
    assert_eq!(find_index_file(&entries), Some("index.html".to_string()));
}

#[test]
fn index_htm_is_the_fallback() {
    let entries = vec!["index.htm".to_string(), "a.txt".to_string()];
    assert_eq!(find_index_file(&entries), Some("index.htm".to_string()));
}

#[test]
fn no_index_file_found() {
    let entries = vec!["a.txt".to_string(), "b.html".to_string()];
    assert_eq!(find_index_file(&entries), None);
    assert_eq!(find_index_file(&Vec::new()), None);
}

#[test]
fn join_path_inserts_separator() {
    assert_eq!(join_path("root/sub", "index.html"), "root/sub/index.html");
}
