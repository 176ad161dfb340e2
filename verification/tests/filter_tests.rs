use swerve::globs::AccessFilter;

#[test]
fn empty_filter_allows_everything() {
    let f = AccessFilter::new();
    assert!(f.path_is_valid("anything/at/all.txt"));
    assert!(f.path_is_valid(""));
}

#[test]
fn exclude_wins_over_include() {
    let mut f = AccessFilter::new();
    f.set_includes(&vec!["*.log".to_string()]).unwrap();
    f.set_excludes(&vec!["*.log".to_string()]).unwrap();
    assert!(!f.path_is_valid("server.log"));
}

#[test]
fn empty_includes_allow_unexcluded_paths() {
    let mut f = AccessFilter::new();
    f.set_excludes(&vec!["*.tmp".to_string()]).unwrap();
    assert!(f.path_is_valid("notes.txt"));
    assert!(!f.path_is_valid("scratch.tmp"));
}

#[test]
fn include_list_restricts() {
    let mut f = AccessFilter::new();
    f.set_includes(&vec!["*.html".to_string(), "*.css".to_string()])
        .unwrap();
    assert!(f.path_is_valid("page.html"));
    assert!(f.path_is_valid("style.css"));
    assert!(!f.path_is_valid("script.js"));
}

#[test]
fn recursive_glob_matches_subdirectories() {
    let mut f = AccessFilter::new();
    f.set_excludes(&vec!["private/**".to_string()]).unwrap();
    assert!(!f.path_is_valid("private/deep/file.txt"));
    assert!(f.path_is_valid("public/file.txt"));
}

#[test]
fn invalid_pattern_reports_index() {
    let mut f = AccessFilter::new();
    let r = f.set_includes(&vec!["*.ok".to_string(), "a**b".to_string()]);
    assert_eq!(r, Err(1));
    // the filter is unchanged: still allows everything
    assert!(f.path_is_valid("whatever"));
}

#[test]
fn question_mark_and_class_globs() {
    let mut f = AccessFilter::new();
    f.set_includes(&vec!["file.?xt".to_string(), "[ab].css".to_string()])
        .unwrap();
    assert!(f.path_is_valid("file.txt"));
    assert!(f.path_is_valid("a.css"));
    assert!(!f.path_is_valid("c.css"));
}
