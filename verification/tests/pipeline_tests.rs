use swerve::auth::Credentials;
use swerve::globs::AccessFilter;
use swerve::pipeline::{build_file_response, plan_request, RequestPlan, ServerConfig};

fn cfg() -> ServerConfig {
    ServerConfig {
        root: "root".to_string(),
        root_index: false,
        serve_directories: false,
        hot_reload_port: None,
    }
}

fn creds(u: &str, p: &str) -> Option<Credentials> {
    Some(Credentials {
        username: u.to_string(),
        password: p.to_string(),
    })
}

#[test]
fn plain_file_request_is_served() {
    let plan = plan_request(
        &cfg(),
        &None,
        &AccessFilter::new(),
        "/a.txt",
        &None,
        false,
        &Vec::new(),
    );
    assert_eq!(plan, RequestPlan::ServeFile("root/a.txt".to_string()));
}

#[test]
fn directory_without_slash_redirects() {
    let plan = plan_request(
        &cfg(),
        &None,
        &AccessFilter::new(),
        "/sub",
        &None,
        true,
        &Vec::new(),
    );
    assert_eq!(plan, RequestPlan::Redirect("/sub/".to_string()));
}

#[test]
fn directory_listing_when_enabled() {
    let mut c = cfg();
    c.serve_directories = true;
    let plan = plan_request(
        &c,
        &None,
        &AccessFilter::new(),
        "/sub/",
        &None,
        true,
        &Vec::new(),
    );
    assert_eq!(plan, RequestPlan::ServeDirectory("root/sub".to_string()));
}

#[test]
fn directory_listing_disabled_falls_through_to_file_read() {
    let plan = plan_request(
        &cfg(),
        &None,
        &AccessFilter::new(),
        "/sub/",
        &None,
        true,
        &Vec::new(),
    );
    // reading a directory as a file fails and is answered 404 by the caller
    assert_eq!(plan, RequestPlan::ServeFile("root/sub".to_string()));
}

#[test]
fn root_index_substitutes_index_html() {
    let mut c = cfg();
    c.root_index = true;
    let entries = vec!["index.html".to_string(), "other.txt".to_string()];
    let plan = plan_request(
        &c,
        &None,
        &AccessFilter::new(),
        "/sub/",
        &None,
        true,
        &entries,
    );
    assert_eq!(
        plan,
        RequestPlan::ServeFile("root/sub/index.html".to_string())
    );
}

#[test]
fn root_index_without_index_file_keeps_directory() {
    let mut c = cfg();
    c.root_index = true;
    c.serve_directories = true;
    let entries = vec!["other.txt".to_string()];
    let plan = plan_request(
        &c,
        &None,
        &AccessFilter::new(),
        "/sub/",
        &None,
        true,
        &entries,
    );
    assert_eq!(plan, RequestPlan::ServeDirectory("root/sub".to_string()));
}

#[test]
fn missing_auth_is_unauthorized() {
    let plan = plan_request(
        &cfg(),
        &creds("user", "pass"),
        &AccessFilter::new(),
        "/a.txt",
        &None,
        false,
        &Vec::new(),
    );
    assert_eq!(plan, RequestPlan::Unauthorized);
}

#[test]
fn wrong_auth_is_unauthorized() {
    let plan = plan_request(
        &cfg(),
        &creds("user", "pass"),
        &AccessFilter::new(),
        "/a.txt",
        &Some("Basic d3Jvbmc6d3Jvbmc=".to_string()), // wrong:wrong
        false,
        &Vec::new(),
    );
    assert_eq!(plan, RequestPlan::Unauthorized);
}

#[test]
fn correct_auth_serves_the_resource() {
    let plan = plan_request(
        &cfg(),
        &creds("user", "pass"),
        &AccessFilter::new(),
        "/a.txt",
        &Some("Basic dXNlcjpwYXNz".to_string()), // user:pass
        false,
        &Vec::new(),
    );
    assert_eq!(plan, RequestPlan::ServeFile("root/a.txt".to_string()));
}

#[test]
fn filtered_path_is_not_found() {
    let mut f = AccessFilter::new();
    f.set_excludes(&vec!["*.log".to_string()]).unwrap();
    let plan = plan_request(&cfg(), &None, &f, "/server.log", &None, false, &Vec::new());
    assert_eq!(plan, RequestPlan::NotFound);
}

#[test]
fn filter_applies_to_substituted_index_path() {
    let mut c = cfg();
    c.root_index = true;
    let mut f = AccessFilter::new();
    f.set_excludes(&vec!["**/index.html".to_string()]).unwrap();
    let entries = vec!["index.html".to_string()];
    let plan = plan_request(&c, &None, &f, "/sub/", &None, true, &entries);
    assert_eq!(plan, RequestPlan::NotFound);
}

#[test]
fn escaping_url_is_not_found() {
    let plan = plan_request(
        &cfg(),
        &None,
        &AccessFilter::new(),
        "/../secret",
        &None,
        false,
        &Vec::new(),
    );
    assert_eq!(plan, RequestPlan::NotFound);
}

#[test]
fn content_type_follows_the_extension() {
    let r = build_file_response("root/page.html", b"<h1>hi</h1>".to_vec(), None);
    assert_eq!(r.content_type, "text/html");
    let r = build_file_response("root/pic.png", vec![1, 2, 3], None);
    assert_eq!(r.content_type, "image/png");
    let r = build_file_response("root/data.qqqq", vec![1], None);
    assert_eq!(r.content_type, "text/plain");
}

#[test]
fn body_is_untouched_without_hot_reload() {
    let r = build_file_response("root/page.html", b"<h1>hi</h1>".to_vec(), None);
    assert_eq!(r.body, b"<h1>hi</h1>".to_vec());
    assert_eq!(r.content_length(), r.body.len());
}

#[test]
fn hot_reload_appends_script_to_html() {
    let r = build_file_response("root/page.html", b"<h1>hi</h1>".to_vec(), Some(35729));
    let body = String::from_utf8(r.body.clone()).unwrap();
    assert!(body.starts_with("<h1>hi</h1><script>"));
    assert!(body.contains("ws://127.0.0.1:35729"));
    assert!(body.ends_with("</script>"));
    assert_eq!(r.content_length(), r.body.len());
}

#[test]
fn hot_reload_leaves_non_html_alone() {
    let r = build_file_response("root/style.css", b"body{}".to_vec(), Some(35729));
    assert_eq!(r.body, b"body{}".to_vec());
}
