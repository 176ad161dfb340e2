//! The per-request pipeline: authentication, trailing-slash
//! normalization, index substitution, access filtering, and the choice
//! between serving a directory listing or a file body.
//!
//! The caller probes the filesystem (is the resolved target a
//! directory, what are its entry names, what are a file's bytes) and
//! hands in plain values; the plan says what response is owed.

use crate::auth::{check_auth, opt_str_view, spec_check_auth, AuthOutcome, Credentials};
use crate::globs::{spec_allowed, AccessFilter};
use crate::hotreload::{get_hotreload_js, spec_js_prefix, spec_js_suffix};
use crate::strutil::{spec_decimal, spec_ends_with, str_ends_with};
use crate::urlpath::{
    join_path, names_view, needs_redirect, resolve_request_path, spec_find_index,
    spec_redirect_location, spec_resolve,
};
use vstd::prelude::*;

verus! {

/// The immutable per-server settings the pipeline decides with.
pub struct ServerConfig {
    /// The served root directory.
    pub root: String,
    /// Substitute `index.html`/`index.htm` for directory requests.
    pub root_index: bool,
    /// Serve rendered listings for directory requests.
    pub serve_directories: bool,
    /// The hot-reload port, when hot reload is on.
    pub hot_reload_port: Option<u16>,
}

/// What a request must be answered with.
#[derive(Clone, Debug, PartialEq, Eq)]
pub enum RequestPlan {
    /// 401 with a `WWW-Authenticate: Basic` challenge.
    Unauthorized,
    /// 301 to this location.
    Redirect(String),
    /// 404.
    NotFound,
    /// 200: render and serve the listing of this filesystem path.
    ServeDirectory(String),
    /// 200: serve the bytes of this filesystem path (404 if unreadable).
    ServeFile(String),
}

/// The plan, over mathematical values.
pub enum SpecPlan {
    Unauthorized,
    Redirect(Seq<char>),
    NotFound,
    ServeDirectory(Seq<char>),
    ServeFile(Seq<char>),
}

impl View for RequestPlan {
    type V = SpecPlan;

    open spec fn view(&self) -> SpecPlan {
        match self {
            RequestPlan::Unauthorized => SpecPlan::Unauthorized,
            RequestPlan::Redirect(l) => SpecPlan::Redirect(l@),
            RequestPlan::NotFound => SpecPlan::NotFound,
            RequestPlan::ServeDirectory(p) => SpecPlan::ServeDirectory(p@),
            RequestPlan::ServeFile(p) => SpecPlan::ServeFile(p@),
        }
    }
}

/// The pipeline's decision, in its fixed order: a request failing the
/// authentication gate is refused; an unresolvable or escaping URL is
/// not found; a directory URL without its trailing slash is redirected;
/// with root-index on, an index document found among a directory's
/// entries replaces it; the final path must pass the access filter; a
/// directory is served as a listing only when directory serving is on,
/// anything else as a file.
pub open spec fn spec_plan(
    creds: Option<Credentials>,
    includes: Seq<Seq<char>>,
    excludes: Seq<Seq<char>>,
    root: Seq<char>,
    root_index: bool,
    serve_directories: bool,
    url: Seq<char>,
    auth_header: Option<Seq<char>>,
    is_dir: bool,
    entries: Seq<Seq<char>>,
) -> SpecPlan {
    if spec_check_auth(creds, auth_header) != AuthOutcome::Allowed {
        SpecPlan::Unauthorized
    } else {
        match spec_resolve(root, url) {
            None => SpecPlan::NotFound,
            Some(path0) => match spec_redirect_location(url, is_dir) {
                Some(loc) => SpecPlan::Redirect(loc),
                None => {
                    let subst = if root_index && is_dir {
                        spec_find_index(entries)
                    } else {
                        None
                    };
                    let path1 = match subst {
                        Some(name) => path0 + seq!['/'] + name,
                        None => path0,
                    };
                    if !spec_allowed(includes, excludes, path1) {
                        SpecPlan::NotFound
                    } else if is_dir && subst is None && serve_directories {
                        SpecPlan::ServeDirectory(path1)
                    } else {
                        SpecPlan::ServeFile(path1)
                    }
                },
            },
        }
    }
}

/// Decide how to answer one request. `is_dir` says whether the resolved
/// target is a directory, and `dir_entries` holds its entry names when
/// it is one (and may be empty otherwise).
pub fn plan_request(
    cfg: &ServerConfig,
    creds: &Option<Credentials>,
    filter: &AccessFilter,
    url: &str,
    auth_header: &Option<String>,
    is_dir: bool,
    dir_entries: &Vec<String>,
) -> (r: RequestPlan)
    ensures
        r@ == spec_plan(
            *creds,
            filter.spec_includes(),
            filter.spec_excludes(),
            cfg.root@,
            cfg.root_index,
            cfg.serve_directories,
            url@,
            opt_str_view(auth_header),
            is_dir,
            names_view(dir_entries@),
        ),
{
    match check_auth(creds, auth_header) {
        AuthOutcome::Allowed => {},
        AuthOutcome::ChallengeRequired => {
            return RequestPlan::Unauthorized;
        },
        AuthOutcome::Rejected => {
            return RequestPlan::Unauthorized;
        },
    }
    let path0 = match resolve_request_path(cfg.root.as_str(), url) {
        Some(p) => p,
        None => {
            return RequestPlan::NotFound;
        },
    };
    if let Some(loc) = needs_redirect(url, is_dir) {
        return RequestPlan::Redirect(loc);
    }
    let subst: Option<String> = if cfg.root_index && is_dir {
        crate::urlpath::find_index_file(dir_entries)
    } else {
        None
    };
    let path1 = match &subst {
        Some(name) => join_path(path0.as_str(), name.as_str()),
        None => path0,
    };
    if !filter.path_is_valid(path1.as_str()) {
        return RequestPlan::NotFound;
    }
    if is_dir && subst.is_none() && cfg.serve_directories {
        RequestPlan::ServeDirectory(path1)
    } else {
        RequestPlan::ServeFile(path1)
    }
}

/// A directory request whose URL lacks the trailing slash is answered
/// with a redirect to the same URL plus `/`, whenever it gets past the
/// authentication gate and resolves inside the root.
pub proof fn lemma_redirect_on_missing_slash(
    creds: Option<Credentials>,
    includes: Seq<Seq<char>>,
    excludes: Seq<Seq<char>>,
    root: Seq<char>,
    root_index: bool,
    serve_directories: bool,
    url: Seq<char>,
    auth_header: Option<Seq<char>>,
    entries: Seq<Seq<char>>,
)
    requires
        spec_check_auth(creds, auth_header) == AuthOutcome::Allowed,
        spec_resolve(root, url) is Some,
        !(url.len() > 0 && url[url.len() - 1] == '/'),
    ensures
        spec_plan(
            creds,
            includes,
            excludes,
            root,
            root_index,
            serve_directories,
            url,
            auth_header,
            true,
            entries,
        ) == SpecPlan::Redirect(url + seq!['/']),
{
}

/// With root-index on, a directory request (in its trailing-slash form)
/// whose entries include `index.html` is served that file, whenever it
/// passes authentication and the access filter admits the substituted
/// path.
pub proof fn lemma_root_index_serves_index_html(
    creds: Option<Credentials>,
    includes: Seq<Seq<char>>,
    excludes: Seq<Seq<char>>,
    root: Seq<char>,
    serve_directories: bool,
    url: Seq<char>,
    auth_header: Option<Seq<char>>,
    entries: Seq<Seq<char>>,
)
    requires
        spec_check_auth(creds, auth_header) == AuthOutcome::Allowed,
        spec_resolve(root, url) is Some,
        url.len() > 0 && url[url.len() - 1] == '/',
        crate::urlpath::contains_name(entries, "index.html"@),
        spec_allowed(
            includes,
            excludes,
            spec_resolve(root, url).unwrap() + seq!['/'] + "index.html"@,
        ),
    ensures
        spec_plan(
            creds,
            includes,
            excludes,
            root,
            true,
            serve_directories,
            url,
            auth_header,
            true,
            entries,
        ) == SpecPlan::ServeFile(spec_resolve(root, url).unwrap() + seq!['/'] + "index.html"@),
{
}

/// With credentials configured, a request without an `Authorization`
/// header is always refused with the challenge, whatever it asked for.
pub proof fn lemma_missing_header_is_challenged(
    creds: Credentials,
    includes: Seq<Seq<char>>,
    excludes: Seq<Seq<char>>,
    root: Seq<char>,
    root_index: bool,
    serve_directories: bool,
    url: Seq<char>,
    is_dir: bool,
    entries: Seq<Seq<char>>,
)
    ensures
        spec_check_auth(Some(creds), None) == AuthOutcome::ChallengeRequired,
        spec_plan(
            Some(creds),
            includes,
            excludes,
            root,
            root_index,
            serve_directories,
            url,
            None,
            is_dir,
            entries,
        ) == SpecPlan::Unauthorized,
{
}

/// A request that passes the authentication gate is answered exactly as
/// it would be with authentication disabled: correct credentials change
/// nothing about the resource's own outcome.
pub proof fn lemma_allowed_auth_transparent(
    creds: Option<Credentials>,
    includes: Seq<Seq<char>>,
    excludes: Seq<Seq<char>>,
    root: Seq<char>,
    root_index: bool,
    serve_directories: bool,
    url: Seq<char>,
    auth_header: Option<Seq<char>>,
    is_dir: bool,
    entries: Seq<Seq<char>>,
)
    requires
        spec_check_auth(creds, auth_header) == AuthOutcome::Allowed,
    ensures
        spec_plan(
            creds,
            includes,
            excludes,
            root,
            root_index,
            serve_directories,
            url,
            auth_header,
            is_dir,
            entries,
        ) == spec_plan(
            None,
            includes,
            excludes,
            root,
            root_index,
            serve_directories,
            url,
            auth_header,
            is_dir,
            entries,
        ),
{
}

/// What `mime_guess` infers for a path: a content type computed from
/// the path's extension alone.
pub uninterp spec fn mime_of(path: Seq<char>) -> Seq<char>;

/// Relies on `mime_guess::from_path(..).first_or_text_plain()`: the
/// content type shown is a pure function of the path, and the call
/// never panics.
#[verifier::external_body]
fn mime_for_path(path: &str) -> (r: String)
    ensures
        r@ == mime_of(path@),
{
    mime_guess::from_path(path).first_or_text_plain().to_string()
}

/// The reload script block appended to served HTML documents.
pub open spec fn spec_script(port: u16) -> Seq<char> {
    "<script>"@ + spec_js_prefix() + spec_decimal(port as nat) + spec_js_suffix() + "</script>"@
}

/// HTML documents get the reload script when hot reload is on.
pub open spec fn spec_wants_injection(path: Seq<char>, port: Option<u16>) -> bool {
    port is Some && (spec_ends_with(path, ".html"@) || spec_ends_with(path, ".htm"@))
}

/// A served file's final bytes: the content itself, with the UTF-8
/// encoding of the reload script appended to HTML documents when hot
/// reload is on.
pub open spec fn spec_augmented_body(content: Seq<u8>, path: Seq<char>, port: Option<
    u16,
>) -> Seq<u8> {
    if spec_wants_injection(path, port) {
        content + vstd::utf8::encode_utf8(spec_script(port.unwrap()))
    } else {
        content
    }
}

/// A ready file response: its body bytes and content type.
pub struct FileResponse {
    pub body: Vec<u8>,
    pub content_type: String,
}

impl FileResponse {
    /// The exact `Content-Length` owed for this response.
    pub fn content_length(&self) -> (r: usize)
        ensures
            r == self.body@.len(),
    {
        self.body.len()
    }
}

/// Assemble the response for a file read as `content`: the body with
/// the reload script appended to HTML documents when hot reload is on,
/// and the content type inferred from the path.
pub fn build_file_response(path: &str, content: Vec<u8>, hot_reload_port: Option<u16>) -> (r:
    FileResponse)
    ensures
        r.body@ == spec_augmented_body(content@, path@, hot_reload_port),
        r.content_type@ == mime_of(path@),
{
    let mut body = content;
    if let Some(port) = hot_reload_port {
        if str_ends_with(path, ".html") || str_ends_with(path, ".htm") {
            let mut script = "<script>".to_owned();
            let js = get_hotreload_js(port);
            script.append(js.as_str());
            script.append("</script>");
            proof {
                assert(script@ =~= spec_script(port));
            }
            let mut sbytes = script.as_str().as_bytes_vec();
            body.append(&mut sbytes);
        }
    }
    let content_type = mime_for_path(path);
    FileResponse { body, content_type }
}

} // verus!
