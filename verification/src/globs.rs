//! Access filtering by shell-glob patterns.
//!
//! A request path is checked against two pattern lists: excludes win
//! unconditionally; an empty include list admits every path, otherwise at
//! least one include must match. Pattern compilation and matching are done
//! by the `glob` crate behind trusted wrappers.

use vstd::prelude::*;

verus! {

/// Whether `pat` is a syntactically valid shell-glob pattern, exactly the
/// patterns `glob::Pattern::new` accepts.
pub uninterp spec fn glob_syntax_ok(pat: Seq<char>) -> bool;

/// Whether the shell-glob pattern `pat` matches `path`, exactly as
/// `glob::Pattern::matches` decides it (a pure function of the two
/// strings).
pub uninterp spec fn glob_match(pat: Seq<char>, path: Seq<char>) -> bool;

#[verifier::external_type_specification]
#[verifier::external_body]
pub struct ExPattern(glob::Pattern);

/// A pattern string rejected by the glob syntax, with the approximate
/// character position of the problem.
pub(crate) struct PatternSyntaxError {
    pub pos: usize,
}

/// A compiled glob pattern together with its source text. `compiled` is
/// always the compilation of `text`: the only constructor is `new`.
pub(crate) struct GlobPattern {
    text: String,
    compiled: glob::Pattern,
}

impl View for GlobPattern {
    type V = Seq<char>;

    closed spec fn view(&self) -> Seq<char> {
        self.text@
    }
}

impl GlobPattern {
    /// Relies on `glob::Pattern::new`: it returns `Ok` exactly on
    /// syntactically valid patterns and never panics; the compiled form
    /// kept here decides `glob_match` for the same text.
    #[verifier::external_body]
    pub(crate) fn new(text: &str) -> (r: Result<GlobPattern, PatternSyntaxError>)
        ensures
            r is Ok <==> glob_syntax_ok(text@),
            r matches Ok(p) ==> p@ == text@,
    {
        match glob::Pattern::new(text) {
            Ok(compiled) => Ok(GlobPattern { text: text.to_string(), compiled }),
            Err(e) => Err(PatternSyntaxError { pos: e.pos }),
        }
    }

    /// Relies on `glob::Pattern::matches`: a pure decision on the pattern
    /// text and the path, never panicking.
    #[verifier::external_body]
    pub(crate) fn matches(&self, path: &str) -> (r: bool)
        ensures
            r == glob_match(self@, path@),
    {
        self.compiled.matches(path)
    }
}

/// Whether some pattern in `pats` matches `path`.
pub open spec fn some_match(pats: Seq<Seq<char>>, path: Seq<char>) -> bool {
    exists|i: int| 0 <= i < pats.len() && glob_match(pats[i], path)
}

/// The filter's decision: no exclude may match, and either the include
/// list is empty or some include matches.
pub open spec fn spec_allowed(includes: Seq<Seq<char>>, excludes: Seq<Seq<char>>, path: Seq<
    char,
>) -> bool {
    &&& !some_match(excludes, path)
    &&& (includes.len() == 0 || some_match(includes, path))
}

/// The include and exclude pattern lists, compiled once at startup and
/// immutable while serving.
pub struct AccessFilter {
    includes: Vec<GlobPattern>,
    excludes: Vec<GlobPattern>,
}

impl AccessFilter {
    /// The include pattern texts.
    pub closed spec fn spec_includes(&self) -> Seq<Seq<char>> {
        self.includes@.map(|i: int, p: GlobPattern| p@)
    }

    /// The exclude pattern texts.
    pub closed spec fn spec_excludes(&self) -> Seq<Seq<char>> {
        self.excludes@.map(|i: int, p: GlobPattern| p@)
    }

    /// A filter with no patterns at all: it allows every path.
    pub fn new() -> (r: AccessFilter)
        ensures
            r.spec_includes() =~= Seq::<Seq<char>>::empty(),
            r.spec_excludes() =~= Seq::<Seq<char>>::empty(),
    {
        let r = AccessFilter { includes: Vec::new(), excludes: Vec::new() };
        proof {
            assert(r.spec_includes() =~= Seq::<Seq<char>>::empty());
            assert(r.spec_excludes() =~= Seq::<Seq<char>>::empty());
        }
        r
    }

    /// Compile and install the include patterns. On the first invalid
    /// pattern the filter is left unchanged and its index is reported.
    pub fn set_includes(&mut self, pats: &Vec<String>) -> (r: Result<(), usize>)
        ensures
            r is Ok <==> (forall|i: int| 0 <= i < pats@.len() ==> glob_syntax_ok(pats@[i]@)),
            r is Ok ==> final(self).spec_includes() =~= pats@.map(|i: int, s: String| s@),
            r is Ok ==> final(self).spec_excludes() == old(self).spec_excludes(),
            r matches Err(i) ==> 0 <= i < pats@.len() && !glob_syntax_ok(pats@[i as int]@) && (
            forall|j: int| 0 <= j < i ==> glob_syntax_ok(pats@[j]@)) && *final(self) == *old(self),
    {
        match compile_all(pats) {
            Ok(compiled) => {
                self.includes = compiled;
                Ok(())
            },
            Err(i) => Err(i),
        }
    }

    /// Compile and install the exclude patterns. On the first invalid
    /// pattern the filter is left unchanged and its index is reported.
    pub fn set_excludes(&mut self, pats: &Vec<String>) -> (r: Result<(), usize>)
        ensures
            r is Ok <==> (forall|i: int| 0 <= i < pats@.len() ==> glob_syntax_ok(pats@[i]@)),
            r is Ok ==> final(self).spec_excludes() =~= pats@.map(|i: int, s: String| s@),
            r is Ok ==> final(self).spec_includes() == old(self).spec_includes(),
            r matches Err(i) ==> 0 <= i < pats@.len() && !glob_syntax_ok(pats@[i as int]@) && (
            forall|j: int| 0 <= j < i ==> glob_syntax_ok(pats@[j]@)) && *final(self) == *old(self),
    {
        match compile_all(pats) {
            Ok(compiled) => {
                self.excludes = compiled;
                Ok(())
            },
            Err(i) => Err(i),
        }
    }

    /// Decide whether a request for `path` passes the filter: rejected if
    /// any exclude matches, otherwise admitted when the include list is
    /// empty or some include matches.
    pub fn path_is_valid(&self, path: &str) -> (r: bool)
        ensures
            r == spec_allowed(self.spec_includes(), self.spec_excludes(), path@),
    {
        let mut i: usize = 0;
        let n = self.excludes.len();
        while i < n
            invariant
                i <= n,
                n == self.excludes@.len(),
                forall|j: int| 0 <= j < i ==> !glob_match(self.spec_excludes()[j], path@),
            decreases n - i,
        {
            if self.excludes[i].matches(path) {
                proof {
                    assert(glob_match(self.spec_excludes()[i as int], path@));
                }
                return false;
            }
            i = i + 1;
        }
        if self.includes.len() == 0 {
            return true;
        }
        let mut i: usize = 0;
        let n = self.includes.len();
        while i < n
            invariant
                i <= n,
                n == self.includes@.len(),
                n > 0,
                !some_match(self.spec_excludes(), path@),
                forall|j: int| 0 <= j < i ==> !glob_match(self.spec_includes()[j], path@),
            decreases n - i,
        {
            if self.includes[i].matches(path) {
                proof {
                    assert(glob_match(self.spec_includes()[i as int], path@));
                }
                return true;
            }
            i = i + 1;
        }
        false
    }
}

/// Compile every pattern, or report the index of the first invalid one.
fn compile_all(pats: &Vec<String>) -> (r: Result<Vec<GlobPattern>, usize>)
    ensures
        r is Ok <==> (forall|i: int| 0 <= i < pats@.len() ==> glob_syntax_ok(pats@[i]@)),
        r matches Ok(v) ==> v@.map(|i: int, p: GlobPattern| p@) =~= pats@.map(
            |i: int, s: String| s@,
        ),
        r matches Err(i) ==> 0 <= i < pats@.len() && !glob_syntax_ok(pats@[i as int]@) && (forall|
            j: int,
        |
            0 <= j < i ==> glob_syntax_ok(pats@[j]@)),
{
    let mut out: Vec<GlobPattern> = Vec::new();
    let mut i: usize = 0;
    let n = pats.len();
    while i < n
        invariant
            i <= n,
            n == pats@.len(),
            out@.len() == i,
            forall|j: int| 0 <= j < i ==> glob_syntax_ok(pats@[j]@),
            forall|j: int| 0 <= j < i ==> out@[j]@ == pats@[j]@,
        decreases n - i,
    {
        match GlobPattern::new(pats[i].as_str()) {
            Ok(p) => {
                out.push(p);
            },
            Err(_) => {
                return Err(i);
            },
        }
        i = i + 1;
    }
    proof {
        assert(out@.map(|j: int, p: GlobPattern| p@) =~= pats@.map(|j: int, s: String| s@));
    }
    Ok(out)
}

/// Exclusion wins: a path matched by any exclude pattern is never
/// allowed, whatever the include patterns say.
pub proof fn lemma_exclude_wins(
    includes: Seq<Seq<char>>,
    excludes: Seq<Seq<char>>,
    path: Seq<char>,
    i: int,
)
    requires
        0 <= i < excludes.len(),
        glob_match(excludes[i], path),
    ensures
        !spec_allowed(includes, excludes, path),
{
    assert(some_match(excludes, path));
}

/// With no include patterns configured, any path that no exclude matches
/// is allowed.
pub proof fn lemma_empty_includes_allow(
    includes: Seq<Seq<char>>,
    excludes: Seq<Seq<char>>,
    path: Seq<char>,
)
    requires
        includes.len() == 0,
        !some_match(excludes, path),
    ensures
        spec_allowed(includes, excludes, path),
{
}

} // verus!
