//! Basic-authentication checking.
//!
//! When credentials are configured, a request must carry an
//! `Authorization` header whose Base64 payload decodes to
//! `username:password` matching them exactly. A missing header asks the
//! client for credentials; a malformed or mismatched one is rejected.

use crate::strutil::{spec_starts_with, str_eq, str_starts_with, find_char};
use base64::Engine;
use vstd::prelude::*;
use vstd::utf8::{decode_utf8, valid_utf8};

verus! {

/// The configured username and password.
pub struct Credentials {
    pub username: String,
    pub password: String,
}

/// The outcome of the authentication gate.
#[derive(Clone, Copy, Debug, PartialEq, Eq, Structural)]
pub enum AuthOutcome {
    /// The request may proceed.
    Allowed,
    /// No credentials were presented; challenge the client.
    ChallengeRequired,
    /// Credentials were presented but are malformed or wrong.
    Rejected,
}

/// What `base64::engine::general_purpose::STANDARD.decode` returns for a
/// string: a pure function of the input.
pub uninterp spec fn base64_decoded(s: Seq<char>) -> Option<Seq<u8>>;

/// Relies on the `base64` crate's `STANDARD` engine `decode`: it decides
/// and computes the decoding from the input alone, and never panics.
#[verifier::external_body]
fn decode_base64(s: &str) -> (r: Option<Vec<u8>>)
    ensures
        r is Some <==> base64_decoded(s@) is Some,
        r matches Some(v) ==> base64_decoded(s@) == Some(v@),
{
    base64::engine::general_purpose::STANDARD.decode(s).ok()
}

/// Relies on `String::from_utf8` (std): `Ok` exactly on valid UTF-8,
/// yielding its decoding.
#[verifier::external_body]
fn bytes_to_string(v: Vec<u8>) -> (r: Option<String>)
    ensures
        r is Some <==> valid_utf8(v@),
        r matches Some(s) ==> s@ == decode_utf8(v@),
{
    String::from_utf8(v).ok()
}

/// Split `username:password` at the first colon: `None` when there is no
/// colon at all.
pub open spec fn spec_split_auth(s: Seq<char>) -> Option<(Seq<char>, Seq<char>)>
    decreases s.len(),
{
    if s.len() == 0 {
        None
    } else if s[0] == ':' {
        Some((Seq::<char>::empty(), s.drop_first()))
    } else {
        match spec_split_auth(s.drop_first()) {
            None => None,
            Some((u, p)) => Some((seq![s[0]] + u, p)),
        }
    }
}

proof fn lemma_split_auth_at(s: Seq<char>, i: int)
    requires
        0 <= i < s.len(),
        s[i] == ':',
        forall|j: int| 0 <= j < i ==> s[j] != ':',
    ensures
        spec_split_auth(s) == Some((s.subrange(0, i), s.subrange(i + 1, s.len() as int))),
    decreases i,
{
    if i == 0 {
        assert(s.subrange(0, 0) =~= Seq::<char>::empty());
        assert(s.subrange(1, s.len() as int) =~= s.drop_first());
    } else {
        lemma_split_auth_at(s.drop_first(), i - 1);
        assert(seq![s[0]] + s.drop_first().subrange(0, i - 1) =~= s.subrange(0, i));
        assert(s.drop_first().subrange(i, s.len() - 1) =~= s.subrange(i + 1, s.len() as int));
    }
}

proof fn lemma_split_auth_none(s: Seq<char>)
    requires
        forall|j: int| 0 <= j < s.len() ==> s[j] != ':',
    ensures
        spec_split_auth(s) is None,
    decreases s.len(),
{
    if s.len() > 0 {
        lemma_split_auth_none(s.drop_first());
    }
}

/// Split a `username:password` argument at its first colon.
pub fn split_basic_auth(auth: &str) -> (r: Option<(String, String)>)
    ensures
        r is Some <==> spec_split_auth(auth@) is Some,
        r matches Some(t) ==> spec_split_auth(auth@) == Some((t.0@, t.1@)),
{
    match find_char(auth, ':') {
        Some(i) => {
            let n = auth.unicode_len();
            let user = auth.substring_char(0, i).to_owned();
            let pass = auth.substring_char(i + 1, n).to_owned();
            proof {
                lemma_split_auth_at(auth@, i as int);
            }
            Some((user, pass))
        },
        None => {
            proof {
                lemma_split_auth_none(auth@);
            }
            None
        },
    }
}

/// The `Authorization` payload: the text after a `Basic ` prefix, or the
/// header value itself when the prefix is absent.
pub open spec fn spec_strip_basic(h: Seq<char>) -> Seq<char> {
    if spec_starts_with(h, "Basic "@) {
        h.skip("Basic "@.len() as int)
    } else {
        h
    }
}

/// The view of an optional string.
pub open spec fn opt_str_view(h: &Option<String>) -> Option<Seq<char>> {
    match h {
        Some(s) => Some(s@),
        None => None,
    }
}

/// The authentication decision, step by step: no configured credentials
/// admit everything; a missing header draws a challenge; then the Base64
/// payload must decode to UTF-8 text of the form `username:password`
/// matching the configured pair exactly.
pub open spec fn spec_check_auth(creds: Option<Credentials>, header: Option<Seq<char>>) -> AuthOutcome {
    match creds {
        None => AuthOutcome::Allowed,
        Some(c) => match header {
            None => AuthOutcome::ChallengeRequired,
            Some(h) => match base64_decoded(spec_strip_basic(h)) {
                None => AuthOutcome::Rejected,
                Some(bytes) => if !valid_utf8(bytes) {
                    AuthOutcome::Rejected
                } else {
                    match spec_split_auth(decode_utf8(bytes)) {
                        None => AuthOutcome::Rejected,
                        Some((u, p)) => if u == c.username@ && p == c.password@ {
                            AuthOutcome::Allowed
                        } else {
                            AuthOutcome::Rejected
                        },
                    }
                },
            },
        },
    }
}

/// Validate a request's `Authorization` header against the configured
/// credentials.
pub fn check_auth(creds: &Option<Credentials>, header: &Option<String>) -> (r: AuthOutcome)
    ensures
        r == spec_check_auth(*creds, opt_str_view(header)),
{
    match creds {
        None => AuthOutcome::Allowed,
        Some(c) => match header {
            None => AuthOutcome::ChallengeRequired,
            Some(h) => {
                proof {
                    reveal_strlit("Basic ");
                }
                let hs = h.as_str();
                let payload: &str = if str_starts_with(hs, "Basic ") {
                    let hl = hs.unicode_len();
                    let stripped = hs.substring_char(6, hl);
                    proof {
                        assert(stripped@ =~= h@.skip("Basic "@.len() as int));
                    }
                    stripped
                } else {
                    hs
                };
                match decode_base64(payload) {
                    None => AuthOutcome::Rejected,
                    Some(bytes) => match bytes_to_string(bytes) {
                        None => AuthOutcome::Rejected,
                        Some(s) => match split_basic_auth(s.as_str()) {
                            None => AuthOutcome::Rejected,
                            Some((u, p)) => {
                                if str_eq(u.as_str(), c.username.as_str()) && str_eq(
                                    p.as_str(),
                                    c.password.as_str(),
                                ) {
                                    AuthOutcome::Allowed
                                } else {
                                    AuthOutcome::Rejected
                                }
                            },
                        },
                    },
                }
            },
        },
    }
}

/// The credentials that a `username:password` command-line argument
/// configures: both fields must be present and non-empty, else
/// authentication stays disabled.
pub open spec fn spec_credentials_from_arg(arg: Option<Seq<char>>) -> Option<(Seq<char>, Seq<char>)> {
    match arg {
        None => None,
        Some(s) => match spec_split_auth(s) {
            None => None,
            Some((u, p)) => if u.len() > 0 && p.len() > 0 {
                Some((u, p))
            } else {
                None
            },
        },
    }
}

/// Build the configured credentials from an optional `username:password`
/// argument.
pub fn credentials_from_arg(arg: &Option<String>) -> (r: Option<Credentials>)
    ensures
        r is Some <==> spec_credentials_from_arg(opt_str_view(arg)) is Some,
        r matches Some(c) ==> spec_credentials_from_arg(opt_str_view(arg)) == Some(
            (c.username@, c.password@),
        ),
{
    match arg {
        None => None,
        Some(s) => match split_basic_auth(s.as_str()) {
            None => None,
            Some((u, p)) => {
                if u.as_str().unicode_len() > 0 && p.as_str().unicode_len() > 0 {
                    Some(Credentials { username: u, password: p })
                } else {
                    None
                }
            },
        },
    }
}

} // verus!
