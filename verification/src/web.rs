//! The web application's shared pieces: accounts, response-format
//! negotiation, the error taxonomy of the front end, and the payloads the
//! pages render.

use vstd::prelude::*;

use crate::challenge::{Challenge, ChallengeWithAuthorInfo};
use crate::display::OutputDisplay;
use crate::solutions::{InvalidatedSolution, LeaderboardEntry};
use crate::text::{escape_html, spec_escape_html};
use vstd::string::StringSliceAdditionalSpecFns;

verus! {

/// A logged-in user.
#[derive(Clone, PartialEq, Eq, Debug)]
pub struct Account {
    pub id: i32,
    pub username: String,
    pub avatar: String,
}

/// Why no account could be attached to a request.
#[derive(Clone, Copy, PartialEq, Eq, Structural, Debug)]
pub enum AccountFetchError {
    SessionLoadFailed,
    NoSession,
    NotLoggedIn,
    NoAccountFound,
    DatabaseLoadFailed,
}

/// The user data the identity provider reports back.
#[derive(Clone, PartialEq, Eq, Debug)]
pub struct GithubUser {
    pub login: String,
    pub id: i64,
    pub avatar_url: String,
}

/// The key a freshly inserted row got.
#[derive(Clone, Copy, PartialEq, Eq, Structural, Debug)]
pub struct InsertedId(pub i32);

/// Why a sign-in attempt failed.
#[derive(Clone, Copy, PartialEq, Eq, Structural, Debug)]
pub enum OauthError {
    TokenExchange,
    UserInfoFetch,
    Deserialization,
    CsrfValidation,
}

/// What went wrong serving a page.
#[derive(Clone, PartialEq, Eq, Debug)]
pub enum Error {
    NotFound,
    ServerError,
    Database(String),
    Oauth(OauthError),
    RunLang(String),
    PermissionDenied(String),
}

/// The template data every HTML page carries.
#[derive(Clone, PartialEq, Eq, Debug)]
pub struct HtmlContext {
    pub account: Option<Account>,
}

/// How a response is rendered: as data, or as a page with its context.
pub enum Format {
    Json,
    Html(Box<HtmlContext>),
}

// ---------------------------------------------------------------------------
// Format negotiation
// ---------------------------------------------------------------------------

/// Whether `s` ends with `suffix`.
pub open spec fn spec_has_suffix(s: Seq<char>, suffix: Seq<char>) -> bool {
    s.len() >= suffix.len() && s.subrange(s.len() - suffix.len(), s.len() as int) == suffix
}

fn has_suffix(s: &str, suffix: &str) -> (r: bool)
    ensures
        r == spec_has_suffix(s@, suffix@),
{
    let n = s.unicode_len();
    let m = suffix.unicode_len();
    if m > n {
        return false;
    }
    let mut j: usize = 0;
    while j < m
        invariant
            j <= m,
            m <= n,
            n == s@.len(),
            m == suffix@.len(),
            forall|k: int| 0 <= k < j ==> s@[n - m + k] == suffix@[k],
        decreases m - j,
    {
        if s.get_char(n - m + j) != suffix.get_char(j) {
            proof {
                assert(s@.subrange(n - m, n as int)[j as int] == s@[n - m + j]);
            }
            return false;
        }
        j = j + 1;
    }
    proof {
        assert(s@.subrange(n - m, n as int) =~= suffix@);
    }
    true
}

/// A byte lowered to its ASCII lower-case form.
pub open spec fn spec_lower_byte(b: u8) -> u8 {
    if ('A' as u8) <= b && b <= ('Z' as u8) {
        (b + 32) as u8
    } else {
        b
    }
}

/// Whether two byte strings are equal up to ASCII case.
pub open spec fn spec_eq_ignore_ascii_case(a: Seq<u8>, b: Seq<u8>) -> bool {
    a.map_values(|x: u8| spec_lower_byte(x)) == b.map_values(|x: u8| spec_lower_byte(x))
}

fn eq_ignore_ascii_case_bytes(a: &[u8], b: &[u8]) -> (r: bool)
    ensures
        r == spec_eq_ignore_ascii_case(a@, b@),
{
    let ghost la = a@.map_values(|x: u8| spec_lower_byte(x));
    let ghost lb = b@.map_values(|x: u8| spec_lower_byte(x));
    if a.len() != b.len() {
        proof {
            assert(la.len() != lb.len());
        }
        return false;
    }
    let n = a.len();
    let mut i: usize = 0;
    while i < n
        invariant
            i <= n,
            n == a@.len(),
            n == b@.len(),
            la == a@.map_values(|x: u8| spec_lower_byte(x)),
            lb == b@.map_values(|x: u8| spec_lower_byte(x)),
            forall|k: int| 0 <= k < i ==> #[trigger] la[k] == lb[k],
        decreases n - i,
    {
        let mut x = a[i];
        let mut y = b[i];
        if ('A' as u8) <= x && x <= ('Z' as u8) {
            x = x + 32;
        }
        if ('A' as u8) <= y && y <= ('Z' as u8) {
            y = y + 32;
        }
        if x != y {
            proof {
                assert(la[i as int] == spec_lower_byte(a@[i as int]));
                assert(lb[i as int] == spec_lower_byte(b@[i as int]));
            }
            return false;
        }
        proof {
            assert(la[i as int] == spec_lower_byte(a@[i as int]));
            assert(lb[i as int] == spec_lower_byte(b@[i as int]));
        }
        i = i + 1;
    }
    proof {
        assert(la =~= lb);
    }
    true
}

/// Whether a request asks for data rather than a page: its path ends in
/// `.json`, or its accept header names JSON exactly, case-insensitively.
pub open spec fn spec_wants_json(path: Seq<char>, accept: Option<Seq<u8>>) -> bool {
    spec_has_suffix(path, ".json"@) || (accept matches Some(h)
        && spec_eq_ignore_ascii_case(h, vstd::utf8::encode_utf8("application/json"@)))
}

/// Decides the response format for one request.
pub fn wants_json(path: &str, accept: Option<&Vec<u8>>) -> (r: bool)
    ensures
        r == spec_wants_json(path@, match accept {
            Some(h) => Some(h@),
            None => None,
        }),
{
    if has_suffix(path, ".json") {
        return true;
    }
    match accept {
        Some(h) => {
            let k = "application/json";
            proof {
                assert(k.spec_bytes() == vstd::utf8::encode_utf8("application/json"@));
            }
            eq_ignore_ascii_case_bytes(h.as_slice(), k.as_bytes())
        },
        None => false,
    }
}

// ---------------------------------------------------------------------------
// Trailing-slash redirects
// ---------------------------------------------------------------------------

/// `s` with every trailing slash removed.
pub open spec fn spec_trim_trailing_slashes(s: Seq<char>) -> Seq<char>
    decreases s.len(),
{
    if s.len() > 0 && s.last() == '/' {
        spec_trim_trailing_slashes(s.drop_last())
    } else {
        s
    }
}

/// The redirect target for a path with trailing slashes: the path without
/// them. A path without trailing slashes redirects nowhere.
pub fn strip_trailing_slashes(path: &str) -> (r: Option<String>)
    ensures
        ({
            match r {
                Some(t) => path@.len() > 0 && path@.last() == '/' && t@
                    == spec_trim_trailing_slashes(path@),
                None => path@.len() == 0 || path@.last() != '/',
            }
        }),
{
    let n = path.unicode_len();
    if n == 0 || path.get_char(n - 1) != '/' {
        return None;
    }
    let mut hi = n;
    proof {
        assert(path@.take(n as int) =~= path@);
    }
    while hi > 0 && path.get_char(hi - 1) == '/'
        invariant
            hi <= n,
            n == path@.len(),
            spec_trim_trailing_slashes(path@) == spec_trim_trailing_slashes(
                path@.take(hi as int),
            ),
        decreases hi,
    {
        proof {
            assert(path@.take(hi as int).last() == path@[hi - 1]);
            assert(path@.take(hi as int).drop_last() =~= path@.take(hi as int - 1));
        }
        hi = hi - 1;
    }
    let t = path.substring_char(0, hi);
    proof {
        assert(path@.take(hi as int) =~= path@.subrange(0, hi as int));
        if hi > 0 {
            assert(path@.take(hi as int).last() == path@[hi - 1]);
        }
        assert(spec_trim_trailing_slashes(path@.take(hi as int)) == path@.take(hi as int));
    }
    Some(t.to_owned())
}

// ---------------------------------------------------------------------------
// Error responses
// ---------------------------------------------------------------------------

/// The body rendered for a not-found page.
pub open spec fn spec_not_found_body() -> Seq<char> {
    "<h2>Not Found</h2><a href=\"/\">Back to Home</a>"@
}

/// The status and body of each error response. Text taken from the error is
/// escaped before it is put into markup.
pub open spec fn spec_error_status_body(e: &Error) -> (int, Seq<char>) {
    match e {
        Error::NotFound => (404int, spec_not_found_body()),
        Error::ServerError => (500int, Seq::empty()),
        Error::Database(m) => (
            500int,
            "<h2>Database Error</h2><pre>"@ + spec_escape_html(m@) + "</pre>"@,
        ),
        Error::Oauth(o) => (
            500int,
            match o {
                OauthError::TokenExchange => "TokenExchange"@,
                OauthError::UserInfoFetch => "UserInfoFetch"@,
                OauthError::Deserialization => "Deserialization"@,
                OauthError::CsrfValidation => "CsrfValidation"@,
            },
        ),
        Error::RunLang(m) => (
            500int,
            "<h2>Lang Runner Error</h2><pre>"@ + spec_escape_html(m@) + "</pre>"@,
        ),
        Error::PermissionDenied(m) => (
            403int,
            "<h2>Not Authorized</h2><p>"@ + spec_escape_html(m@) + "</p>"@,
        ),
    }
}

impl Error {
    /// Renders this error as a transport status and a body, as
    /// [`spec_error_status_body`] states.
    pub fn status_and_body(&self) -> (r: (u16, String))
        ensures
            r.0 as int == spec_error_status_body(self).0,
            r.1@ == spec_error_status_body(self).1,
    {
        match self {
            Error::NotFound => (404, "<h2>Not Found</h2><a href=\"/\">Back to Home</a>".to_owned()),
            Error::ServerError => (500, String::new()),
            Error::Database(m) => {
                let mut body = String::new();
                body.append("<h2>Database Error</h2><pre>");
                let esc = escape_html(m.as_str());
                body.append(esc.as_str());
                body.append("</pre>");
                proof {
                    assert(body@ =~= spec_error_status_body(self).1);
                }
                (500, body)
            },
            Error::Oauth(o) => (
                500,
                match o {
                    OauthError::TokenExchange => "TokenExchange".to_owned(),
                    OauthError::UserInfoFetch => "UserInfoFetch".to_owned(),
                    OauthError::Deserialization => "Deserialization".to_owned(),
                    OauthError::CsrfValidation => "CsrfValidation".to_owned(),
                },
            ),
            Error::RunLang(m) => {
                let mut body = String::new();
                body.append("<h2>Lang Runner Error</h2><pre>");
                let esc = escape_html(m.as_str());
                body.append(esc.as_str());
                body.append("</pre>");
                proof {
                    assert(body@ =~= spec_error_status_body(self).1);
                }
                (500, body)
            },
            Error::PermissionDenied(m) => {
                let mut body = String::new();
                body.append("<h2>Not Authorized</h2><p>");
                let esc = escape_html(m.as_str());
                body.append(esc.as_str());
                body.append("</p>");
                proof {
                    assert(body@ =~= spec_error_status_body(self).1);
                }
                (403, body)
            },
        }
    }
}

// ---------------------------------------------------------------------------
// Page payloads
// ---------------------------------------------------------------------------

/// The home page: live and beta challenges, and whether the viewer has
/// invalidated solutions to attend to.
pub struct AllChallengesOutput {
    pub public_challenges: Vec<Challenge>,
    pub beta_challenges: Vec<Challenge>,
    pub invalid_solutions_exist: bool,
}

/// One challenge's solve page: the challenge, its board, and the viewer's
/// own code and latest run.
pub struct AllSolutionsOutput {
    pub challenge: ChallengeWithAuthorInfo,
    pub leaderboard: Vec<LeaderboardEntry>,
    pub tests: Option<OutputDisplay>,
    pub code: Option<String>,
    pub previous_solution_invalid: bool,
    pub language: String,
}

/// One row of the solutions listed on a user's page.
#[derive(Clone, PartialEq, Eq, Debug)]
pub struct UserPageLeaderboardEntry {
    pub language: String,
    pub score: i32,
    pub challenge_id: i32,
    pub challenge_name: String,
}

/// A user's page: their solutions, and their invalidated ones when they view
/// their own page.
pub struct UserInfo {
    pub user_name: String,
    pub solutions: Vec<UserPageLeaderboardEntry>,
    pub invalidated_solutions: Option<Vec<InvalidatedSolution>>,
    pub id: i32,
}

/// Whether a user page shows its invalidated solutions: only the owner sees
/// them.
pub fn show_invalidated(viewer: Option<&Account>, page_user_id: i32) -> (r: bool)
    ensures
        r == (viewer matches Some(a) && a.id == page_user_id),
{
    match viewer {
        Some(a) => a.id == page_user_id,
        None => false,
    }
}


/// Marker for the session store that keeps each session in one file; the
/// file handling itself lives with the application's I/O.
#[derive(Clone, Copy, PartialEq, Eq, Structural, Debug)]
pub struct FileSessionStorage;

/// Marker for the template filter that renders markdown; the rendering
/// itself lives with the application's template engine.
#[derive(Clone, Copy, PartialEq, Eq, Structural, Debug)]
pub struct MarkdownFilter;

} // verus!
