//! Credentials file, login check and session check.

use vstd::prelude::*;
use crate::text::{chars_of, lemma_split_on_concat, lemma_split_on_without, split_chars, split_on, str_eq, string_of};

verus! {

/// Login and password of the user allowed in.
#[derive(Debug)]
pub struct UserInfo {
    pub login: String,
    pub password: String,
}

/// The credentials that a credentials file holds: the text split at spaces
/// must give exactly two pieces, the login and the password.
pub open spec fn user_of(content: Seq<char>) -> Option<(Seq<char>, Seq<char>)> {
    let p = split_on(content, ' ');
    if p.len() == 2 {
        Some((p[0], p[1]))
    } else {
        None
    }
}

/// Reads a credentials file `login password`: the login and the password
/// when the text splits at spaces into exactly two pieces.
pub fn parse_user_file(content: &str) -> (r: Option<UserInfo>)
    ensures
        match user_of(content@) {
            Some((l, p)) => r matches Some(u) && u.login@ == l && u.password@ == p,
            None => r is None,
        },
{
    let c = chars_of(content);
    let pieces = split_chars(&c, ' ');
    proof {
        assert(pieces@.map_values(|p: Vec<char>| p@).len() == pieces@.len());
    }
    if pieces.len() == 2 {
        let ghost views = pieces@.map_values(|p: Vec<char>| p@);
        assert(views[0] == pieces@[0]@);
        assert(views[1] == pieces@[1]@);
        Some(UserInfo { login: string_of(&pieces[0]), password: string_of(&pieces[1]) })
    } else {
        None
    }
}

/// A credentials line built from a login and a password without spaces
/// reads back as that login and password.
pub proof fn lemma_user_file_roundtrip(login: Seq<char>, password: Seq<char>)
    requires
        !login.contains(' '),
        !password.contains(' '),
    ensures
        user_of(login + seq![' '] + password) == Some((login, password)),
{
    lemma_split_on_concat(login, ' ', password);
    lemma_split_on_without(login, ' ');
    lemma_split_on_without(password, ' ');
    assert(split_on(login + seq![' '] + password, ' ') =~= seq![login, password]);
}

/// The user and whether logging in is required.
pub struct AuthConfig {
    pub user: UserInfo,
    pub enabled: bool,
}

/// The authentication setup from the credentials file: logging in is
/// required exactly when the file holds credentials; otherwise the user is
/// empty.
pub fn auth_config(content: &str) -> (r: AuthConfig)
    ensures
        match user_of(content@) {
            Some((l, p)) => r.enabled && r.user.login@ == l && r.user.password@ == p,
            None => !r.enabled && r.user.login@.len() == 0 && r.user.password@.len() == 0,
        },
{
    match parse_user_file(content) {
        Some(u) => AuthConfig { user: u, enabled: true },
        None => AuthConfig {
            user: UserInfo { login: String::new(), password: String::new() },
            enabled: false,
        },
    }
}

/// A login attempt succeeds when logging in is required, a user is set up,
/// and both login and password equal that user's.
pub open spec fn login_ok(enabled: bool, user: Option<(Seq<char>, Seq<char>)>, login: Seq<char>, password: Seq<char>) -> bool {
    enabled && (user matches Some(u) && u.0 == login && u.1 == password)
}

/// Whether a login attempt with `payload` is accepted.
pub fn login_accepted(enabled: bool, user: Option<&UserInfo>, payload: &UserInfo) -> (r: bool)
    ensures
        r == login_ok(
            enabled,
            match user { Some(u) => Some((u.login@, u.password@)), None => None },
            payload.login@,
            payload.password@,
        ),
{
    if !enabled {
        return false;
    }
    match user {
        Some(u) => payload.login == u.login && payload.password == u.password,
        None => false,
    }
}

/// The session cookie's value after a successful login.
pub open spec fn session_token() -> Seq<char> {
    "auth"@
}

/// The name of the session cookie.
pub fn session_cookie_name() -> (r: &'static str)
    ensures
        r@ == "session"@,
{
    "session"
}

/// The value that a successful login stores in the session cookie.
pub fn session_cookie_value() -> (r: &'static str)
    ensures
        r@ == session_token(),
{
    "auth"
}

/// The session cookie that a successful login sets, with its attributes.
pub struct SessionCookie {
    pub name: &'static str,
    pub value: &'static str,
    /// The path under which the browser sends the cookie.
    pub path: &'static str,
    /// Hidden from page scripts.
    pub http_only: bool,
    /// Sent only with requests that come from this site.
    pub same_site_strict: bool,
    /// Kept across browser restarts (a far expiry date).
    pub permanent: bool,
}

/// The cookie a successful login sets: `session` holding the session token,
/// for the whole site, hidden from scripts, same-site only and permanent.
pub fn session_cookie() -> (c: SessionCookie)
    ensures
        c.name@ == "session"@,
        c.value@ == session_token(),
        c.path@ == "/"@,
        c.http_only,
        c.same_site_strict,
        c.permanent,
{
    SessionCookie {
        name: session_cookie_name(),
        value: session_cookie_value(),
        path: "/",
        http_only: true,
        same_site_strict: true,
        permanent: true,
    }
}

/// A request may browse when logging in is not required, or its verified
/// session cookie holds the session token.
pub open spec fn session_ok(enabled: bool, session: Option<Seq<char>>) -> bool {
    !enabled || session == Some(session_token())
}

/// Whether a request with the given verified session cookie value may browse;
/// otherwise it is sent to the login page.
pub fn session_allows(enabled: bool, session: Option<&str>) -> (r: bool)
    ensures
        r == session_ok(enabled, match session { Some(v) => Some(v@), None => None }),
{
    if !enabled {
        return true;
    }
    match session {
        Some(v) => str_eq(v, "auth"),
        None => false,
    }
}

/// After a successful login the session cookie it sets lets requests browse.
pub proof fn lemma_login_opens_session(
    enabled: bool,
    user: Option<(Seq<char>, Seq<char>)>,
    login: Seq<char>,
    password: Seq<char>,
)
    requires
        login_ok(enabled, user, login, password),
    ensures
        session_ok(enabled, Some(session_token())),
{
}

/// A request without a session cookie is refused exactly when logging in is required.
pub proof fn lemma_no_cookie_refused(enabled: bool)
    ensures
        session_ok(enabled, None) == !enabled,
{
}

/// When logging in is not required, every login attempt is refused.
pub proof fn lemma_login_refused_when_disabled(
    user: Option<(Seq<char>, Seq<char>)>,
    login: Seq<char>,
    password: Seq<char>,
)
    ensures
        !login_ok(false, user, login, password),
{
}

} // verus!
