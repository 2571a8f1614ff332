//! What the authentication endpoints answer.

use vstd::prelude::*;
use crate::auth::{AuthError, AuthResult};
use crate::cookie::{
    is_header_value_text, is_plain_cookie_value, lemma_refresh_cookie_round_trip, refresh_cookie_text, refresh_cookie_value,
    refresh_token_in,
};

verus! {

/// The authentication endpoints.
#[derive(Debug, Clone, Copy, PartialEq, Eq, Structural)]
pub enum Endpoint {
    /// `POST /auth/signup`
    Signup,
    /// `POST /auth/login`
    Login,
    /// `POST /auth/refresh`
    Refresh,
}

/// An endpoint's answer: the status code, the value of the `Set-Cookie`
/// header if any, and the access token of the JSON body if any.
pub struct HttpReply {
    pub status: u16,
    pub set_cookie: Option<String>,
    pub access_token: Option<String>,
}

/// The status of a successful answer: 201 Created for a sign-up, 200 OK
/// otherwise.
pub open spec fn success_status(e: Endpoint) -> u16 {
    match e {
        Endpoint::Signup => 201,
        _ => 200,
    }
}

/// The status of a refused request: 500 for a sign-up that failed, 401
/// Unauthorized for a login or a refresh.
pub open spec fn refusal_status(e: Endpoint) -> u16 {
    match e {
        Endpoint::Signup => 500,
        _ => 401,
    }
}

/// The optional text of an optional string.
pub open spec fn opt_text(s: Option<String>) -> Option<Seq<char>> {
    match s {
        Some(t) => Some(t@),
        None => None,
    }
}

/// The answer to a refused request: the refusal status, no cookie, no body.
pub fn refused(e: Endpoint) -> (r: HttpReply)
    ensures
        r.status == refusal_status(e),
        r.status >= 400,
        r.set_cookie is None,
        r.access_token is None,
{
    let status: u16 = match e {
        Endpoint::Signup => 500,
        _ => 401,
    };
    HttpReply { status, set_cookie: None, access_token: None }
}

/// The answer once authentication has run: on success the success status,
/// the refresh token in a cookie that lives `refresh_token_ttl` seconds and
/// the access token in the body; on any error, the refusal.
pub fn auth_reply(e: Endpoint, outcome: Result<AuthResult, AuthError>, refresh_token_ttl: i64) -> (r:
    HttpReply)
    ensures
        match outcome {
            Ok(tokens) => {
                &&& r.status == success_status(e)
                &&& 200 <= r.status < 300
                &&& opt_text(r.set_cookie) == Some(
                    refresh_cookie_text(tokens.refresh_token@, refresh_token_ttl as int),
                )
                &&& opt_text(r.access_token) == Some(tokens.access_token@)
                &&& is_header_value_text(r.set_cookie->Some_0@) <==> is_header_value_text(
                    tokens.refresh_token@,
                )
            },
            Err(_) => {
                &&& r.status == refusal_status(e)
                &&& r.status >= 400
                &&& r.set_cookie is None
                &&& r.access_token is None
            },
        },
{
    match outcome {
        Ok(tokens) => {
            let status: u16 = match e {
                Endpoint::Signup => 201,
                _ => 200,
            };
            let cookie = refresh_cookie_value(tokens.refresh_token.as_str(), refresh_token_ttl);
            HttpReply { status, set_cookie: Some(cookie), access_token: Some(tokens.access_token) }
        },
        Err(_) => refused(e),
    }
}

/// Whether a login may go on to issue tokens: the user exists and the
/// password matches.
pub fn login_accepted(user_found: bool, password_matches: bool) -> (r: bool)
    ensures
        r == (user_found && password_matches),
{
    user_found && password_matches
}

/// A successful answer hands the client a cookie from which the refresh
/// token it carries reads back, when that token holds no `';'` and does not
/// end in whitespace.
pub proof fn lemma_reply_cookie_reads_back(e: Endpoint, tokens: AuthResult, ttl: i64, r: HttpReply)
    requires
        is_plain_cookie_value(tokens.refresh_token@),
        r.status == success_status(e),
        opt_text(r.set_cookie) == Some(refresh_cookie_text(tokens.refresh_token@, ttl as int)),
    ensures
        refresh_token_in(r.set_cookie->Some_0@) == Some(tokens.refresh_token@),
{
    lemma_refresh_cookie_round_trip(tokens.refresh_token@, ttl as int);
}

/// Every endpoint answers a success with a 2xx status and a refusal with
/// an error status (4xx or 5xx), so the two are never confused; only a
/// sign-up, which creates a user, answers 201 Created, the others 200 OK.
pub proof fn lemma_statuses(e: Endpoint)
    ensures
        200 <= success_status(e) < 300,
        400 <= refusal_status(e) < 600,
        success_status(e) != refusal_status(e),
        success_status(e) == 201 <==> e == Endpoint::Signup,
        e != Endpoint::Signup ==> success_status(e) == 200,
        e != Endpoint::Signup ==> refusal_status(e) == 401,
{
}

/// Login and refresh answer alike: the same status on success and on
/// refusal.
pub proof fn lemma_login_and_refresh_alike()
    ensures
        success_status(Endpoint::Login) == success_status(Endpoint::Refresh),
        refusal_status(Endpoint::Login) == refusal_status(Endpoint::Refresh),
{
}

} // verus!
