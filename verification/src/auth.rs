//! The authentication flows: issuing a pair of tokens to a user, and
//! exchanging a valid refresh token for a new pair.
//!
//! The flows wait on the refresh-token store between their steps, so each
//! is a state machine: a step takes the state and what the store answered,
//! and gives the next state and what to do next. Whoever drives the flow
//! performs the action and feeds the answer back, together with the current
//! time and a freshly generated refresh token (and the hash under which it
//! is stored), which a step uses when it issues a new refresh token.

use vstd::prelude::*;
use crate::clock::{add_seconds, in_time_range, later_by, Timestamp};
use crate::domain::{RefreshToken, RefreshTokenView};
use crate::jwt::{
    access_token_text, generate_access_token_at, lemma_access_token_determines_claims,
    AccessTokenClaims, TokenError,
};

verus! {

/// Why authentication failed.
#[derive(Debug, Clone, Copy, PartialEq, Eq, Structural)]
pub enum AuthError {
    InvalidCredentials,
    InvalidRefreshToken,
    TokenExpired,
    TokenRevoked,
    DatabaseError,
    JwtError,
    InternalError,
}

/// The tokens handed to an authenticated client.
pub struct AuthResult {
    pub access_token: String,
    pub refresh_token: String,
}

/// What a service issuing tokens needs: the secret that signs access tokens
/// and how long each kind of token lives, in seconds.
pub struct AuthService {
    jwt_secret: String,
    access_token_ttl: i64,
    refresh_token_ttl: i64,
}

/// A newly generated refresh token and the hash under which it is stored.
pub struct FreshRefreshToken {
    pub token: String,
    pub token_hash: String,
}

/// Where a flow stands.
pub enum AuthFlow {
    /// Issuing tokens: waiting for the new refresh token to be stored;
    /// holds the tokens to hand out.
    Authenticating(AuthResult),
    /// Refreshing: waiting for the store to look up the presented token.
    FindingToken,
    /// Refreshing: waiting for the presented token to be revoked.
    Revoking { user_id: u128 },
    /// Refreshing: waiting for the new refresh token to be stored.
    Storing { user_id: u128, refresh_token: String },
    /// The flow has replied.
    Finished,
}

/// What the flow asks for next.
pub enum AuthAction {
    /// Store a refresh token, by its hash, for a user until `expires_at`.
    CreateRefreshToken { user_id: u128, token_hash: String, expires_at: Timestamp },
    /// Look up the stored token with this hash that is neither revoked nor
    /// expired.
    FindValidRefreshToken { token_hash: String },
    /// Revoke the stored token with this id.
    RevokeRefreshToken { id: u128 },
    /// The flow is over: this is its answer.
    Reply(Result<AuthResult, AuthError>),
}

/// What the store answered.
pub enum StoreEvent {
    /// Storing a refresh token succeeded (`true`) or failed.
    Created(bool),
    /// The lookup succeeded: the valid token found, if any.
    Found(Option<RefreshToken>),
    /// The lookup failed.
    FindFailed,
    /// Revoking succeeded (`true`) or failed.
    Revoked(bool),
}

/// The view of a flow's state.
pub enum FlowView {
    Authenticating { access_token: Seq<char>, refresh_token: Seq<char> },
    FindingToken,
    Revoking { user_id: u128 },
    Storing { user_id: u128, refresh_token: Seq<char> },
    Finished,
}

/// The view of an action.
pub enum ActionView {
    Create { user_id: u128, token_hash: Seq<char>, expires_at: Timestamp },
    FindValid { token_hash: Seq<char> },
    Revoke { id: u128 },
    /// The answer: the access and refresh tokens, or the error.
    Reply(Result<(Seq<char>, Seq<char>), AuthError>),
}

/// The view of a store's answer.
pub enum EventView {
    Created(bool),
    Found(Option<RefreshTokenView>),
    FindFailed,
    Revoked(bool),
}

impl View for AuthFlow {
    type V = FlowView;

    open spec fn view(&self) -> FlowView {
        match self {
            AuthFlow::Authenticating(r) => FlowView::Authenticating {
                access_token: r.access_token@,
                refresh_token: r.refresh_token@,
            },
            AuthFlow::FindingToken => FlowView::FindingToken,
            AuthFlow::Revoking { user_id } => FlowView::Revoking { user_id: *user_id },
            AuthFlow::Storing { user_id, refresh_token } => FlowView::Storing {
                user_id: *user_id,
                refresh_token: refresh_token@,
            },
            AuthFlow::Finished => FlowView::Finished,
        }
    }
}

impl View for AuthAction {
    type V = ActionView;

    open spec fn view(&self) -> ActionView {
        match self {
            AuthAction::CreateRefreshToken { user_id, token_hash, expires_at } => ActionView::Create {
                user_id: *user_id,
                token_hash: token_hash@,
                expires_at: *expires_at,
            },
            AuthAction::FindValidRefreshToken { token_hash } => ActionView::FindValid {
                token_hash: token_hash@,
            },
            AuthAction::RevokeRefreshToken { id } => ActionView::Revoke { id: *id },
            AuthAction::Reply(Ok(r)) => ActionView::Reply(Ok((r.access_token@, r.refresh_token@))),
            AuthAction::Reply(Err(e)) => ActionView::Reply(Err(*e)),
        }
    }
}

impl View for StoreEvent {
    type V = EventView;

    open spec fn view(&self) -> EventView {
        match self {
            StoreEvent::Created(ok) => EventView::Created(*ok),
            StoreEvent::Found(Some(t)) => EventView::Found(Some(t@)),
            StoreEvent::Found(None) => EventView::Found(None),
            StoreEvent::FindFailed => EventView::FindFailed,
            StoreEvent::Revoked(ok) => EventView::Revoked(*ok),
        }
    }
}

/// A reply that ends a flow with an error.
pub open spec fn failure(e: AuthError) -> (FlowView, ActionView) {
    (FlowView::Finished, ActionView::Reply(Err(e)))
}

impl AuthService {
    /// The bytes of the secret that signs access tokens.
    pub closed spec fn secret(&self) -> Seq<u8> {
        vstd::utf8::encode_utf8(self.jwt_secret@)
    }

    /// How long an access token lives, in seconds.
    pub closed spec fn access_ttl(&self) -> i64 {
        self.access_token_ttl
    }

    /// How long a refresh token lives, in seconds.
    pub closed spec fn refresh_ttl(&self) -> i64 {
        self.refresh_token_ttl
    }

    /// A service that signs access tokens with `jwt_secret` and gives
    /// tokens the lifetimes given, in seconds.
    pub fn new(jwt_secret: String, access_token_ttl: i64, refresh_token_ttl: i64) -> (s: Self)
        ensures
            s.secret() == vstd::utf8::encode_utf8(jwt_secret@),
            s.access_ttl() == access_token_ttl,
            s.refresh_ttl() == refresh_token_ttl,
    {
        AuthService { jwt_secret, access_token_ttl, refresh_token_ttl }
    }

    /// The access token issued to a user at `now`, or the error: a token
    /// whose expiry falls outside the range of dates cannot be made.
    pub open spec fn access_token_at(&self, user_id: u128, now: Timestamp) -> Result<
        Seq<char>,
        AuthError,
    > {
        if in_time_range(now.seconds + self.access_ttl()) {
            Ok(
                access_token_text(
                    AccessTokenClaims { sub: user_id, exp: (now.seconds + self.access_ttl()) as i64 },
                    self.secret(),
                ),
            )
        } else {
            Err(AuthError::InternalError)
        }
    }

    /// The first step of issuing tokens to a user at `now`: make the access
    /// token, then store the fresh refresh token until `now` plus its
    /// lifetime.
    pub open spec fn authenticate_step(
        &self,
        user_id: u128,
        now: Timestamp,
        fresh_token: Seq<char>,
        fresh_hash: Seq<char>,
    ) -> (FlowView, ActionView) {
        match self.access_token_at(user_id, now) {
            Err(e) => failure(e),
            Ok(access_token) => if in_time_range(now.seconds + self.refresh_ttl()) {
                (
                    FlowView::Authenticating { access_token, refresh_token: fresh_token },
                    ActionView::Create {
                        user_id,
                        token_hash: fresh_hash,
                        expires_at: later_by(now, self.refresh_ttl() as int),
                    },
                )
            } else {
                failure(AuthError::InternalError)
            },
        }
    }

    /// How a flow goes on from a state once the store has answered.
    pub open spec fn resume_step(
        &self,
        flow: FlowView,
        event: EventView,
        now: Timestamp,
        fresh_token: Seq<char>,
        fresh_hash: Seq<char>,
    ) -> (FlowView, ActionView) {
        match (flow, event) {
            (FlowView::Authenticating { access_token, refresh_token }, EventView::Created(ok)) => {
                if ok {
                    (FlowView::Finished, ActionView::Reply(Ok((access_token, refresh_token))))
                } else {
                    failure(AuthError::DatabaseError)
                }
            },
            (FlowView::FindingToken, EventView::FindFailed) => failure(AuthError::DatabaseError),
            (FlowView::FindingToken, EventView::Found(None)) => failure(
                AuthError::InvalidRefreshToken,
            ),
            (FlowView::FindingToken, EventView::Found(Some(stored))) => (
                FlowView::Revoking { user_id: stored.user_id },
                ActionView::Revoke { id: stored.id },
            ),
            (FlowView::Revoking { user_id }, EventView::Revoked(ok)) => {
                if !ok {
                    failure(AuthError::DatabaseError)
                } else if !in_time_range(now.seconds + self.refresh_ttl()) {
                    failure(AuthError::InternalError)
                } else {
                    (
                        FlowView::Storing { user_id, refresh_token: fresh_token },
                        ActionView::Create {
                            user_id,
                            token_hash: fresh_hash,
                            expires_at: later_by(now, self.refresh_ttl() as int),
                        },
                    )
                }
            },
            (FlowView::Storing { user_id, refresh_token }, EventView::Created(ok)) => {
                if !ok {
                    failure(AuthError::DatabaseError)
                } else {
                    match self.access_token_at(user_id, now) {
                        Ok(access_token) => (
                            FlowView::Finished,
                            ActionView::Reply(Ok((access_token, refresh_token))),
                        ),
                        Err(e) => failure(e),
                    }
                }
            },
            _ => failure(AuthError::InternalError),
        }
    }

    fn access_token(&self, user_id: u128, now: Timestamp) -> (r: Result<String, AuthError>)
        ensures
            match (r, self.access_token_at(user_id, now)) {
                (Ok(t), Ok(s)) => t@ == s,
                (Err(e), Err(f)) => e == f,
                _ => false,
            },
    {
        match generate_access_token_at(user_id, self.jwt_secret.as_str(), self.access_token_ttl, now.seconds) {
            Ok(t) => Ok(t),
            Err(TokenError::ExpiryOutOfRange) => Err(AuthError::InternalError),
            Err(TokenError::Jwt) => Err(AuthError::JwtError),
        }
    }

    /// Starts issuing tokens to a user at `now`: makes the access token and
    /// asks to store `fresh` until `now` plus the refresh lifetime.
    pub fn authenticate(&self, user_id: u128, now: Timestamp, fresh: FreshRefreshToken) -> (r: (
        AuthFlow,
        AuthAction,
    ))
        ensures
            (r.0@, r.1@) == self.authenticate_step(user_id, now, fresh.token@, fresh.token_hash@),
    {
        let access_token = match self.access_token(user_id, now) {
            Ok(t) => t,
            Err(e) => return (AuthFlow::Finished, AuthAction::Reply(Err(e))),
        };
        match add_seconds(now, self.refresh_token_ttl) {
            Some(expires_at) => (
                AuthFlow::Authenticating(
                    AuthResult { access_token, refresh_token: fresh.token },
                ),
                AuthAction::CreateRefreshToken {
                    user_id,
                    token_hash: fresh.token_hash,
                    expires_at,
                },
            ),
            None => (AuthFlow::Finished, AuthAction::Reply(Err(AuthError::InternalError))),
        }
    }

    /// Starts exchanging a refresh token, given the hash of the token the
    /// client presented: asks for the valid stored token with that hash.
    pub fn refresh(&self, token_hash: String) -> (r: (AuthFlow, AuthAction))
        ensures
            r.0@ == FlowView::FindingToken,
            r.1@ == (ActionView::FindValid { token_hash: token_hash@ }),
    {
        (AuthFlow::FindingToken, AuthAction::FindValidRefreshToken { token_hash })
    }

    /// Goes on with a flow once the store has answered its last action.
    pub fn resume(&self, flow: AuthFlow, event: StoreEvent, now: Timestamp, fresh: FreshRefreshToken) -> (r: (
        AuthFlow,
        AuthAction,
    ))
        ensures
            (r.0@, r.1@) == self.resume_step(
                flow@,
                event@,
                now,
                fresh.token@,
                fresh.token_hash@,
            ),
    {
        match (flow, event) {
            (AuthFlow::Authenticating(result), StoreEvent::Created(ok)) => {
                if ok {
                    (AuthFlow::Finished, AuthAction::Reply(Ok(result)))
                } else {
                    (AuthFlow::Finished, AuthAction::Reply(Err(AuthError::DatabaseError)))
                }
            },
            (AuthFlow::FindingToken, StoreEvent::FindFailed) => (
                AuthFlow::Finished,
                AuthAction::Reply(Err(AuthError::DatabaseError)),
            ),
            (AuthFlow::FindingToken, StoreEvent::Found(None)) => (
                AuthFlow::Finished,
                AuthAction::Reply(Err(AuthError::InvalidRefreshToken)),
            ),
            (AuthFlow::FindingToken, StoreEvent::Found(Some(stored))) => (
                AuthFlow::Revoking { user_id: stored.user_id },
                AuthAction::RevokeRefreshToken { id: stored.id },
            ),
            (AuthFlow::Revoking { user_id }, StoreEvent::Revoked(ok)) => {
                if !ok {
                    return (AuthFlow::Finished, AuthAction::Reply(Err(AuthError::DatabaseError)));
                }
                match add_seconds(now, self.refresh_token_ttl) {
                    Some(expires_at) => (
                        AuthFlow::Storing { user_id, refresh_token: fresh.token },
                        AuthAction::CreateRefreshToken {
                            user_id,
                            token_hash: fresh.token_hash,
                            expires_at,
                        },
                    ),
                    None => (AuthFlow::Finished, AuthAction::Reply(Err(AuthError::InternalError))),
                }
            },
            (AuthFlow::Storing { user_id, refresh_token }, StoreEvent::Created(ok)) => {
                if !ok {
                    return (AuthFlow::Finished, AuthAction::Reply(Err(AuthError::DatabaseError)));
                }
                match self.access_token(user_id, now) {
                    Ok(access_token) => (
                        AuthFlow::Finished,
                        AuthAction::Reply(Ok(AuthResult { access_token, refresh_token })),
                    ),
                    Err(e) => (AuthFlow::Finished, AuthAction::Reply(Err(e))),
                }
            },
            _ => (AuthFlow::Finished, AuthAction::Reply(Err(AuthError::InternalError))),
        }
    }
}


/// A presented refresh token that the store does not hold as valid is
/// refused with `InvalidRefreshToken`, and nothing in the store changes.
pub proof fn lemma_unknown_refresh_token_is_refused(
    service: AuthService,
    now: Timestamp,
    fresh_token: Seq<char>,
    fresh_hash: Seq<char>,
)
    ensures
        service.resume_step(FlowView::FindingToken, EventView::Found(None), now, fresh_token, fresh_hash)
            == failure(AuthError::InvalidRefreshToken),
{
}

/// While exchanging a refresh token, a new refresh token is stored only
/// right after the presented one was revoked, and for the same user.
pub proof fn lemma_refresh_revokes_before_storing(
    service: AuthService,
    flow: FlowView,
    event: EventView,
    now: Timestamp,
    fresh_token: Seq<char>,
    fresh_hash: Seq<char>,
)
    requires
        flow is FindingToken || flow is Revoking || flow is Storing,
        service.resume_step(flow, event, now, fresh_token, fresh_hash).1 is Create,
    ensures
        flow is Revoking,
        event == EventView::Revoked(true),
        service.resume_step(flow, event, now, fresh_token, fresh_hash).1->Create_user_id
            == flow->Revoking_user_id,
{
}

/// An exchange that goes through revokes the token that was found, stores
/// the fresh token for the owner of the found one, and hands out the fresh
/// token with an access token for that owner.
pub proof fn lemma_refresh_keeps_owner(
    service: AuthService,
    stored: RefreshTokenView,
    now: Timestamp,
    fresh_token: Seq<char>,
    fresh_hash: Seq<char>,
    later: Timestamp,
    other_token: Seq<char>,
    other_hash: Seq<char>,
)
    requires
        in_time_range(now.seconds + service.refresh_ttl()),
        service.access_token_at(stored.user_id, later) is Ok,
    ensures
        ({
            let (f1, a1) = service.resume_step(
                FlowView::FindingToken,
                EventView::Found(Some(stored)),
                now,
                other_token,
                other_hash,
            );
            let (f2, a2) = service.resume_step(
                f1,
                EventView::Revoked(true),
                now,
                fresh_token,
                fresh_hash,
            );
            let (f3, a3) = service.resume_step(
                f2,
                EventView::Created(true),
                later,
                other_token,
                other_hash,
            );
            &&& a1 == ActionView::Revoke { id: stored.id }
            &&& a2 == ActionView::Create {
                user_id: stored.user_id,
                token_hash: fresh_hash,
                expires_at: later_by(now, service.refresh_ttl() as int),
            }
            &&& f3 == FlowView::Finished
            &&& a3 == ActionView::Reply(
                Ok((service.access_token_at(stored.user_id, later)->Ok_0, fresh_token)),
            )
        }),
{
}

/// Issuing tokens stores the fresh refresh token, by its hash, for the user
/// until `now` plus the refresh lifetime, and once it is stored hands out
/// exactly that refresh token with the user's access token.
pub proof fn lemma_issued_refresh_token_is_stored(
    service: AuthService,
    user_id: u128,
    now: Timestamp,
    fresh_token: Seq<char>,
    fresh_hash: Seq<char>,
    later: Timestamp,
    other_token: Seq<char>,
    other_hash: Seq<char>,
)
    requires
        service.access_token_at(user_id, now) is Ok,
        in_time_range(now.seconds + service.refresh_ttl()),
    ensures
        ({
            let (f1, a1) = service.authenticate_step(user_id, now, fresh_token, fresh_hash);
            let (f2, a2) = service.resume_step(
                f1,
                EventView::Created(true),
                later,
                other_token,
                other_hash,
            );
            &&& a1 == ActionView::Create {
                user_id,
                token_hash: fresh_hash,
                expires_at: later_by(now, service.refresh_ttl() as int),
            }
            &&& f2 == FlowView::Finished
            &&& a2 == ActionView::Reply(
                Ok((service.access_token_at(user_id, now)->Ok_0, fresh_token)),
            )
        }),
{
}

/// Whether an answer of the store reports a failure.
pub open spec fn is_store_failure(event: EventView) -> bool {
    event == EventView::Created(false) || event == EventView::FindFailed || event
        == EventView::Revoked(false)
}

/// The answer that each waiting state expects from the store.
pub open spec fn awaits(flow: FlowView, event: EventView) -> bool {
    match flow {
        FlowView::Authenticating { .. } => event is Created,
        FlowView::FindingToken => event is Found || event is FindFailed,
        FlowView::Revoking { .. } => event is Revoked,
        FlowView::Storing { .. } => event is Created,
        FlowView::Finished => false,
    }
}

/// A failure of the store ends any flow with `DatabaseError`.
pub proof fn lemma_store_failure_is_database_error(
    service: AuthService,
    flow: FlowView,
    event: EventView,
    now: Timestamp,
    fresh_token: Seq<char>,
    fresh_hash: Seq<char>,
)
    requires
        awaits(flow, event),
        is_store_failure(event),
    ensures
        service.resume_step(flow, event, now, fresh_token, fresh_hash) == failure(
            AuthError::DatabaseError,
        ),
{
}

/// A flow ends with its reply: every step that replies leaves the flow
/// finished, and a finished flow takes no further answer from the store.
pub proof fn lemma_reply_finishes_flow(
    service: AuthService,
    flow: FlowView,
    event: EventView,
    now: Timestamp,
    fresh_token: Seq<char>,
    fresh_hash: Seq<char>,
    user_id: u128,
)
    ensures
        service.resume_step(flow, event, now, fresh_token, fresh_hash).1 is Reply
            <==> service.resume_step(flow, event, now, fresh_token, fresh_hash).0 is Finished,
        service.authenticate_step(user_id, now, fresh_token, fresh_hash).1 is Reply
            <==> service.authenticate_step(user_id, now, fresh_token, fresh_hash).0 is Finished,
        service.resume_step(FlowView::Finished, event, now, fresh_token, fresh_hash) == failure(
            AuthError::InternalError,
        ),
{
}

/// The access token issued at `now` is the token of the claims naming the
/// user and expiring the access lifetime after `now`: it is issued exactly
/// when that expiry lies in the range of dates, and the refresh lifetime
/// plays no part in it.
pub proof fn lemma_access_token_lives_access_lifetime(
    service: AuthService,
    other: AuthService,
    user_id: u128,
    now: Timestamp,
)
    requires
        other.secret() == service.secret(),
        other.access_ttl() == service.access_ttl(),
    ensures
        service.access_token_at(user_id, now) is Ok <==> in_time_range(
            now.seconds + service.access_ttl(),
        ),
        service.access_token_at(user_id, now) matches Ok(t) ==> t == access_token_text(
            (AccessTokenClaims { sub: user_id, exp: (now.seconds + service.access_ttl()) as i64 }),
            service.secret(),
        ),
        other.access_token_at(user_id, now) == service.access_token_at(user_id, now),
{
}

/// Issuing tokens hands out an access token whose claims are the user and
/// the instant of issue plus the access lifetime, and the fresh refresh
/// token: any claims that give that token are exactly those.
pub proof fn lemma_issued_access_token_carries_claims(
    service: AuthService,
    user_id: u128,
    now: Timestamp,
    fresh_token: Seq<char>,
    fresh_hash: Seq<char>,
    later: Timestamp,
    other_token: Seq<char>,
    other_hash: Seq<char>,
    access: Seq<char>,
    refresh: Seq<char>,
    c: AccessTokenClaims,
    k: Seq<u8>,
)
    requires
        service.resume_step(
            service.authenticate_step(user_id, now, fresh_token, fresh_hash).0,
            EventView::Created(true),
            later,
            other_token,
            other_hash,
        ).1 == ActionView::Reply(Ok((access, refresh))),
        access_token_text(c, k) == access,
    ensures
        c.sub == user_id,
        c.exp == now.seconds + service.access_ttl(),
        refresh == fresh_token,
{
    let good = AccessTokenClaims {
        sub: user_id,
        exp: (now.seconds + service.access_ttl()) as i64,
    };
    assert(service.access_token_at(user_id, now) is Ok);
    assert(access == access_token_text(good, service.secret()));
    lemma_access_token_determines_claims(c, k, good, service.secret());
}

/// Exchanging a refresh token hands out, once the new refresh token is
/// stored, an access token whose claims are the owner of the revoked token
/// and the instant of issue plus the access lifetime.
pub proof fn lemma_refreshed_access_token_carries_claims(
    service: AuthService,
    user_id: u128,
    stored_token: Seq<char>,
    now: Timestamp,
    fresh_token: Seq<char>,
    fresh_hash: Seq<char>,
    access: Seq<char>,
    refresh: Seq<char>,
    c: AccessTokenClaims,
    k: Seq<u8>,
)
    requires
        service.resume_step(
            FlowView::Storing { user_id, refresh_token: stored_token },
            EventView::Created(true),
            now,
            fresh_token,
            fresh_hash,
        ).1 == ActionView::Reply(Ok((access, refresh))),
        access_token_text(c, k) == access,
    ensures
        c.sub == user_id,
        c.exp == now.seconds + service.access_ttl(),
        refresh == stored_token,
{
    let good = AccessTokenClaims {
        sub: user_id,
        exp: (now.seconds + service.access_ttl()) as i64,
    };
    assert(service.access_token_at(user_id, now) is Ok);
    assert(access == access_token_text(good, service.secret()));
    lemma_access_token_determines_claims(c, k, good, service.secret());
}

} // verus!
