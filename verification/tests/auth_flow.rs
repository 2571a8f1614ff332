use jsonwebtoken::{decode, Algorithm, DecodingKey, Validation};
use organa_backend::auth::{
    AuthAction, AuthError, AuthFlow, AuthResult, AuthService, FreshRefreshToken, StoreEvent,
};
use organa_backend::clock::{now_timestamp, Timestamp, MAX_TIMESTAMP};
use organa_backend::domain::RefreshToken;
use organa_backend::dto::{health_check, HealthResponse};
use organa_backend::http::{auth_reply, login_accepted, refused, Endpoint};

const USER: u128 = 0x11112222333344445555666677778888;

fn service() -> AuthService {
    AuthService::new("secret".to_string(), 900, 604800)
}

fn fresh(n: u32) -> FreshRefreshToken {
    FreshRefreshToken { token: format!("token{}", n), token_hash: format!("hash{}", n) }
}

fn sub_of(token: &str) -> String {
    let d = decode::<serde_json::Value>(token, &DecodingKey::from_secret(b"secret"), &Validation::new(Algorithm::HS256))
        .unwrap();
    d.claims["sub"].as_str().unwrap().to_string()
}

fn reply(action: AuthAction) -> Result<AuthResult, AuthError> {
    match action {
        AuthAction::Reply(r) => r,
        _ => panic!("expected a reply"),
    }
}

#[test]
fn authenticate_stores_then_replies() {
    let s = service();
    let now = now_timestamp();
    let (flow, action) = s.authenticate(USER, now, fresh(1));
    match action {
        AuthAction::CreateRefreshToken { user_id, token_hash, expires_at } => {
            assert_eq!(user_id, USER);
            assert_eq!(token_hash, "hash1");
            assert_eq!(expires_at, Timestamp { seconds: now.seconds + 604800, nanosecond: now.nanosecond });
        }
        _ => panic!("expected a create"),
    }
    let (flow, action) = s.resume(flow, StoreEvent::Created(true), now, fresh(2));
    assert!(matches!(flow, AuthFlow::Finished));
    let result = reply(action).unwrap();
    assert_eq!(result.refresh_token, "token1");
    assert_eq!(sub_of(&result.access_token), "11112222-3333-4444-5555-666677778888");
}

#[test]
fn authenticate_store_failure() {
    let s = service();
    let now = now_timestamp();
    let (flow, _) = s.authenticate(USER, now, fresh(1));
    let (flow, action) = s.resume(flow, StoreEvent::Created(false), now, fresh(2));
    assert!(matches!(flow, AuthFlow::Finished));
    assert_eq!(reply(action).err(), Some(AuthError::DatabaseError));
}

#[test]
fn authenticate_out_of_range_expiry() {
    let s = AuthService::new("secret".to_string(), 900, 2000);
    let (flow, action) = s.authenticate(USER, Timestamp { seconds: MAX_TIMESTAMP - 1000, nanosecond: 5 }, fresh(1));
    assert!(matches!(flow, AuthFlow::Finished));
    assert_eq!(reply(action).err(), Some(AuthError::InternalError));
    let s = AuthService::new("secret".to_string(), 2000, 1);
    let (flow, action) = s.authenticate(USER, Timestamp { seconds: MAX_TIMESTAMP - 1000, nanosecond: 5 }, fresh(1));
    assert!(matches!(flow, AuthFlow::Finished));
    assert_eq!(reply(action).err(), Some(AuthError::InternalError));
    let s = AuthService::new("secret".to_string(), 900, 1);
    let (_, action) = s.authenticate(USER, Timestamp { seconds: MAX_TIMESTAMP - 1000, nanosecond: 5 }, fresh(1));
    assert!(matches!(action, AuthAction::CreateRefreshToken { .. }));
}

fn stored() -> RefreshToken {
    RefreshToken {
        id: 77,
        user_id: USER,
        token_hash: "oldhash".to_string(),
        expires_at: Timestamp { seconds: 2_000_000_000, nanosecond: 500_000_000 },
        created_at: Timestamp { seconds: 1_600_000_000, nanosecond: 0 },
        revoked_at: None,
    }
}

#[test]
fn refresh_revokes_stores_and_replies() {
    let s = service();
    let now = now_timestamp();
    let (flow, action) = s.refresh("oldhash".to_string());
    match action {
        AuthAction::FindValidRefreshToken { token_hash } => assert_eq!(token_hash, "oldhash"),
        _ => panic!("expected a lookup"),
    }
    let (flow, action) = s.resume(flow, StoreEvent::Found(Some(stored())), now, fresh(1));
    assert!(matches!(action, AuthAction::RevokeRefreshToken { id: 77 }));
    let (flow, action) = s.resume(flow, StoreEvent::Revoked(true), now, fresh(2));
    match action {
        AuthAction::CreateRefreshToken { user_id, token_hash, expires_at } => {
            assert_eq!(user_id, USER);
            assert_eq!(token_hash, "hash2");
            assert_eq!(expires_at, Timestamp { seconds: now.seconds + 604800, nanosecond: now.nanosecond });
        }
        _ => panic!("expected a create"),
    }
    let (flow, action) = s.resume(flow, StoreEvent::Created(true), now, fresh(3));
    assert!(matches!(flow, AuthFlow::Finished));
    let result = reply(action).unwrap();
    assert_eq!(result.refresh_token, "token2");
    assert_eq!(sub_of(&result.access_token), "11112222-3333-4444-5555-666677778888");
}

#[test]
fn refresh_unknown_token_refused() {
    let s = service();
    let (flow, _) = s.refresh("nope".to_string());
    let (flow, action) = s.resume(flow, StoreEvent::Found(None), now_timestamp(), fresh(1));
    assert!(matches!(flow, AuthFlow::Finished));
    assert_eq!(reply(action).err(), Some(AuthError::InvalidRefreshToken));
}

#[test]
fn refresh_store_failures() {
    let s = service();
    let now = now_timestamp();
    let (flow, _) = s.refresh("h".to_string());
    let (_, action) = s.resume(flow, StoreEvent::FindFailed, now, fresh(1));
    assert_eq!(reply(action).err(), Some(AuthError::DatabaseError));

    let (flow, _) = s.refresh("h".to_string());
    let (flow, _) = s.resume(flow, StoreEvent::Found(Some(stored())), now, fresh(1));
    let (_, action) = s.resume(flow, StoreEvent::Revoked(false), now, fresh(2));
    assert_eq!(reply(action).err(), Some(AuthError::DatabaseError));

    let (flow, _) = s.refresh("h".to_string());
    let (flow, _) = s.resume(flow, StoreEvent::Found(Some(stored())), now, fresh(1));
    let (flow, _) = s.resume(flow, StoreEvent::Revoked(true), now, fresh(2));
    let (_, action) = s.resume(flow, StoreEvent::Created(false), now, fresh(3));
    assert_eq!(reply(action).err(), Some(AuthError::DatabaseError));
}

#[test]
fn finished_flow_takes_no_answer() {
    let s = service();
    let (_, action) = s.resume(AuthFlow::Finished, StoreEvent::Created(true), now_timestamp(), fresh(1));
    assert_eq!(reply(action).err(), Some(AuthError::InternalError));
    let (_, action) = s.resume(AuthFlow::FindingToken, StoreEvent::Created(true), now_timestamp(), fresh(1));
    assert_eq!(reply(action).err(), Some(AuthError::InternalError));
}

#[test]
fn replies_of_endpoints() {
    let ok = AuthResult { access_token: "acc".to_string(), refresh_token: "ref".to_string() };
    let r = auth_reply(Endpoint::Signup, Ok(ok), 60);
    assert_eq!(r.status, 201);
    assert_eq!(r.set_cookie.as_deref(), Some("refresh_token=ref; HttpOnly; Path=/auth/refresh; Max-Age=60"));
    assert_eq!(r.access_token.as_deref(), Some("acc"));
    let ok = AuthResult { access_token: "a".to_string(), refresh_token: "r".to_string() };
    assert_eq!(auth_reply(Endpoint::Login, Ok(ok), 1).status, 200);
    let r = auth_reply(Endpoint::Refresh, Err(AuthError::InvalidRefreshToken), 1);
    assert_eq!(r.status, 401);
    assert!(r.set_cookie.is_none() && r.access_token.is_none());
    assert_eq!(auth_reply(Endpoint::Signup, Err(AuthError::DatabaseError), 1).status, 500);
    assert_eq!(refused(Endpoint::Login).status, 401);
    assert_eq!(refused(Endpoint::Refresh).status, 401);
    assert_eq!(refused(Endpoint::Signup).status, 500);
}

#[test]
fn login_needs_user_and_password() {
    assert!(login_accepted(true, true));
    assert!(!login_accepted(true, false));
    assert!(!login_accepted(false, true));
    assert!(!login_accepted(false, false));
}

#[test]
fn health_is_ok() {
    let h: HealthResponse = health_check();
    assert_eq!(h.status, "ok");
}
