//! The bodies of the HTTP requests and replies.

use vstd::prelude::*;

verus! {

/// The body of a sign-up request.
pub struct SignupRequest {
    pub email: String,
    pub password: String,
}

/// The body of a sign-up reply: the new user.
pub struct SignupResponse {
    pub id: u128,
    pub email: String,
}

/// The body of a login request.
pub struct LoginRequest {
    pub email: String,
    pub password: String,
}

/// The body of a login reply.
pub struct LoginResponse {
    pub access_token: String,
}

/// The body of a refresh reply.
pub struct RefreshResponse {
    pub access_token: String,
}

/// The body of a health-check reply.
pub struct HealthResponse {
    pub status: &'static str,
}

/// The health check: the service answers that it is up.
pub fn health_check() -> (r: HealthResponse)
    ensures
        r.status@ == "ok"@,
{
    HealthResponse { status: "ok" }
}

} // verus!
