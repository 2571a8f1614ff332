//! A stored refresh token.

use vstd::prelude::*;
use crate::clock::Timestamp;

verus! {

/// A refresh token as the store keeps it: only its hash, never the token.
/// Identifiers are UUIDs held as their 128-bit values.
pub struct RefreshToken {
    pub id: u128,
    pub user_id: u128,
    pub token_hash: String,
    pub expires_at: Timestamp,
    pub created_at: Timestamp,
    pub revoked_at: Option<Timestamp>,
}

/// The view of a stored refresh token.
pub struct RefreshTokenView {
    pub id: u128,
    pub user_id: u128,
    pub token_hash: Seq<char>,
    pub expires_at: Timestamp,
    pub created_at: Timestamp,
    pub revoked_at: Option<Timestamp>,
}

impl View for RefreshToken {
    type V = RefreshTokenView;

    open spec fn view(&self) -> RefreshTokenView {
        RefreshTokenView {
            id: self.id,
            user_id: self.user_id,
            token_hash: self.token_hash@,
            expires_at: self.expires_at,
            created_at: self.created_at,
            revoked_at: self.revoked_at,
        }
    }
}

} // verus!
