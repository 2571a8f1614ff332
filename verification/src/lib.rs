//! Verified core of the Organa personal-finance backend: configuration
//! parsing, the refresh-token cookie, access-token (JWT) framing, the
//! authentication flows and the replies of the HTTP handlers.

pub mod text;
pub mod cookie;
pub mod clock;
pub mod jwt;
pub mod config;
pub mod domain;
pub mod dto;
pub mod auth;
pub mod http;
