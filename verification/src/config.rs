//! The application's configuration, from the values of its environment
//! variables.

use vstd::prelude::*;
use crate::text::{parse_i64, parse_i64_text, parse_u16, parse_u16_text};

verus! {

/// The settings of the application.
pub struct AppConfig {
    /// The port to listen on (`APP_PORT`, 8080 when unset).
    pub port: u16,
    /// Where the database is (`DATABASE_URL`).
    pub database_url: String,
    /// The secret that signs access tokens (`JWT_SECRET`).
    pub jwt_secret: String,
    /// How long an access token lives, in seconds (`ACCESS_TOKEN_TTL`).
    pub access_token_ttl: i64,
    /// How long a refresh token lives, in seconds (`REFRESH_TOKEN_TTL`).
    pub refresh_token_ttl: i64,
}

/// Why the configuration could not be read.
#[derive(Debug, PartialEq, Eq, Structural)]
pub enum ConfigError {
    /// `APP_PORT` is not a valid `u16`.
    InvalidPort,
    /// `DATABASE_URL` is not set.
    MissingDatabaseUrl,
    /// `JWT_SECRET` is not set.
    MissingJwtSecret,
    /// `ACCESS_TOKEN_TTL` is not set.
    MissingAccessTokenTtl,
    /// `ACCESS_TOKEN_TTL` is not an integer.
    InvalidAccessTokenTtl,
    /// `REFRESH_TOKEN_TTL` is not set.
    MissingRefreshTokenTtl,
    /// `REFRESH_TOKEN_TTL` is not an integer.
    InvalidRefreshTokenTtl,
}

/// The text of an optional setting.
pub open spec fn setting(v: Option<&str>) -> Option<Seq<char>> {
    match v {
        Some(s) => Some(s@),
        None => None,
    }
}

/// The port text: the setting, or `"8080"` when it is unset.
pub open spec fn port_text(port: Option<Seq<char>>) -> Seq<char> {
    match port {
        Some(p) => p,
        None => "8080"@,
    }
}

/// The first problem with the settings, checked in the order `APP_PORT`,
/// `DATABASE_URL`, `JWT_SECRET`, `ACCESS_TOKEN_TTL`, `REFRESH_TOKEN_TTL`;
/// `None` when there is none.
pub open spec fn config_problem(
    port: Option<Seq<char>>,
    database_url: Option<Seq<char>>,
    jwt_secret: Option<Seq<char>>,
    access_token_ttl: Option<Seq<char>>,
    refresh_token_ttl: Option<Seq<char>>,
) -> Option<ConfigError> {
    if parse_u16_text(port_text(port)) is None {
        Some(ConfigError::InvalidPort)
    } else if database_url is None {
        Some(ConfigError::MissingDatabaseUrl)
    } else if jwt_secret is None {
        Some(ConfigError::MissingJwtSecret)
    } else if access_token_ttl is None {
        Some(ConfigError::MissingAccessTokenTtl)
    } else if parse_i64_text(access_token_ttl->0) is None {
        Some(ConfigError::InvalidAccessTokenTtl)
    } else if refresh_token_ttl is None {
        Some(ConfigError::MissingRefreshTokenTtl)
    } else if parse_i64_text(refresh_token_ttl->0) is None {
        Some(ConfigError::InvalidRefreshTokenTtl)
    } else {
        None
    }
}

impl AppConfig {
    /// The configuration from the values of the environment variables
    /// `APP_PORT`, `DATABASE_URL`, `JWT_SECRET`, `ACCESS_TOKEN_TTL` and
    /// `REFRESH_TOKEN_TTL` (`None` for one that is unset).
    ///
    /// The port defaults to 8080 and must parse as a `u16`; the URL and the
    /// secret must be set; both lifetimes must be set and parse as `i64`
    /// numbers of seconds. The first problem found is the error.
    pub fn from_values(
        port: Option<&str>,
        database_url: Option<&str>,
        jwt_secret: Option<&str>,
        access_token_ttl: Option<&str>,
        refresh_token_ttl: Option<&str>,
    ) -> (r: Result<AppConfig, ConfigError>)
        ensures
            ({
                let problem = config_problem(
                    setting(port),
                    setting(database_url),
                    setting(jwt_secret),
                    setting(access_token_ttl),
                    setting(refresh_token_ttl),
                );
                match r {
                    Err(e) => problem == Some(e),
                    Ok(c) => {
                        &&& problem is None
                        &&& parse_u16_text(port_text(setting(port))) == Some(c.port as int)
                        &&& setting(database_url) == Some(c.database_url@)
                        &&& setting(jwt_secret) == Some(c.jwt_secret@)
                        &&& parse_i64_text(setting(access_token_ttl)->0) == Some(
                            c.access_token_ttl as int,
                        )
                        &&& parse_i64_text(setting(refresh_token_ttl)->0) == Some(
                            c.refresh_token_ttl as int,
                        )
                    },
                }
            }),
    {
        let port_value = match port {
            Some(p) => parse_u16(p),
            None => parse_u16("8080"),
        };
        let port = match port_value {
            Some(v) => v,
            None => return Err(ConfigError::InvalidPort),
        };
        let database_url = match database_url {
            Some(u) => u.to_owned(),
            None => return Err(ConfigError::MissingDatabaseUrl),
        };
        let jwt_secret = match jwt_secret {
            Some(s) => s.to_owned(),
            None => return Err(ConfigError::MissingJwtSecret),
        };
        let access_token_ttl = match access_token_ttl {
            Some(t) => match parse_i64(t) {
                Some(v) => v,
                None => return Err(ConfigError::InvalidAccessTokenTtl),
            },
            None => return Err(ConfigError::MissingAccessTokenTtl),
        };
        let refresh_token_ttl = match refresh_token_ttl {
            Some(t) => match parse_i64(t) {
                Some(v) => v,
                None => return Err(ConfigError::InvalidRefreshTokenTtl),
            },
            None => return Err(ConfigError::MissingRefreshTokenTtl),
        };
        Ok(AppConfig { port, database_url, jwt_secret, access_token_ttl, refresh_token_ttl })
    }
}

/// The port is refused exactly when its text (8080 when unset) does not
/// parse as a `u16`: every port number that parses is accepted.
pub proof fn lemma_port_refused_only_when_unparsable(
    port: Option<Seq<char>>,
    database_url: Option<Seq<char>>,
    jwt_secret: Option<Seq<char>>,
    access_token_ttl: Option<Seq<char>>,
    refresh_token_ttl: Option<Seq<char>>,
)
    ensures
        config_problem(port, database_url, jwt_secret, access_token_ttl, refresh_token_ttl)
            == Some(ConfigError::InvalidPort) <==> parse_u16_text(port_text(port)) is None,
{
}

/// Settings that are all present and well formed are accepted, whatever
/// their values: no problem is reported.
pub proof fn lemma_well_formed_settings_accepted(
    port: Option<Seq<char>>,
    database_url: Option<Seq<char>>,
    jwt_secret: Option<Seq<char>>,
    access_token_ttl: Option<Seq<char>>,
    refresh_token_ttl: Option<Seq<char>>,
)
    requires
        parse_u16_text(port_text(port)) is Some,
        database_url is Some,
        jwt_secret is Some,
        access_token_ttl is Some,
        parse_i64_text(access_token_ttl->0) is Some,
        refresh_token_ttl is Some,
        parse_i64_text(refresh_token_ttl->0) is Some,
    ensures
        config_problem(port, database_url, jwt_secret, access_token_ttl, refresh_token_ttl) is None,
{
}

/// A setting that is missing or malformed is reported, and only then: the
/// configuration is refused exactly when some setting is.
pub proof fn lemma_problem_iff_bad_setting(
    port: Option<Seq<char>>,
    database_url: Option<Seq<char>>,
    jwt_secret: Option<Seq<char>>,
    access_token_ttl: Option<Seq<char>>,
    refresh_token_ttl: Option<Seq<char>>,
)
    ensures
        config_problem(port, database_url, jwt_secret, access_token_ttl, refresh_token_ttl) is Some
            <==> (parse_u16_text(port_text(port)) is None || database_url is None || jwt_secret is None
            || access_token_ttl is None || parse_i64_text(access_token_ttl->0) is None
            || refresh_token_ttl is None || parse_i64_text(refresh_token_ttl->0) is None),
        database_url is None && parse_u16_text(port_text(port)) is Some ==> config_problem(
            port,
            database_url,
            jwt_secret,
            access_token_ttl,
            refresh_token_ttl,
        ) == Some(ConfigError::MissingDatabaseUrl),
{
}

/// An unset port is the default port 8080.
pub proof fn lemma_default_port()
    ensures
        parse_u16_text(port_text(None)) == Some(8080int),
{
    reveal_strlit("8080");
    let s = "8080"@;
    assert(s.skip(0) =~= s);
    reveal_with_fuel(crate::text::digits_value, 5);
    assert(s.take(3).take(2).take(1) =~= s.take(1));
    assert(s.drop_last() =~= s.take(3));
    assert(s.take(3).drop_last() =~= s.take(2));
    assert(s.take(2).drop_last() =~= s.take(1));
    assert(s.take(1).drop_last() =~= Seq::<char>::empty());
}

} // verus!
