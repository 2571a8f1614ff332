use organa_backend::config::{AppConfig, ConfigError};
use organa_backend::text::{chars_of, parse_i64, parse_u16, push_decimal_i64, string_of_chars};

fn decimal_of(n: i64) -> String {
    let mut out = Vec::new();
    push_decimal_i64(n, &mut out);
    string_of_chars(&out)
}

#[test]
fn chars_and_strings_round_trip() {
    let cs = chars_of("héllo");
    assert_eq!(cs, vec!['h', 'é', 'l', 'l', 'o']);
    assert_eq!(string_of_chars(&cs), "héllo");
    assert_eq!(string_of_chars(&[]), "");
}

#[test]
fn decimal_text_matches_display() {
    for n in [0i64, 7, 10, 42, -1, -10, 1234567890, i64::MAX, i64::MIN] {
        assert_eq!(decimal_of(n), n.to_string());
    }
}

#[test]
fn parse_u16_follows_std() {
    assert_eq!(parse_u16("8080"), Some(8080));
    assert_eq!(parse_u16("+3000"), Some(3000));
    assert_eq!(parse_u16("0"), Some(0));
    assert_eq!(parse_u16("00065535"), Some(65535));
    assert_eq!(parse_u16("65536"), None);
    assert_eq!(parse_u16("-0"), None);
    assert_eq!(parse_u16(""), None);
    assert_eq!(parse_u16("+"), None);
    assert_eq!(parse_u16(" 80"), None);
    assert_eq!(parse_u16("80a"), None);
    assert_eq!(parse_u16("99999999999999999999999"), None);
    for s in ["8080", "+1", "-1", "65535", "65536", "", "+", "1 "] {
        assert_eq!(parse_u16(s), s.parse::<u16>().ok());
    }
}

#[test]
fn parse_i64_follows_std() {
    assert_eq!(parse_i64("900"), Some(900));
    assert_eq!(parse_i64("-900"), Some(-900));
    assert_eq!(parse_i64("+900"), Some(900));
    assert_eq!(parse_i64("9223372036854775807"), Some(i64::MAX));
    assert_eq!(parse_i64("-9223372036854775808"), Some(i64::MIN));
    assert_eq!(parse_i64("9223372036854775808"), None);
    assert_eq!(parse_i64("-9223372036854775809"), None);
    assert_eq!(parse_i64("-"), None);
    assert_eq!(parse_i64("--1"), None);
    assert_eq!(parse_i64("1.5"), None);
    for s in ["0", "-0", "+0", "12", "-", "+", "", "1e3", "00012", "-00012"] {
        assert_eq!(parse_i64(s), s.parse::<i64>().ok());
    }
}

#[test]
fn decimal_text_parses_back() {
    for n in [0i64, 1, -1, 3600, -86400, i64::MAX, i64::MIN] {
        assert_eq!(parse_i64(&decimal_of(n)), Some(n));
    }
}

fn config(
    port: Option<&str>,
    url: Option<&str>,
    secret: Option<&str>,
    access: Option<&str>,
    refresh: Option<&str>,
) -> Result<AppConfig, ConfigError> {
    AppConfig::from_values(port, url, secret, access, refresh)
}

#[test]
fn config_reads_all_settings() {
    let c = config(Some("3000"), Some("postgres://db"), Some("s3cret"), Some("900"), Some("604800"))
        .unwrap();
    assert_eq!(c.port, 3000);
    assert_eq!(c.database_url, "postgres://db");
    assert_eq!(c.jwt_secret, "s3cret");
    assert_eq!(c.access_token_ttl, 900);
    assert_eq!(c.refresh_token_ttl, 604800);
}

#[test]
fn config_port_defaults_to_8080() {
    let c = config(None, Some("u"), Some("s"), Some("1"), Some("2")).unwrap();
    assert_eq!(c.port, 8080);
}

#[test]
fn config_reports_the_first_problem() {
    assert_eq!(config(Some("x"), None, None, None, None).err(), Some(ConfigError::InvalidPort));
    assert_eq!(config(Some("70000"), Some("u"), Some("s"), Some("1"), Some("2")).err(), Some(ConfigError::InvalidPort));
    assert_eq!(config(None, None, None, None, None).err(), Some(ConfigError::MissingDatabaseUrl));
    assert_eq!(config(None, Some("u"), None, None, None).err(), Some(ConfigError::MissingJwtSecret));
    assert_eq!(config(None, Some("u"), Some("s"), None, None).err(), Some(ConfigError::MissingAccessTokenTtl));
    assert_eq!(config(None, Some("u"), Some("s"), Some("15m"), None).err(), Some(ConfigError::InvalidAccessTokenTtl));
    assert_eq!(config(None, Some("u"), Some("s"), Some("900"), None).err(), Some(ConfigError::MissingRefreshTokenTtl));
    assert_eq!(config(None, Some("u"), Some("s"), Some("900"), Some("")).err(), Some(ConfigError::InvalidRefreshTokenTtl));
}
