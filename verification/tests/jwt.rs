use base64::Engine;
use jsonwebtoken::{decode, decode_header, Algorithm, DecodingKey, Header, Validation};
use organa_backend::clock::{add_seconds, now_timestamp, Timestamp, MAX_TIMESTAMP, MIN_TIMESTAMP};
use organa_backend::jwt::{
    claims_json_text, encode_access_token, generate_access_token, generate_access_token_at,
    AccessTokenClaims, TokenError,
};
use organa_backend::text::string_of_chars;

const USER: u128 = 0x67e5504410b1426f9247bb680e5fe0c8;

fn now_unix_timestamp() -> i64 {
    now_timestamp().seconds
}

fn uuid_string(id: u128) -> String {
    let json = string_of_chars(&claims_json_text(&AccessTokenClaims { sub: id, exp: 0 }));
    json["{\"sub\":\"".len().."{\"sub\":\"".len() + 36].to_string()
}

fn decoded(token: &str, secret: &[u8]) -> Result<serde_json::Value, jsonwebtoken::errors::Error> {
    decode::<serde_json::Value>(token, &DecodingKey::from_secret(secret), &Validation::new(Algorithm::HS256))
        .map(|d| d.claims)
}

#[test]
fn uuid_text_matches_uuid_crate() {
    for id in [0u128, 1, USER, u128::MAX, 0x0123456789abcdef0123456789abcdef] {
        assert_eq!(uuid_string(id), uuid::Uuid::from_u128(id).hyphenated().to_string());
    }
    assert_eq!(uuid_string(USER), "67e55044-10b1-426f-9247-bb680e5fe0c8");
}

#[test]
fn claims_json_is_exact() {
    let c = AccessTokenClaims { sub: USER, exp: 1700000000 };
    let text = string_of_chars(&claims_json_text(&c));
    assert_eq!(text, "{\"sub\":\"67e55044-10b1-426f-9247-bb680e5fe0c8\",\"exp\":1700000000}");
    let c = AccessTokenClaims { sub: 0, exp: -3 };
    let text = string_of_chars(&claims_json_text(&c));
    assert_eq!(text, "{\"sub\":\"00000000-0000-0000-0000-000000000000\",\"exp\":-3}");
}

#[test]
fn token_is_a_valid_hs256_jwt() {
    let exp = now_unix_timestamp() + 3600;
    let c = AccessTokenClaims { sub: USER, exp };
    let token = encode_access_token(&c, "top-secret").unwrap();
    assert_eq!(token.split('.').count(), 3);
    let claims = decoded(&token, b"top-secret").unwrap();
    assert_eq!(claims["sub"], "67e55044-10b1-426f-9247-bb680e5fe0c8");
    assert_eq!(claims["exp"], exp);
    assert_eq!(claims.as_object().unwrap().len(), 2);
}

#[test]
fn token_header_is_the_default_header() {
    let c = AccessTokenClaims { sub: USER, exp: 1 };
    let token = encode_access_token(&c, "k").unwrap();
    let header = decode_header(&token).unwrap();
    assert_eq!(header.alg, Algorithm::HS256);
    assert_eq!(header.typ.as_deref(), Some("JWT"));
    let expected = base64::engine::general_purpose::URL_SAFE_NO_PAD
        .encode(serde_json::to_vec(&Header::default()).unwrap());
    assert_eq!(token.split('.').next().unwrap(), expected);
}

#[test]
fn token_parts_are_encoded_not_raw() {
    let c = AccessTokenClaims { sub: USER, exp: 42 };
    let token = encode_access_token(&c, "k").unwrap();
    let parts: Vec<&str> = token.split('.').collect();
    let claims = base64::engine::general_purpose::URL_SAFE_NO_PAD.decode(parts[1]).unwrap();
    assert_eq!(
        String::from_utf8(claims).unwrap(),
        "{\"sub\":\"67e55044-10b1-426f-9247-bb680e5fe0c8\",\"exp\":42}"
    );
    assert!(!parts[2].is_empty());
    assert!(!token.contains('{'));
}

#[test]
fn token_is_deterministic_and_keyed() {
    let c = AccessTokenClaims { sub: USER, exp: now_unix_timestamp() + 600 };
    let a = encode_access_token(&c, "k1").unwrap();
    let b = encode_access_token(&c, "k1").unwrap();
    let d = encode_access_token(&c, "k2").unwrap();
    assert_eq!(a, b);
    assert_ne!(a, d);
    assert!(decoded(&a, b"k2").is_err());
}

#[test]
fn token_at_instant_expires_after_ttl() {
    let now = now_unix_timestamp();
    let token = generate_access_token_at(USER, "s", 900, now).unwrap();
    let claims = decoded(&token, b"s").unwrap();
    assert_eq!(claims["exp"], now + 900);
}

#[test]
fn token_now_expires_after_ttl() {
    let before = now_unix_timestamp();
    let token = generate_access_token(USER, "s", 120).unwrap();
    let after = now_unix_timestamp();
    let exp = decoded(&token, b"s").unwrap()["exp"].as_i64().unwrap();
    assert!(before + 120 <= exp && exp <= after + 120);
}

#[test]
fn token_expiry_out_of_range() {
    assert_eq!(generate_access_token(USER, "s", i64::MAX), Err(TokenError::ExpiryOutOfRange));
    assert_eq!(generate_access_token(USER, "s", i64::MIN), Err(TokenError::ExpiryOutOfRange));
    assert_eq!(generate_access_token(USER, "s", MAX_TIMESTAMP), Err(TokenError::ExpiryOutOfRange));
    assert!(generate_access_token_at(USER, "s", 0, MAX_TIMESTAMP).is_ok());
    assert_eq!(generate_access_token_at(USER, "s", 1, MAX_TIMESTAMP), Err(TokenError::ExpiryOutOfRange));
    assert_eq!(generate_access_token_at(USER, "s", -1, MIN_TIMESTAMP), Err(TokenError::ExpiryOutOfRange));
    assert_eq!(generate_access_token_at(USER, "s", i64::MAX, 1), Err(TokenError::ExpiryOutOfRange));
    assert!(generate_access_token_at(USER, "s", 900, now_unix_timestamp()).is_ok());
    assert!(generate_access_token(USER, "s", 900).is_ok());
    assert!(generate_access_token(USER, "s", 0).is_ok());
}

#[test]
fn clock_is_in_range_and_current() {
    let now = now_timestamp();
    assert!(MIN_TIMESTAMP <= now.seconds && now.seconds <= MAX_TIMESTAMP);
    assert!(now.seconds > 1_600_000_000);
    assert!(now.nanosecond < 1_000_000_000);
    let system = std::time::SystemTime::now()
        .duration_since(std::time::UNIX_EPOCH)
        .unwrap()
        .as_secs() as i64;
    assert!((system - now.seconds).abs() <= 2);
}

#[test]
fn add_seconds_bounds() {
    let at = |seconds: i64| Timestamp { seconds, nanosecond: 123_456_789 };
    assert_eq!(add_seconds(at(100), 20), Some(at(120)));
    assert_eq!(add_seconds(at(100), -200), Some(at(-100)));
    assert_eq!(add_seconds(at(MAX_TIMESTAMP), 1), None);
    assert_eq!(add_seconds(at(MIN_TIMESTAMP), -1), None);
    assert_eq!(add_seconds(at(MAX_TIMESTAMP - 10), 10), Some(at(MAX_TIMESTAMP)));
    assert_eq!(add_seconds(at(i64::MAX), 1), None);
    let max = time::OffsetDateTime::new_utc(time::Date::MAX, time::Time::MIDNIGHT);
    assert_eq!(max.unix_timestamp() + 86399, MAX_TIMESTAMP);
    let min = time::OffsetDateTime::new_utc(time::Date::MIN, time::Time::MIDNIGHT);
    assert_eq!(min.unix_timestamp(), MIN_TIMESTAMP);
}

#[test]
fn add_seconds_matches_time_crate() {
    let now = time::OffsetDateTime::now_utc();
    let ts = Timestamp { seconds: now.unix_timestamp(), nanosecond: now.nanosecond() };
    let later = now + time::Duration::seconds(604800);
    let expected = Timestamp { seconds: later.unix_timestamp(), nanosecond: later.nanosecond() };
    assert_eq!(add_seconds(ts, 604800), Some(expected));
}

#[test]
fn signature_segment_has_hmac_length() {
    let c = AccessTokenClaims { sub: USER, exp: 42 };
    let token = encode_access_token(&c, "k").unwrap();
    let parts: Vec<&str> = token.split('.').collect();
    assert_eq!(parts.len(), 3);
    assert_eq!(parts[2].len(), 43);
    assert!(parts.iter().all(|p| !p.is_empty()));
}

#[test]
fn token_gives_back_its_claims() {
    let mut v = Validation::new(Algorithm::HS256);
    v.validate_exp = false;
    v.required_spec_claims.clear();
    for (sub, exp) in [(USER, -5i64), (0u128, 0i64), (u128::MAX, MAX_TIMESTAMP)] {
        let token = encode_access_token(&AccessTokenClaims { sub, exp }, "").unwrap();
        let claims = decode::<serde_json::Value>(&token, &DecodingKey::from_secret(b""), &v).unwrap().claims;
        assert_eq!(claims["sub"], uuid::Uuid::from_u128(sub).hyphenated().to_string());
        assert_eq!(claims["exp"], exp);
    }
    let a = encode_access_token(&AccessTokenClaims { sub: 1, exp: 10 }, "k").unwrap();
    let b = encode_access_token(&AccessTokenClaims { sub: 2, exp: 10 }, "k").unwrap();
    let c = encode_access_token(&AccessTokenClaims { sub: 1, exp: 11 }, "k").unwrap();
    assert_ne!(a, b);
    assert_ne!(a, c);
}
