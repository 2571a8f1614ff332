use axum::http::HeaderValue;
use organa_backend::cookie::{read_refresh_cookie, refresh_cookie_value};

fn read(h: &str) -> Option<String> {
    read_refresh_cookie(Some(h.as_bytes()))
}

#[test]
fn cookie_absent_header() {
    assert_eq!(read_refresh_cookie(None), None);
}

#[test]
fn cookie_single_pair() {
    assert_eq!(read("refresh_token=abc123"), Some("abc123".to_string()));
}

#[test]
fn cookie_among_others() {
    assert_eq!(read("theme=dark; refresh_token=xyz; lang=pt"), Some("xyz".to_string()));
    assert_eq!(read("a=1;refresh_token=q"), Some("q".to_string()));
}

#[test]
fn cookie_pieces_are_trimmed() {
    assert_eq!(read("a=1;   refresh_token=tok  ; b=2"), Some("tok".to_string()));
    assert_eq!(read("\trefresh_token=tok\t"), Some("tok".to_string()));
}

#[test]
fn cookie_first_match_wins() {
    assert_eq!(read("refresh_token=one; refresh_token=two"), Some("one".to_string()));
}

#[test]
fn cookie_empty_value() {
    assert_eq!(read("refresh_token="), Some(String::new()));
    assert_eq!(read("refresh_token=;x=1"), Some(String::new()));
}

#[test]
fn cookie_missing_or_misnamed() {
    assert_eq!(read(""), None);
    assert_eq!(read("a=1; b=2"), None);
    assert_eq!(read("refresh_tokens=1"), None);
    assert_eq!(read("xrefresh_token=1"), None);
    assert_eq!(read("refresh_token"), None);
    assert_eq!(read("REFRESH_TOKEN=1"), None);
}

#[test]
fn cookie_header_must_be_visible_ascii() {
    assert_eq!(read_refresh_cookie(Some(b"refresh_token=a\x01b")), None);
    assert_eq!(read_refresh_cookie(Some("refresh_token=é".as_bytes())), None);
    assert_eq!(read_refresh_cookie(Some(b"refresh_token=a\x7f")), None);
}

#[test]
fn set_cookie_value_is_exact() {
    assert_eq!(
        refresh_cookie_value("abc", 604800),
        "refresh_token=abc; HttpOnly; Path=/auth/refresh; Max-Age=604800"
    );
    assert_eq!(
        refresh_cookie_value("", -5),
        "refresh_token=; HttpOnly; Path=/auth/refresh; Max-Age=-5"
    );
}

#[test]
fn set_cookie_value_reads_back() {
    for token in ["abc", "f00dfeed-1234", "", "a b"] {
        let value = refresh_cookie_value(token, 3600);
        assert_eq!(read(&value), Some(token.to_string()));
        let returned = format!("refresh_token={}", token);
        assert_eq!(read(&returned), Some(token.to_string()));
    }
}

#[test]
fn set_cookie_value_header_validity() {
    for token in ["abc", "a b", "tab\there", "é", ""] {
        let value = refresh_cookie_value(token, 60);
        assert!(HeaderValue::from_str(&value).is_ok());
    }
    for token in ["a\x01b", "\x7f", "line\nbreak"] {
        let value = refresh_cookie_value(token, 60);
        assert!(HeaderValue::from_str(&value).is_err());
    }
}
