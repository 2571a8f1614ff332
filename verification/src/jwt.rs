//! Access tokens: HS256-signed JSON Web Tokens whose claims name the user
//! and the instant the token expires.

use vstd::prelude::*;
use crate::clock::{in_range_seconds, in_time_range, now_timestamp};
use crate::text::{
    ascii_bytes, ascii_bytes_of, chars_of, decimal, digit_char, push_chars, push_decimal_i64,
    string_of_chars, lemma_parse_i64_of_decimal,
};

verus! {

/// The claims of an access token: the user it was issued to (`sub`, a UUID
/// held as its 128-bit value) and when it expires (`exp`, a Unix timestamp).
pub struct AccessTokenClaims {
    pub sub: u128,
    pub exp: i64,
}

/// The lower-case hexadecimal digit of `d < 16`.
pub open spec fn hex_digit(d: nat) -> char {
    if d < 10 {
        digit_char(d)
    } else if d == 10 {
        'a'
    } else if d == 11 {
        'b'
    } else if d == 12 {
        'c'
    } else if d == 13 {
        'd'
    } else if d == 14 {
        'e'
    } else {
        'f'
    }
}

/// The `n` lowest hexadecimal digits of `x`, most significant first.
pub open spec fn hex_low(x: nat, n: nat) -> Seq<char>
    decreases n,
{
    if n == 0 {
        Seq::empty()
    } else {
        hex_low(x / 16, (n - 1) as nat).push(hex_digit(x % 16))
    }
}

/// The hyphenated lower-case text of a UUID, as the `uuid` crate writes it
/// (`xxxxxxxx-xxxx-xxxx-xxxx-xxxxxxxxxxxx`, most significant digit first).
pub open spec fn uuid_text(id: u128) -> Seq<char> {
    let h = hex_low(id as nat, 32);
    h.subrange(0, 8) + seq!['-'] + h.subrange(8, 12) + seq!['-'] + h.subrange(12, 16) + seq!['-']
        + h.subrange(16, 20) + seq!['-'] + h.subrange(20, 32)
}

proof fn lemma_hex_low_len(x: nat, n: nat)
    ensures
        hex_low(x, n).len() == n,
    decreases n,
{
    if n > 0 {
        lemma_hex_low_len(x / 16, (n - 1) as nat);
    }
}

/// `16` to the power `n`.
pub open spec fn pow16(n: nat) -> nat
    decreases n,
{
    if n == 0 {
        1
    } else {
        16 * pow16((n - 1) as nat)
    }
}

proof fn lemma_hex_digit_injective(a: nat, b: nat)
    requires
        a < 16,
        b < 16,
        hex_digit(a) == hex_digit(b),
    ensures
        a == b,
{
}

proof fn lemma_hex_low_injective(x: nat, y: nat, n: nat)
    requires
        hex_low(x, n) == hex_low(y, n),
    ensures
        x % pow16(n) == y % pow16(n),
    decreases n,
{
    if n > 0 {
        let m = (n - 1) as nat;
        lemma_hex_low_len(x / 16, m);
        lemma_hex_low_len(y / 16, m);
        assert(hex_low(x, n).drop_last() == hex_low(x / 16, m));
        assert(hex_low(y, n).drop_last() == hex_low(y / 16, m));
        lemma_hex_low_injective(x / 16, y / 16, m);
        assert(hex_low(x, n).last() == hex_digit(x % 16));
        assert(hex_low(y, n).last() == hex_digit(y % 16));
        lemma_hex_digit_injective(x % 16, y % 16);
        assert(pow16(m) > 0) by {
            lemma_pow16_positive(m);
        }
        vstd::arithmetic::div_mod::lemma_breakdown(x as int, 16, pow16(m) as int);
        vstd::arithmetic::div_mod::lemma_breakdown(y as int, 16, pow16(m) as int);
    }
}

proof fn lemma_pow16_positive(n: nat)
    ensures
        pow16(n) > 0,
    decreases n,
{
    if n > 0 {
        lemma_pow16_positive((n - 1) as nat);
    }
}

/// The hyphenated text of a UUID has 36 characters, the hexadecimal digits
/// at their places between the hyphens.
proof fn lemma_uuid_text_digits(id: u128)
    ensures
        uuid_text(id).len() == 36,
        forall|k: int|
            0 <= k < 32 ==> #[trigger] hex_low(id as nat, 32)[k] == uuid_text(id)[k + (if k >= 8 {
                1int
            } else {
                0
            }) + (if k >= 12 {
                1int
            } else {
                0
            }) + (if k >= 16 {
                1int
            } else {
                0
            }) + (if k >= 20 {
                1int
            } else {
                0
            })],
{
    lemma_hex_low_len(id as nat, 32);
}

/// Different UUIDs have different texts.
pub proof fn lemma_uuid_text_injective(a: u128, b: u128)
    requires
        uuid_text(a) == uuid_text(b),
    ensures
        a == b,
{
    lemma_uuid_text_digits(a);
    lemma_uuid_text_digits(b);
    lemma_hex_low_len(a as nat, 32);
    lemma_hex_low_len(b as nat, 32);
    assert(hex_low(a as nat, 32) =~= hex_low(b as nat, 32)) by {
        assert forall|k: int| 0 <= k < 32 implies hex_low(a as nat, 32)[k] == hex_low(
            b as nat,
            32,
        )[k] by {
            assert(hex_low(a as nat, 32)[k] == uuid_text(a)[k + (if k >= 8 {
                1int
            } else {
                0
            }) + (if k >= 12 {
                1int
            } else {
                0
            }) + (if k >= 16 {
                1int
            } else {
                0
            }) + (if k >= 20 {
                1int
            } else {
                0
            })]);
        }
    }
    lemma_hex_low_injective(a as nat, b as nat, 32);
    assert(pow16(32) == 0x1_0000_0000_0000_0000_0000_0000_0000_0000) by {
        reveal_with_fuel(pow16, 33);
    }
}

/// The hyphenated text of a UUID.
///
/// Trusted: `uuid::Uuid::from_u128(id).hyphenated().to_string()`, which the
/// crate documents as the lower-case hexadecimal digits of the UUID, most
/// significant first, grouped 8-4-4-4-12 by hyphens.
#[verifier::external_body]
fn uuid_hyphenated(id: u128) -> (r: String)
    ensures
        r@ == uuid_text(id),
{
    uuid::Uuid::from_u128(id).hyphenated().to_string()
}

/// The JSON text of the claims, as `serde_json` writes the claims struct:
/// `{"sub":"<uuid>","exp":<exp>}`.
pub open spec fn claims_json(c: AccessTokenClaims) -> Seq<char> {
    "{\"sub\":\""@ + uuid_text(c.sub) + "\",\"exp\":"@ + decimal(c.exp as int) + "}"@
}

/// Different claims have different JSON texts: the text gives back the
/// user and the expiry.
pub proof fn lemma_claims_json_injective(c1: AccessTokenClaims, c2: AccessTokenClaims)
    requires
        claims_json(c1) == claims_json(c2),
    ensures
        c1 == c2,
{
    reveal_strlit("{\"sub\":\"");
    reveal_strlit("\",\"exp\":");
    reveal_strlit("}");
    lemma_uuid_text_digits(c1.sub);
    lemma_uuid_text_digits(c2.sub);
    let p = "{\"sub\":\""@;
    let m = "\",\"exp\":"@;
    let e = "}"@;
    let j = claims_json(c1);
    let u1 = uuid_text(c1.sub);
    let u2 = uuid_text(c2.sub);
    let d1 = decimal(c1.exp as int);
    let d2 = decimal(c2.exp as int);
    assert(j == p + u1 + m + d1 + e);
    assert(j == p + u2 + m + d2 + e);
    assert(d1.len() == d2.len());
    assert(u1 =~= j.subrange(8, 44));
    assert(u2 =~= j.subrange(8, 44));
    assert(d1 =~= j.subrange(52, j.len() - 1));
    assert(d2 =~= j.subrange(52, j.len() - 1));
    lemma_uuid_text_injective(c1.sub, c2.sub);
    lemma_parse_i64_of_decimal(c1.exp);
    lemma_parse_i64_of_decimal(c2.exp);
}

/// The JSON text of the claims.
pub fn claims_json_text(c: &AccessTokenClaims) -> (r: Vec<char>)
    ensures
        r@ == claims_json(*c),
{
    let mut r = chars_of("{\"sub\":\"");
    let uuid = uuid_hyphenated(c.sub);
    let uuid_chars = chars_of(uuid.as_str());
    push_chars(&mut r, uuid_chars.as_slice());
    let tail = chars_of("\",\"exp\":");
    push_chars(&mut r, tail.as_slice());
    push_decimal_i64(c.exp, &mut r);
    let close = chars_of("}");
    push_chars(&mut r, close.as_slice());
    r
}

/// The JSON text of the default `jsonwebtoken` header (`typ` JWT, `alg`
/// HS256), as `serde_json` writes it.
pub open spec fn header_json() -> Seq<char> {
    "{\"typ\":\"JWT\",\"alg\":\"HS256\"}"@
}

/// The error type of `serde_json`.
#[verifier::external_type_specification]
#[verifier::external_body]
pub struct ExSerdeJsonError(serde_json::Error);

/// The JSON bytes of the default `jsonwebtoken` header.
///
/// Trusted: `serde_json::to_vec` of `jsonwebtoken::Header::default()`. The
/// header's `Serialize` is derived, writes `typ` then `alg` and skips the
/// fields that are `None`; `Header::default` has `typ` "JWT" and `alg`
/// HS256, which serialises as "HS256". Serialising it cannot fail.
#[verifier::external_body]
fn default_header_json() -> (r: Result<Vec<u8>, serde_json::Error>)
    ensures
        r is Ok,
        r matches Ok(b) ==> b@ == ascii_bytes(header_json()),
{
    serde_json::to_vec(&jsonwebtoken::Header::default())
}

/// Whether every character belongs to the URL-safe base64 alphabet
/// (`A`-`Z`, `a`-`z`, `0`-`9`, `-`, `_`).
pub open spec fn is_base64url_text(s: Seq<char>) -> bool {
    forall|i: int|
        0 <= i < s.len() ==> ('A' <= #[trigger] s[i] && s[i] <= 'Z') || ('a' <= s[i] && s[i] <= 'z')
            || ('0' <= s[i] && s[i] <= '9') || s[i] == '-' || s[i] == '_'
}

/// The character of a 6-bit value in the URL-safe base64 alphabet.
pub open spec fn base64url_char(v: int) -> char {
    if v < 26 {
        (('A' as int) + v) as char
    } else if v < 52 {
        (('a' as int) + v - 26) as char
    } else if v < 62 {
        (('0' as int) + v - 52) as char
    } else if v == 62 {
        '-'
    } else {
        '_'
    }
}

/// Base64 with the URL-safe alphabet and no padding (RFC 4648, section 5):
/// every three bytes become four characters of six bits each; a last group
/// of two bytes becomes three characters, of one byte two characters.
pub open spec fn base64url(d: Seq<u8>) -> Seq<char>
    decreases d.len(),
{
    if d.len() == 0 {
        Seq::empty()
    } else if d.len() == 1 {
        seq![base64url_char((d[0] as int) / 4), base64url_char(((d[0] as int) % 4) * 16)]
    } else if d.len() == 2 {
        seq![
            base64url_char((d[0] as int) / 4),
            base64url_char(((d[0] as int) % 4) * 16 + (d[1] as int) / 16),
            base64url_char(((d[1] as int) % 16) * 4),
        ]
    } else {
        seq![
            base64url_char((d[0] as int) / 4),
            base64url_char(((d[0] as int) % 4) * 16 + (d[1] as int) / 16),
            base64url_char(((d[1] as int) % 16) * 4 + (d[2] as int) / 64),
            base64url_char((d[2] as int) % 64),
        ] + base64url(d.skip(3))
    }
}

proof fn lemma_base64url_char(v: int)
    requires
        0 <= v < 64,
    ensures
        ({
            let c = base64url_char(v);
            ('A' <= c && c <= 'Z') || ('a' <= c && c <= 'z') || ('0' <= c && c <= '9') || c == '-'
                || c == '_'
        }),
{
}

/// Base64 text without padding has `ceil(4n / 3)` characters for `n`
/// bytes, all in the URL-safe alphabet.
pub proof fn lemma_base64url_shape(d: Seq<u8>)
    ensures
        base64url(d).len() == (4 * d.len() + 2) / 3,
        is_base64url_text(base64url(d)),
    decreases d.len(),
{
    let e = base64url(d);
    if d.len() >= 3 {
        lemma_base64url_shape(d.skip(3));
        lemma_base64url_char((d[0] as int) / 4);
        lemma_base64url_char(((d[0] as int) % 4) * 16 + (d[1] as int) / 16);
        lemma_base64url_char(((d[1] as int) % 16) * 4 + (d[2] as int) / 64);
        lemma_base64url_char((d[2] as int) % 64);
        let rest = base64url(d.skip(3));
        assert forall|i: int| 0 <= i < e.len() implies ('A' <= #[trigger] e[i] && e[i] <= 'Z') || (
        'a' <= e[i] && e[i] <= 'z') || ('0' <= e[i] && e[i] <= '9') || e[i] == '-' || e[i] == '_' by {
            if i >= 4 {
                assert(e[i] == rest[i - 4]);
            }
        }
    } else if d.len() == 2 {
        lemma_base64url_char((d[0] as int) / 4);
        lemma_base64url_char(((d[0] as int) % 4) * 16 + (d[1] as int) / 16);
        lemma_base64url_char(((d[1] as int) % 16) * 4);
    } else if d.len() == 1 {
        lemma_base64url_char((d[0] as int) / 4);
        lemma_base64url_char(((d[0] as int) % 4) * 16);
    }
}

/// The 6-bit value of a character of the URL-safe base64 alphabet.
pub open spec fn base64url_value(c: char) -> int {
    if 'A' <= c && c <= 'Z' {
        (c as int) - ('A' as int)
    } else if 'a' <= c && c <= 'z' {
        (c as int) - ('a' as int) + 26
    } else if '0' <= c && c <= '9' {
        (c as int) - ('0' as int) + 52
    } else if c == '-' {
        62
    } else {
        63
    }
}

proof fn lemma_base64url_value(v: int)
    requires
        0 <= v < 64,
    ensures
        base64url_value(base64url_char(v)) == v,
{
}

proof fn lemma_base64url_group(a0: int, a1: int, a2: int, b0: int, b1: int, b2: int)
    requires
        0 <= a0 < 256,
        0 <= a1 < 256,
        0 <= a2 < 256,
        0 <= b0 < 256,
        0 <= b1 < 256,
        0 <= b2 < 256,
        a0 / 4 == b0 / 4,
        (a0 % 4) * 16 + a1 / 16 == (b0 % 4) * 16 + b1 / 16,
        (a1 % 16) * 4 + a2 / 64 == (b1 % 16) * 4 + b2 / 64,
        a2 % 64 == b2 % 64,
    ensures
        a0 == b0,
        a1 == b1,
        a2 == b2,
{
}

/// Base64 loses nothing: different bytes never encode to the same text.
pub proof fn lemma_base64url_injective(d: Seq<u8>, e: Seq<u8>)
    requires
        base64url(d) == base64url(e),
    ensures
        d == e,
    decreases d.len(),
{
    lemma_base64url_shape(d);
    lemma_base64url_shape(e);
    assert(d.len() == e.len()) by {
        if d.len() < e.len() {
            assert((4 * d.len() + 2) / 3 < (4 * e.len() + 2) / 3);
        } else if d.len() > e.len() {
            assert((4 * d.len() + 2) / 3 > (4 * e.len() + 2) / 3);
        }
    }
    let x = base64url(d);
    if d.len() >= 3 {
        let (a0, a1, a2) = (d[0] as int, d[1] as int, d[2] as int);
        let (b0, b1, b2) = (e[0] as int, e[1] as int, e[2] as int);
        lemma_base64url_value(a0 / 4);
        lemma_base64url_value(b0 / 4);
        lemma_base64url_value((a0 % 4) * 16 + a1 / 16);
        lemma_base64url_value((b0 % 4) * 16 + b1 / 16);
        lemma_base64url_value((a1 % 16) * 4 + a2 / 64);
        lemma_base64url_value((b1 % 16) * 4 + b2 / 64);
        lemma_base64url_value(a2 % 64);
        lemma_base64url_value(b2 % 64);
        assert(x[0] == base64url(e)[0] && x[1] == base64url(e)[1] && x[2] == base64url(e)[2]
            && x[3] == base64url(e)[3]);
        lemma_base64url_group(a0, a1, a2, b0, b1, b2);
        assert(base64url(d.skip(3)) == x.skip(4));
        assert(base64url(e.skip(3)) == base64url(e).skip(4));
        lemma_base64url_injective(d.skip(3), e.skip(3));
        assert(d =~= e) by {
            assert forall|i: int| 0 <= i < d.len() implies d[i] == e[i] by {
                if i >= 3 {
                    assert(d[i] == d.skip(3)[i - 3]);
                    assert(e[i] == e.skip(3)[i - 3]);
                }
            }
        }
    } else if d.len() == 2 {
        let (a0, a1) = (d[0] as int, d[1] as int);
        let (b0, b1) = (e[0] as int, e[1] as int);
        lemma_base64url_value(a0 / 4);
        lemma_base64url_value(b0 / 4);
        lemma_base64url_value((a0 % 4) * 16 + a1 / 16);
        lemma_base64url_value((b0 % 4) * 16 + b1 / 16);
        lemma_base64url_value((a1 % 16) * 4);
        lemma_base64url_value((b1 % 16) * 4);
        assert(x[0] == base64url(e)[0] && x[1] == base64url(e)[1] && x[2] == base64url(e)[2]);
        lemma_base64url_group(a0, a1, 0, b0, b1, 0);
        assert(d =~= e);
    } else if d.len() == 1 {
        let a0 = d[0] as int;
        let b0 = e[0] as int;
        lemma_base64url_value(a0 / 4);
        lemma_base64url_value(b0 / 4);
        lemma_base64url_value((a0 % 4) * 16);
        lemma_base64url_value((b0 % 4) * 16);
        assert(x[0] == base64url(e)[0] && x[1] == base64url(e)[1]);
        lemma_base64url_group(a0, 0, 0, b0, 0, 0);
        assert(d =~= e);
    } else {
        assert(d =~= e);
    }
}

/// Encodes bytes in base64 with the URL-safe alphabet and no padding, as
/// `jsonwebtoken` encodes each part of a token.
///
/// Trusted: `base64::engine::general_purpose::URL_SAFE_NO_PAD.encode`, the
/// RFC 4648 URL-safe alphabet without padding, as the crate documents.
#[verifier::external_body]
fn base64url_encode(data: &[u8]) -> (r: String)
    ensures
        r@ == base64url(data@),
{
    base64::Engine::encode(&base64::engine::general_purpose::URL_SAFE_NO_PAD, data)
}

/// The error type of `jsonwebtoken`.
#[verifier::external_type_specification]
#[verifier::external_body]
pub struct ExJwtError(jsonwebtoken::errors::Error);

/// What `ring` computes as the HMAC-SHA256 tag of `message` under `secret`.
pub uninterp spec fn hmac_sha256(message: Seq<u8>, secret: Seq<u8>) -> Seq<u8>;

/// The HS256 signature of a message: the base64url text of its HMAC-SHA256.
pub open spec fn hs256_signature(message: Seq<u8>, secret: Seq<u8>) -> Seq<char> {
    base64url(hmac_sha256(message, secret))
}

/// Signs a message with HMAC-SHA256.
///
/// Trusted: `jsonwebtoken::crypto::sign` with an `EncodingKey::from_secret`
/// key and `Algorithm::HS256`. Its source returns `Ok` for every HMAC
/// algorithm, with `URL_SAFE_NO_PAD` base64 of `ring::hmac::sign` under
/// `HMAC_SHA256`, a tag of 32 bytes that depends on the message and the
/// secret alone.
#[verifier::external_body]
fn sign_hs256(message: &[u8], secret: &[u8]) -> (r: Result<String, jsonwebtoken::errors::Error>)
    ensures
        r is Ok,
        r matches Ok(s) ==> s@ == base64url(hmac_sha256(message@, secret@)) && hmac_sha256(
            message@,
            secret@,
        ).len() == 32,
{
    jsonwebtoken::crypto::sign(
        message,
        &jsonwebtoken::EncodingKey::from_secret(secret),
        jsonwebtoken::Algorithm::HS256,
    )
}

/// The signed part of a token: the encoded header and claims joined by `.`.
pub open spec fn signing_input(c: AccessTokenClaims) -> Seq<char> {
    base64url(ascii_bytes(header_json())) + seq!['.'] + base64url(ascii_bytes(claims_json(c)))
}

/// The access token for `c` under `secret`, as `jsonwebtoken::encode` with
/// the default header makes it: `<header>.<claims>.<signature>`.
pub open spec fn access_token_text(c: AccessTokenClaims, secret: Seq<u8>) -> Seq<char> {
    signing_input(c) + seq!['.'] + hs256_signature(ascii_bytes(signing_input(c)), secret)
}

/// Whether a text has the compact JWS shape: three non-empty parts in the
/// URL-safe base64 alphabet, joined by two dots.
pub open spec fn is_compact_jws(t: Seq<char>) -> bool {
    exists|i: int, j: int|
        0 < i && i + 1 < j && j + 1 < t.len() && #[trigger] t[i] == '.' && #[trigger] t[j] == '.'
            && is_base64url_text(t.take(i)) && is_base64url_text(t.subrange(i + 1, j))
            && is_base64url_text(t.skip(j + 1))
}

/// Whether every character is ASCII.
pub open spec fn is_ascii_text(s: Seq<char>) -> bool {
    forall|i: int| 0 <= i < s.len() ==> (#[trigger] s[i] as int) < 128
}

proof fn lemma_ascii_char_byte(c: char)
    requires
        (c as int) < 128,
    ensures
        (c as u8) as int == c as int,
{
    let n: u32 = c as u32;
    assert((n as u8) as int == n as int) by (bit_vector)
        requires
            n < 128u32,
    ;
    assert(c as u8 == n as u8);
}

proof fn lemma_ascii_bytes_injective(a: Seq<char>, b: Seq<char>)
    requires
        is_ascii_text(a),
        is_ascii_text(b),
        ascii_bytes(a) == ascii_bytes(b),
    ensures
        a == b,
{
    assert(a.len() == ascii_bytes(a).len());
    assert(b.len() == ascii_bytes(b).len());
    assert forall|i: int| 0 <= i < a.len() implies a[i] == b[i] by {
        assert(ascii_bytes(a)[i] == a[i] as u8);
        assert(ascii_bytes(b)[i] == b[i] as u8);
        lemma_ascii_char_byte(a[i]);
        lemma_ascii_char_byte(b[i]);
    }
    assert(a =~= b);
}

proof fn lemma_hex_low_ascii(x: nat, n: nat)
    ensures
        is_ascii_text(hex_low(x, n)),
    decreases n,
{
    if n > 0 {
        lemma_hex_low_ascii(x / 16, (n - 1) as nat);
        let h = hex_low(x, n);
        assert forall|i: int| 0 <= i < h.len() implies (#[trigger] h[i] as int) < 128 by {
            if i < h.len() - 1 {
                assert(h[i] == hex_low(x / 16, (n - 1) as nat)[i]);
            }
        }
    }
}

proof fn lemma_claims_json_ascii(c: AccessTokenClaims)
    ensures
        is_ascii_text(claims_json(c)),
{
    reveal_strlit("{\"sub\":\"");
    reveal_strlit("\",\"exp\":");
    reveal_strlit("}");
    let id = c.sub;
    let h = hex_low(id as nat, 32);
    lemma_hex_low_len(id as nat, 32);
    lemma_hex_low_ascii(id as nat, 32);
    let dash = seq!['-'];
    let parts = seq![
        h.subrange(0, 8),
        dash,
        h.subrange(8, 12),
        dash,
        h.subrange(12, 16),
        dash,
        h.subrange(16, 20),
        dash,
        h.subrange(20, 32),
    ];
    assert forall|k: int| 0 <= k < 9 implies is_ascii_text(#[trigger] parts[k]) by {
        let q = parts[k];
        assert forall|i: int| 0 <= i < q.len() implies (#[trigger] q[i] as int) < 128 by {
            if k == 0 { assert(q[i] == h[i]); }
            else if k == 2 { assert(q[i] == h[i + 8]); }
            else if k == 4 { assert(q[i] == h[i + 12]); }
            else if k == 6 { assert(q[i] == h[i + 16]); }
            else if k == 8 { assert(q[i] == h[i + 20]); }
        }
    }
    let u = uuid_text(id);
    assert(is_ascii_text(u)) by {
        let a1 = parts[0] + parts[1];
        let a2 = a1 + parts[2];
        let a3 = a2 + parts[3];
        let a4 = a3 + parts[4];
        let a5 = a4 + parts[5];
        let a6 = a5 + parts[6];
        let a7 = a6 + parts[7];
        let a8 = a7 + parts[8];
        assert(u == a8);
        lemma_concat_ascii(parts[0], parts[1]);
        lemma_concat_ascii(a1, parts[2]);
        lemma_concat_ascii(a2, parts[3]);
        lemma_concat_ascii(a3, parts[4]);
        lemma_concat_ascii(a4, parts[5]);
        lemma_concat_ascii(a5, parts[6]);
        lemma_concat_ascii(a6, parts[7]);
        lemma_concat_ascii(a7, parts[8]);
    }
    let d = decimal(c.exp as int);
    crate::text::lemma_decimal_chars(c.exp as int);
    assert(is_ascii_text(d)) by {
        assert forall|i: int| 0 <= i < d.len() implies (#[trigger] d[i] as int) < 128 by {
            assert(crate::text::is_digit(d[i]) || d[i] == '-');
        }
    }
    let p = "{\"sub\":\""@;
    let m = "\",\"exp\":"@;
    let e = "}"@;
    assert(is_ascii_text(p));
    assert(is_ascii_text(m));
    assert(is_ascii_text(e));
    lemma_concat_ascii(p, u);
    lemma_concat_ascii(p + u, m);
    lemma_concat_ascii(p + u + m, d);
    lemma_concat_ascii(p + u + m + d, e);
}

proof fn lemma_concat_ascii(a: Seq<char>, b: Seq<char>)
    requires
        is_ascii_text(a),
        is_ascii_text(b),
    ensures
        is_ascii_text(a + b),
{
    let c = a + b;
    assert forall|i: int| 0 <= i < c.len() implies (#[trigger] c[i] as int) < 128 by {
        if i < a.len() {
            assert(c[i] == a[i]);
        } else {
            assert(c[i] == b[i - a.len()]);
        }
    }
}

/// An access token gives back its claims: two tokens that are equal carry
/// the same user and the same expiry, whatever the secrets.
pub proof fn lemma_access_token_determines_claims(
    c1: AccessTokenClaims,
    k1: Seq<u8>,
    c2: AccessTokenClaims,
    k2: Seq<u8>,
)
    requires
        access_token_text(c1, k1) == access_token_text(c2, k2),
    ensures
        c1 == c2,
{
    let hb = ascii_bytes(header_json());
    let h = base64url(hb);
    let b1 = ascii_bytes(claims_json(c1));
    let b2 = ascii_bytes(claims_json(c2));
    let x1 = base64url(b1);
    let x2 = base64url(b2);
    let s1 = hs256_signature(ascii_bytes(signing_input(c1)), k1);
    let s2 = hs256_signature(ascii_bytes(signing_input(c2)), k2);
    lemma_base64url_shape(b1);
    lemma_base64url_shape(b2);
    lemma_base64url_shape(hmac_sha256(ascii_bytes(signing_input(c1)), k1));
    lemma_base64url_shape(hmac_sha256(ascii_bytes(signing_input(c2)), k2));
    let t = access_token_text(c1, k1);
    assert(t == h + seq!['.'] + x1 + seq!['.'] + s1);
    assert(t == h + seq!['.'] + x2 + seq!['.'] + s2);
    let o: int = h.len() as int + 1;
    assert(x1.len() == x2.len()) by {
        if x1.len() < x2.len() {
            assert(t[o + x1.len() as int] == '.');
            assert(t[o + x1.len() as int] == x2[x1.len() as int]);
        } else if x1.len() > x2.len() {
            assert(t[o + x2.len() as int] == '.');
            assert(t[o + x2.len() as int] == x1[x2.len() as int]);
        }
    }
    assert(x1 =~= t.subrange(o, o + x1.len() as int));
    assert(x2 =~= t.subrange(o, o + x2.len() as int));
    lemma_base64url_injective(b1, b2);
    lemma_claims_json_ascii(c1);
    lemma_claims_json_ascii(c2);
    lemma_ascii_bytes_injective(claims_json(c1), claims_json(c2));
    lemma_claims_json_injective(c1, c2);
}

/// Why an access token could not be made.
#[derive(Debug, PartialEq, Eq, Structural)]
pub enum TokenError {
    /// The JWT library failed to encode or sign.
    Jwt,
    /// The expiry instant lies outside the range of dates that `time`
    /// represents.
    ExpiryOutOfRange,
}

/// Encodes and signs the claims as an HS256 JSON Web Token, as
/// `jsonwebtoken::encode` does with the default header:
/// `<header>.<claims>.<signature>`, each part in URL-safe base64.
pub fn encode_access_token(c: &AccessTokenClaims, secret: &str) -> (r: Result<String, TokenError>)
    ensures
        r is Ok,
        r matches Ok(t) ==> t@ == access_token_text(*c, vstd::utf8::encode_utf8(secret@)),
        r matches Ok(t) ==> is_compact_jws(t@),
{
    let header = match default_header_json() {
        Ok(h) => h,
        Err(_) => return Err(TokenError::Jwt),
    };
    let header_part = base64url_encode(header.as_slice());
    let claims = claims_json_text(c);
    let claims_bytes = ascii_bytes_of(claims.as_slice());
    let claims_part = base64url_encode(claims_bytes.as_slice());
    let mut message = chars_of(header_part.as_str());
    message.push('.');
    let claims_chars = chars_of(claims_part.as_str());
    push_chars(&mut message, claims_chars.as_slice());
    assert(message@ =~= signing_input(*c));
    let message_bytes = ascii_bytes_of(message.as_slice());
    match sign_hs256(message_bytes.as_slice(), secret.as_bytes()) {
        Ok(signature) => {
            let mut token = message;
            token.push('.');
            let signature_chars = chars_of(signature.as_str());
            push_chars(&mut token, signature_chars.as_slice());
            assert(token@ =~= access_token_text(*c, vstd::utf8::encode_utf8(secret@)));
            proof {
                lemma_base64url_shape(header@);
                lemma_base64url_shape(claims_bytes@);
                lemma_base64url_shape(hmac_sha256(message_bytes@, vstd::utf8::encode_utf8(secret@)));
                reveal_strlit("{\"typ\":\"JWT\",\"alg\":\"HS256\"}");
                assert(header@.len() > 0);
                assert(claims@.len() > 0) by {
                    reveal_strlit("{\"sub\":\"");
                }
                assert(claims_bytes@.len() > 0);
                let i = header_part@.len() as int;
                let j = i + 1 + claims_part@.len();
                assert(token@[i] == '.');
                assert(token@[j] == '.');
                assert(token@.take(i) =~= header_part@);
                assert(token@.subrange(i + 1, j) =~= claims_part@);
                assert(token@.skip(j + 1) =~= signature@);
            }
            Ok(string_of_chars(token.as_slice()))
        },
        Err(_) => Err(TokenError::Jwt),
    }
}

/// The access token for a user at instant `now` (whole seconds): it expires
/// `ttl_seconds` later. When that expiry falls outside the range of dates
/// (where `OffsetDateTime + Duration` panics) the answer is
/// `ExpiryOutOfRange`; otherwise it is the token.
pub fn generate_access_token_at(user_id: u128, secret: &str, ttl_seconds: i64, now: i64) -> (r:
    Result<String, TokenError>)
    ensures
        r is Ok <==> in_time_range(now + ttl_seconds),
        r matches Ok(t) ==> t@ == access_token_text(
            (AccessTokenClaims { sub: user_id, exp: (now + ttl_seconds) as i64 }),
            vstd::utf8::encode_utf8(secret@),
        ),
        r matches Ok(t) ==> is_compact_jws(t@),
        r matches Err(e) ==> e == TokenError::ExpiryOutOfRange,
{
    match now.checked_add(ttl_seconds) {
        Some(exp) => {
            if in_range_seconds(exp) {
                let claims = AccessTokenClaims { sub: user_id, exp };
                encode_access_token(&claims, secret)
            } else {
                Err(TokenError::ExpiryOutOfRange)
            }
        },
        None => Err(TokenError::ExpiryOutOfRange),
    }
}

/// The access token for a user, expiring `ttl_seconds` from now: the clock
/// is read and its whole seconds handed to `generate_access_token_at`, which
/// decides between the token and `ExpiryOutOfRange`. Whatever the clock
/// reads, the result is that function's answer for some instant in the
/// range of dates; a lifetime that keeps every such instant in the range is
/// always served.
pub fn generate_access_token(user_id: u128, secret: &str, ttl_seconds: i64) -> (r: Result<
    String,
    TokenError,
>)
    ensures
        exists|now: int|
            #[trigger] in_time_range(now) && (r is Ok <==> in_time_range(now + ttl_seconds)) && (r matches Ok(
                t,
            ) ==> t@ == access_token_text(
                (AccessTokenClaims { sub: user_id, exp: (now + ttl_seconds) as i64 }),
                vstd::utf8::encode_utf8(secret@),
            )),
        r matches Ok(t) ==> is_compact_jws(t@),
        r matches Err(e) ==> e == TokenError::ExpiryOutOfRange,
        (forall|now: int| #[trigger] in_time_range(now) ==> in_time_range(now + ttl_seconds))
            ==> r is Ok,
{
    let now = now_timestamp();
    let r = generate_access_token_at(user_id, secret, ttl_seconds, now.seconds);
    assert(in_time_range(now.seconds as int));
    r
}

} // verus!
