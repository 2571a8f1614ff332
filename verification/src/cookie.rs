//! The refresh-token cookie: reading it from a `Cookie` request header and
//! writing the value of the `Set-Cookie` response header.

use vstd::prelude::*;
use crate::text::{ascii_bytes, chars_of, string_of_chars, push_decimal_i64, decimal, lemma_decimal_chars};

verus! {

/// Whether a header byte is visible ASCII or a tab: the bytes for which a
/// header value can be read as text.
pub open spec fn is_visible_header_byte(b: u8) -> bool {
    (32 <= b && b < 127) || b == 9
}

/// The text of a header value: its bytes as characters when every byte is
/// visible ASCII or a tab, `None` otherwise.
pub open spec fn header_text(bytes: Seq<u8>) -> Option<Seq<char>> {
    if forall|i: int| 0 <= i < bytes.len() ==> is_visible_header_byte(#[trigger] bytes[i]) {
        Some(bytes.map_values(|b: u8| b as char))
    } else {
        None
    }
}

/// Unicode `White_Space`, as `char::is_whitespace` decides it.
pub open spec fn is_whitespace(c: char) -> bool {
    ||| '\u{9}' <= c && c <= '\u{d}'
    ||| c == ' '
    ||| c == '\u{85}'
    ||| c == '\u{a0}'
    ||| c == '\u{1680}'
    ||| '\u{2000}' <= c && c <= '\u{200a}'
    ||| c == '\u{2028}'
    ||| c == '\u{2029}'
    ||| c == '\u{202f}'
    ||| c == '\u{205f}'
    ||| c == '\u{3000}'
}

/// `s` without its leading whitespace.
pub open spec fn trim_start(s: Seq<char>) -> Seq<char>
    decreases s.len(),
{
    if s.len() > 0 && is_whitespace(s[0]) {
        trim_start(s.skip(1))
    } else {
        s
    }
}

/// `s` without its trailing whitespace.
pub open spec fn trim_end(s: Seq<char>) -> Seq<char>
    decreases s.len(),
{
    if s.len() > 0 && is_whitespace(s.last()) {
        trim_end(s.drop_last())
    } else {
        s
    }
}

/// `s` without leading and trailing whitespace, as `str::trim` gives it.
pub open spec fn trim(s: Seq<char>) -> Seq<char> {
    trim_end(trim_start(s))
}

/// The number of characters before the first `';'` of `s` (all of them
/// when there is none).
pub open spec fn segment_len(s: Seq<char>) -> nat
    decreases s.len(),
{
    if s.len() == 0 || s[0] == ';' {
        0
    } else {
        1 + segment_len(s.skip(1))
    }
}

/// Where the first piece of a cookie header ends.
pub proof fn lemma_segment_len_bound(s: Seq<char>)
    ensures
        segment_len(s) <= s.len(),
        segment_len(s) < s.len() ==> s[segment_len(s) as int] == ';',
        forall|k: int| 0 <= k < segment_len(s) ==> s[k] != ';',
    decreases s.len(),
{
    if s.len() > 0 && s[0] != ';' {
        lemma_segment_len_bound(s.skip(1));
        assert forall|k: int| 0 <= k < segment_len(s) implies s[k] != ';' by {
            if k > 0 {
                assert(s[k] == s.skip(1)[k - 1]);
            }
        }
    }
}

/// The name and `=` that open the refresh-token cookie.
pub open spec fn refresh_cookie_prefix() -> Seq<char> {
    seq!['r', 'e', 'f', 'r', 'e', 's', 'h', '_', 't', 'o', 'k', 'e', 'n', '=']
}

/// Whether `s` begins with `p`.
pub open spec fn starts_with(s: Seq<char>, p: Seq<char>) -> bool {
    s.len() >= p.len() && s.take(p.len() as int) == p
}

/// The refresh token in the text of a `Cookie` header: the header is split
/// at every `';'`, each piece is trimmed, and the first piece that begins
/// with `refresh_token=` gives what follows that prefix.
pub open spec fn refresh_token_in(s: Seq<char>) -> Option<Seq<char>>
    decreases s.len(),
{
    let k = segment_len(s);
    let piece = trim(s.take(k as int));
    if starts_with(piece, refresh_cookie_prefix()) {
        Some(piece.skip(refresh_cookie_prefix().len() as int))
    } else if k >= s.len() {
        None
    } else {
        proof {
            lemma_segment_len_bound(s);
        }
        refresh_token_in(s.skip(k + 1 as int))
    }
}

/// What reading the refresh token from a request gives: nothing without a
/// `Cookie` header or when its value is not visible ASCII text, else the
/// refresh token in that text.
pub open spec fn refresh_cookie_of(header: Option<Seq<u8>>) -> Option<Seq<char>> {
    match header {
        None => None,
        Some(bytes) => match header_text(bytes) {
            None => None,
            Some(text) => refresh_token_in(text),
        },
    }
}

fn is_whitespace_char(c: char) -> (r: bool)
    ensures
        r == is_whitespace(c),
{
    ('\u{9}' <= c && c <= '\u{d}') || c == ' ' || c == '\u{85}' || c == '\u{a0}' || c == '\u{1680}'
        || ('\u{2000}' <= c && c <= '\u{200a}') || c == '\u{2028}' || c == '\u{2029}' || c
        == '\u{202f}' || c == '\u{205f}' || c == '\u{3000}'
}


proof fn lemma_segment_len_at(s: Seq<char>, j: int)
    requires
        0 <= j <= s.len(),
        forall|k: int| 0 <= k < j ==> s[k] != ';',
        j == s.len() || s[j] == ';',
    ensures
        segment_len(s) == j,
    decreases j,
{
    if j > 0 {
        assert forall|k: int| 0 <= k < j - 1 implies s.skip(1)[k] != ';' by {
            assert(s.skip(1)[k] == s[k + 1]);
        }
        lemma_segment_len_at(s.skip(1), j - 1);
    }
}

proof fn lemma_trim_start_at(s: Seq<char>, a: int)
    requires
        0 <= a <= s.len(),
        forall|k: int| 0 <= k < a ==> is_whitespace(s[k]),
        a == s.len() || !is_whitespace(s[a]),
    ensures
        trim_start(s) == s.skip(a),
    decreases a,
{
    if a > 0 {
        assert forall|k: int| 0 <= k < a - 1 implies is_whitespace(s.skip(1)[k]) by {
            assert(s.skip(1)[k] == s[k + 1]);
        }
        lemma_trim_start_at(s.skip(1), a - 1);
        assert(s.skip(1).skip(a - 1) == s.skip(a));
    } else {
        assert(s.skip(0) == s);
    }
}

proof fn lemma_trim_end_at(s: Seq<char>, m: int)
    requires
        0 <= m <= s.len(),
        forall|k: int| m <= k < s.len() ==> is_whitespace(s[k]),
        m == 0 || !is_whitespace(s[m - 1]),
    ensures
        trim_end(s) == s.take(m),
    decreases s.len() - m,
{
    if m < s.len() {
        assert forall|k: int| m <= k < s.drop_last().len() implies is_whitespace(
            s.drop_last()[k],
        ) by {
            assert(s.drop_last()[k] == s[k]);
        }
        lemma_trim_end_at(s.drop_last(), m);
        assert(s.drop_last().take(m) == s.take(m));
    } else {
        assert(s.take(m) == s);
    }
}

/// The characters of header bytes that are all visible ASCII or tabs.
fn header_chars(bytes: &[u8]) -> (r: Option<Vec<char>>)
    ensures
        r matches Some(cs) ==> header_text(bytes@) == Some(cs@),
        r is None ==> header_text(bytes@) is None,
{
    let n = bytes.len();
    let mut cs: Vec<char> = Vec::new();
    for i in 0..n
        invariant
            n == bytes@.len(),
            cs@ == bytes@.take(i as int).map_values(|b: u8| b as char),
            forall|k: int| 0 <= k < i ==> is_visible_header_byte(#[trigger] bytes@[k]),
    {
        let b = bytes[i];
        if !((32 <= b && b < 127) || b == 9) {
            return None;
        }
        cs.push(b as char);
        assert(bytes@.take(i + 1).map_values(|b: u8| b as char) == bytes@.take(i as int).map_values(
            |b: u8| b as char,
        ).push(b as char));
    }
    assert(bytes@.take(n as int) == bytes@);
    Some(cs)
}

/// The bytes of an optional header value.
pub open spec fn header_bytes(h: Option<&[u8]>) -> Option<Seq<u8>> {
    match h {
        Some(b) => Some(b@),
        None => None,
    }
}

/// The end of the piece of a cookie header that starts at `i`: the index of
/// the next `';'`, or the end of the text.
fn piece_end(cs: &Vec<char>, i: usize) -> (j: usize)
    requires
        i <= cs@.len(),
    ensures
        i <= j <= cs@.len(),
        segment_len(cs@.skip(i as int)) == j - i,
{
    let n = cs.len();
    let mut j = i;
    while j < n && cs[j] != ';'
        invariant
            i <= j <= n,
            n == cs@.len(),
            forall|k: int| i <= k < j ==> cs@[k] != ';',
        decreases n - j,
    {
        j = j + 1;
    }
    let ghost rest = cs@.skip(i as int);
    proof {
        assert forall|k: int| 0 <= k < j - i implies rest[k] != ';' by {
            assert(rest[k] == cs@[i + k]);
        }
        lemma_segment_len_at(rest, j - i);
    }
    j
}

/// The bounds, within `[i, j)`, of that range of `cs` with its leading and
/// trailing whitespace removed.
fn trimmed_bounds(cs: &Vec<char>, i: usize, j: usize) -> (r: (usize, usize))
    requires
        i <= j <= cs@.len(),
    ensures
        i <= r.0 <= r.1 <= j,
        trim(cs@.subrange(i as int, j as int)) == cs@.subrange(r.0 as int, r.1 as int),
{
    let mut a = i;
    while a < j && is_whitespace_char(cs[a])
        invariant
            i <= a <= j <= cs@.len(),
            forall|k: int| i <= k < a ==> is_whitespace(cs@[k]),
        decreases j - a,
    {
        a = a + 1;
    }
    let mut b = j;
    while b > a && is_whitespace_char(cs[b - 1])
        invariant
            i <= a <= b <= j <= cs@.len(),
            forall|k: int| b <= k < j ==> is_whitespace(cs@[k]),
        decreases b - a,
    {
        b = b - 1;
    }
    let ghost seg = cs@.subrange(i as int, j as int);
    proof {
        assert forall|k: int| 0 <= k < a - i implies is_whitespace(seg[k]) by {
            assert(seg[k] == cs@[i + k]);
        }
        lemma_trim_start_at(seg, a - i);
        let st = seg.skip(a - i);
        assert(st == cs@.subrange(a as int, j as int));
        assert forall|k: int| b - a <= k < st.len() implies is_whitespace(st[k]) by {
            assert(st[k] == cs@[a + k]);
        }
        lemma_trim_end_at(st, b - a);
        assert(st.take(b - a) == cs@.subrange(a as int, b as int));
    }
    (a, b)
}

/// Whether `cs[a..b]` begins with `refresh_token=`.
fn has_cookie_prefix(cs: &Vec<char>, a: usize, b: usize) -> (r: bool)
    requires
        a <= b <= cs@.len(),
    ensures
        r == starts_with(cs@.subrange(a as int, b as int), refresh_cookie_prefix()),
{
    let ghost piece = cs@.subrange(a as int, b as int);
    let prefix: Vec<char> = vec!['r', 'e', 'f', 'r', 'e', 's', 'h', '_', 't', 'o', 'k', 'e', 'n', '='];
    assert(prefix@ == refresh_cookie_prefix());
    if b - a < 14 {
        return false;
    }
    let mut k: usize = 0;
    while k < 14
        invariant
            k <= 14,
            a + 14 <= b <= cs@.len(),
            piece == cs@.subrange(a as int, b as int),
            prefix@ == refresh_cookie_prefix(),
            forall|q: int| 0 <= q < k ==> piece[q] == prefix@[q],
        decreases 14 - k,
    {
        if cs[a + k] != prefix[k] {
            assert(piece.take(14)[k as int] != refresh_cookie_prefix()[k as int]);
            return false;
        }
        k = k + 1;
    }
    assert(piece.take(14) == refresh_cookie_prefix());
    true
}

/// Reads the refresh token from the value of a request's `Cookie` header
/// (`None` when the request has no such header).
///
/// The header value must be visible ASCII text; it is split at every `';'`,
/// each piece is trimmed of whitespace, and the first piece that begins with
/// `refresh_token=` gives the token: the rest of that piece.
pub fn read_refresh_cookie(cookie_header: Option<&[u8]>) -> (r: Option<String>)
    ensures
        r matches Some(t) ==> refresh_cookie_of(header_bytes(cookie_header)) == Some(t@),
        r is None ==> refresh_cookie_of(header_bytes(cookie_header)) is None,
{
    let bytes = match cookie_header {
        None => return None,
        Some(h) => h,
    };
    let cs = match header_chars(bytes) {
        None => return None,
        Some(cs) => cs,
    };
    let ghost text = cs@;
    assert(refresh_cookie_of(header_bytes(cookie_header)) == refresh_token_in(text));
    let n = cs.len();
    let mut i: usize = 0;
    assert(text.skip(0) == text);
    loop
        invariant
            i <= n,
            n == text.len(),
            cs@ == text,
            refresh_token_in(text.skip(i as int)) == refresh_cookie_of(header_bytes(cookie_header)),
        decreases n - i,
    {
        let ghost rest = text.skip(i as int);
        let j = piece_end(&cs, i);
        let (a, b) = trimmed_bounds(&cs, i, j);
        assert(rest.take(j - i) == text.subrange(i as int, j as int));
        let ghost piece = text.subrange(a as int, b as int);
        if has_cookie_prefix(&cs, a, b) {
            let value = string_of_chars(&cs.as_slice()[a + 14..b]);
            assert(piece.skip(14) == text.subrange(a + 14, b as int));
            return Some(value);
        }
        if j == n {
            return None;
        }
        assert(rest.skip(j - i + 1) == text.skip(j + 1));
        i = j + 1;
    }
}


/// The attributes that follow the token in the `Set-Cookie` value, up to the
/// number of seconds the cookie lives.
pub open spec fn refresh_cookie_attributes() -> Seq<char> {
    "; HttpOnly; Path=/auth/refresh; Max-Age="@
}

/// The `Set-Cookie` value that carries a refresh token for `ttl_seconds`.
pub open spec fn refresh_cookie_text(token: Seq<char>, ttl_seconds: int) -> Seq<char> {
    refresh_cookie_prefix() + token + refresh_cookie_attributes() + decimal(ttl_seconds)
}

/// Whether a character's UTF-8 bytes may all stand in a header value: a
/// tab, or a character from the space up other than DEL (the bytes of a
/// character beyond ASCII are all 0x80 or above, which a header value
/// accepts).
pub open spec fn is_header_value_char(c: char) -> bool {
    c == '\t' || (' ' <= c && c != '\u{7f}')
}

/// Whether a text can be the value of a header: every character is one
/// that a header value accepts.
pub open spec fn is_header_value_text(s: Seq<char>) -> bool {
    forall|i: int| 0 <= i < s.len() ==> is_header_value_char(#[trigger] s[i])
}

proof fn lemma_cookie_text_header_value(token: Seq<char>, ttl_seconds: int)
    ensures
        is_header_value_text(refresh_cookie_text(token, ttl_seconds)) <==> is_header_value_text(
            token,
        ),
{
    reveal_strlit("; HttpOnly; Path=/auth/refresh; Max-Age=");
    lemma_decimal_chars(ttl_seconds);
    let p = refresh_cookie_prefix();
    let a = refresh_cookie_attributes();
    let d = decimal(ttl_seconds);
    let s = refresh_cookie_text(token, ttl_seconds);
    let t = token.len() as int;
    assert(s == p + token + a + d);
    if is_header_value_text(token) {
        assert forall|i: int| 0 <= i < s.len() implies is_header_value_char(#[trigger] s[i]) by {
            if i < 14 {
                assert(s[i] == p[i]);
            } else if i < 14 + t {
                assert(s[i] == token[i - 14]);
            } else if i < 14 + t + a.len() {
                assert(s[i] == a[i - 14 - t]);
            } else {
                assert(s[i] == d[i - 14 - t - a.len()]);
            }
        }
    }
    if is_header_value_text(s) {
        assert forall|i: int| 0 <= i < token.len() implies is_header_value_char(#[trigger] token[i]) by {
            assert(s[i + 14] == token[i]);
        }
    }
}

/// The value of the `Set-Cookie` header that hands a refresh token to the
/// client: `refresh_token=<token>; HttpOnly; Path=/auth/refresh;
/// Max-Age=<ttl_seconds>`. It is a valid header value exactly when the
/// token holds no control character other than a tab (no byte below 0x20
/// but tab, and no 0x7F).
pub fn refresh_cookie_value(refresh_token: &str, ttl_seconds: i64) -> (r: String)
    ensures
        r@ == refresh_cookie_text(refresh_token@, ttl_seconds as int),
        is_header_value_text(r@) <==> is_header_value_text(refresh_token@),
{
    proof {
        lemma_cookie_text_header_value(refresh_token@, ttl_seconds as int);
    }
    let mut cs: Vec<char> = vec!['r', 'e', 'f', 'r', 'e', 's', 'h', '_', 't', 'o', 'k', 'e', 'n', '='];
    let mut token = chars_of(refresh_token);
    cs.append(&mut token);
    let mut attributes = chars_of("; HttpOnly; Path=/auth/refresh; Max-Age=");
    cs.append(&mut attributes);
    push_decimal_i64(ttl_seconds, &mut cs);
    string_of_chars(cs.as_slice())
}

/// Whether a token can stand as a cookie value that reads back unchanged:
/// it holds no `';'` and does not end in whitespace.
pub open spec fn is_plain_cookie_value(t: Seq<char>) -> bool {
    &&& forall|i: int| 0 <= i < t.len() ==> t[i] != ';'
    &&& (t.len() == 0 || !is_whitespace(t.last()))
}

/// A cookie text that begins with `refresh_token=<t>` and then ends or goes
/// on with `';'` gives back `t`.
pub proof fn lemma_refresh_token_in_leading_pair(t: Seq<char>, rest: Seq<char>)
    requires
        is_plain_cookie_value(t),
        rest.len() == 0 || rest[0] == ';',
    ensures
        refresh_token_in(refresh_cookie_prefix() + t + rest) == Some(t),
{
    let p = refresh_cookie_prefix();
    let pair = p + t;
    let s = pair + rest;
    let k = pair.len() as int;
    assert forall|q: int| 0 <= q < k implies s[q] != ';' by {
        assert(s[q] == pair[q]);
        if q >= 14 {
            assert(pair[q] == t[q - 14]);
        }
    }
    lemma_segment_len_at(s, k);
    assert(s.take(k) == pair);
    lemma_trim_start_at(pair, 0);
    assert(pair.skip(0) == pair);
    lemma_trim_end_at(pair, k);
    assert(pair.take(k) == pair);
    assert(pair.take(14) == p);
    assert(pair.skip(14) == t);
}

/// The cookie reads back: the text of the `Set-Cookie` value made for a
/// token holds that token as the refresh cookie.
pub proof fn lemma_refresh_cookie_round_trip(token: Seq<char>, ttl_seconds: int)
    requires
        is_plain_cookie_value(token),
    ensures
        refresh_token_in(refresh_cookie_text(token, ttl_seconds)) == Some(token),
{
    reveal_strlit("; HttpOnly; Path=/auth/refresh; Max-Age=");
    let rest = refresh_cookie_attributes() + decimal(ttl_seconds);
    assert(rest[0] == ';');
    assert(refresh_cookie_text(token, ttl_seconds) == refresh_cookie_prefix() + token + rest);
    lemma_refresh_token_in_leading_pair(token, rest);
}

/// Whether every character is visible ASCII or a tab, so that its byte is
/// readable in a header value.
pub open spec fn is_visible_header_text(s: Seq<char>) -> bool {
    forall|i: int| 0 <= i < s.len() ==> (' ' <= #[trigger] s[i] && s[i] <= '~') || s[i] == '\t'
}

proof fn lemma_header_text_of_ascii(s: Seq<char>)
    requires
        is_visible_header_text(s),
    ensures
        header_text(ascii_bytes(s)) == Some(s),
{
    let b = ascii_bytes(s);
    assert forall|i: int| 0 <= i < b.len() implies is_visible_header_byte(#[trigger] b[i]) by {
        assert(b[i] == s[i] as u8);
    }
    assert(b.map_values(|x: u8| x as char) =~= s);
}

/// A client that sends back, in its `Cookie` header, the pair
/// `refresh_token=<token>` that it was given, followed by nothing or by
/// further cookies after a `';'`, is read as presenting that token.
pub proof fn lemma_returned_cookie_is_read(token: Seq<char>, rest: Seq<char>)
    requires
        is_plain_cookie_value(token),
        is_visible_header_text(token),
        is_visible_header_text(rest),
        rest.len() == 0 || rest[0] == ';',
    ensures
        refresh_cookie_of(Some(ascii_bytes(refresh_cookie_prefix() + token + rest))) == Some(
            token,
        ),
{
    let s = refresh_cookie_prefix() + token + rest;
    assert forall|i: int| 0 <= i < s.len() implies (' ' <= #[trigger] s[i] && s[i] <= '~') || s[i]
        == '\t' by {
        if i < 14 {
        } else if i < 14 + token.len() {
            assert(s[i] == token[i - 14]);
        } else {
            assert(s[i] == rest[i - 14 - token.len()]);
        }
    }
    lemma_header_text_of_ascii(s);
    lemma_refresh_token_in_leading_pair(token, rest);
}

/// Whether a text holds no `';'`, so that it is one piece of a cookie
/// header.
pub open spec fn is_single_piece(x: Seq<char>) -> bool {
    forall|i: int| 0 <= i < x.len() ==> x[i] != ';'
}

proof fn lemma_first_piece(x: Seq<char>, rest: Seq<char>)
    requires
        is_single_piece(x),
    ensures
        segment_len(x + seq![';'] + rest) == x.len(),
        (x + seq![';'] + rest).take(x.len() as int) == x,
        (x + seq![';'] + rest).skip(x.len() + 1 as int) == rest,
        segment_len(x) == x.len(),
        x.take(x.len() as int) == x,
{
    let s = x + seq![';'] + rest;
    assert forall|k: int| 0 <= k < x.len() implies s[k] != ';' by {
        assert(s[k] == x[k]);
    }
    lemma_segment_len_at(s, x.len() as int);
    lemma_segment_len_at(x, x.len() as int);
    assert(s.take(x.len() as int) =~= x);
    assert(s.skip(x.len() + 1 as int) =~= rest);
    assert(x.take(x.len() as int) =~= x);
}

/// A piece of the header that is not the refresh cookie is passed over,
/// wherever it stands: the token is then the one in the pieces after it.
pub proof fn lemma_other_piece_is_skipped(x: Seq<char>, rest: Seq<char>)
    requires
        is_single_piece(x),
        !starts_with(trim(x), refresh_cookie_prefix()),
    ensures
        refresh_token_in(x + seq![';'] + rest) == refresh_token_in(rest),
{
    lemma_first_piece(x, rest);
}

/// A piece that is the refresh cookie gives the token, the rest of the
/// trimmed piece after `refresh_token=`, whatever pieces follow it.
pub proof fn lemma_cookie_piece_is_taken(x: Seq<char>, rest: Seq<char>)
    requires
        is_single_piece(x),
        starts_with(trim(x), refresh_cookie_prefix()),
    ensures
        refresh_token_in(x + seq![';'] + rest) == Some(trim(x).skip(14)),
        refresh_token_in(x) == Some(trim(x).skip(14)),
{
    lemma_first_piece(x, rest);
}

/// A header made of one piece that is not the refresh cookie holds no
/// refresh token.
pub proof fn lemma_last_other_piece_gives_nothing(x: Seq<char>)
    requires
        is_single_piece(x),
        !starts_with(trim(x), refresh_cookie_prefix()),
    ensures
        refresh_token_in(x) is None,
{
    lemma_first_piece(x, Seq::empty());
}

/// Trimming removes exactly the whitespace around a text.
pub proof fn lemma_trim_strips(a: Seq<char>, x: Seq<char>, b: Seq<char>)
    requires
        forall|i: int| 0 <= i < a.len() ==> is_whitespace(#[trigger] a[i]),
        forall|i: int| 0 <= i < b.len() ==> is_whitespace(#[trigger] b[i]),
        x.len() == 0 || (!is_whitespace(x[0]) && !is_whitespace(x.last())),
        x.len() == 0 ==> b.len() == 0,
    ensures
        trim(a + x + b) == x,
{
    let s = a + x + b;
    assert forall|k: int| 0 <= k < a.len() implies is_whitespace(s[k]) by {
        assert(s[k] == a[k]);
    }
    if x.len() > 0 {
        assert(s[a.len() as int] == x[0]);
    }
    lemma_trim_start_at(s, a.len() as int);
    let t = s.skip(a.len() as int);
    assert(t =~= x + b);
    assert forall|k: int| x.len() <= k < t.len() implies is_whitespace(t[k]) by {
        assert(t[k] == b[k - x.len()]);
    }
    if x.len() > 0 {
        assert(t[x.len() - 1] == x.last());
    }
    lemma_trim_end_at(t, x.len() as int);
    assert(t.take(x.len() as int) =~= x);
}

} // verus!
