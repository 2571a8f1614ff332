//! Characters, decimal numbers and string building.

use vstd::prelude::*;

verus! {

/// Appends one character to a `String`.
///
/// Trusted: `String::push` appends `c` at the end, as std documents.
#[verifier::external_body]
pub fn push_char(s: &mut String, c: char)
    ensures
        final(s)@ == old(s)@.push(c),
{
    s.push(c);
}

/// The characters of a string slice, in order.
pub fn chars_of(s: &str) -> (r: Vec<char>)
    ensures
        r@ == s@,
{
    let mut r: Vec<char> = Vec::new();
    for c in it: s.chars()
        invariant
            r@ == it.seq().take(it.index() as int),
    {
        r.push(c);
    }
    r
}


/// A `String` holding exactly the given characters.
pub fn string_of_chars(cs: &[char]) -> (r: String)
    ensures
        r@ == cs@,
{
    let mut r = String::new();
    let n = cs.len();
    for i in 0..n
        invariant
            n == cs@.len(),
            r@ == cs@.take(i as int),
    {
        push_char(&mut r, cs[i]);
        assert(cs@.take(i + 1) == cs@.take(i as int).push(cs@[i as int]));
    }
    assert(cs@.take(n as int) == cs@);
    r
}

/// The ASCII character of a decimal digit.
pub open spec fn digit_char(d: nat) -> char {
    if d == 0 { '0' } else if d == 1 { '1' } else if d == 2 { '2' } else if d == 3 { '3' }
    else if d == 4 { '4' } else if d == 5 { '5' } else if d == 6 { '6' } else if d == 7 { '7' }
    else if d == 8 { '8' } else { '9' }
}

/// Whether `c` is one of `'0'..='9'`.
pub open spec fn is_digit(c: char) -> bool {
    '0' <= c && c <= '9'
}

/// The value of a decimal digit character.
pub open spec fn digit_value(c: char) -> int {
    (c as int) - ('0' as int)
}

/// The decimal text of a natural number, most significant digit first,
/// without leading zeros (zero is `"0"`).
pub open spec fn decimal_digits(n: nat) -> Seq<char>
    decreases n,
{
    if n < 10 {
        seq![digit_char(n)]
    } else {
        decimal_digits(n / 10).push(digit_char(n % 10))
    }
}

/// The decimal text of an integer, as Rust's `Display` writes it: a `'-'`
/// before the digits of a negative number.
pub open spec fn decimal(n: int) -> Seq<char> {
    if n < 0 {
        seq!['-'] + decimal_digits((-n) as nat)
    } else {
        decimal_digits(n as nat)
    }
}

fn digit_to_char(d: u64) -> (c: char)
    requires
        d < 10,
    ensures
        c == digit_char(d as nat),
{
    if d == 0 { '0' } else if d == 1 { '1' } else if d == 2 { '2' } else if d == 3 { '3' }
    else if d == 4 { '4' } else if d == 5 { '5' } else if d == 6 { '6' } else if d == 7 { '7' }
    else if d == 8 { '8' } else { '9' }
}

/// Appends the decimal digits of `n` to `out`.
pub fn push_decimal_digits(n: u64, out: &mut Vec<char>)
    ensures
        final(out)@ == old(out)@ + decimal_digits(n as nat),
    decreases n,
{
    if n >= 10 {
        push_decimal_digits(n / 10, out);
    }
    out.push(digit_to_char(n % 10));
    assert(old(out)@ + decimal_digits(n as nat) == if n >= 10 {
        (old(out)@ + decimal_digits((n / 10) as nat)).push(digit_char((n % 10) as nat))
    } else {
        old(out)@.push(digit_char(n as nat))
    });
}

/// Appends the decimal text of `n` to `out`, as `Display` for `i64` writes it.
pub fn push_decimal_i64(n: i64, out: &mut Vec<char>)
    ensures
        final(out)@ == old(out)@ + decimal(n as int),
{
    if n < 0 {
        out.push('-');
        let magnitude: u64 = if n == i64::MIN {
            9223372036854775808u64
        } else {
            (-n) as u64
        };
        push_decimal_digits(magnitude, out);
        assert(old(out)@.push('-') + decimal_digits(magnitude as nat) == old(out)@ + (seq!['-']
            + decimal_digits(magnitude as nat)));
    } else {
        push_decimal_digits(n as u64, out);
    }
}

/// Whether every character of `s` is a decimal digit.
pub open spec fn all_digits(s: Seq<char>) -> bool {
    forall|i: int| 0 <= i < s.len() ==> is_digit(#[trigger] s[i])
}

/// The value of a string of decimal digits (leading zeros allowed).
pub open spec fn digits_value(s: Seq<char>) -> int
    decreases s.len(),
{
    if s.len() == 0 {
        0
    } else {
        digits_value(s.drop_last()) * 10 + digit_value(s.last())
    }
}

/// The value of a non-empty run of decimal digits, or `None`.
pub open spec fn digit_run(s: Seq<char>) -> Option<int> {
    if s.len() > 0 && all_digits(s) {
        Some(digits_value(s))
    } else {
        None
    }
}

/// What `str::parse::<u16>` accepts: an optional `'+'`, then one or more
/// decimal digits, whose value fits in a `u16`.
pub open spec fn parse_u16_text(s: Seq<char>) -> Option<int> {
    let body = if s.len() > 0 && s[0] == '+' { s.skip(1) } else { s };
    match digit_run(body) {
        Some(v) => if v <= 65535 { Some(v) } else { None },
        None => None,
    }
}

/// What `str::parse::<i64>` accepts: an optional `'+'` or `'-'`, then one or
/// more decimal digits, whose signed value fits in an `i64`.
pub open spec fn parse_i64_text(s: Seq<char>) -> Option<int> {
    if s.len() > 0 && s[0] == '-' {
        match digit_run(s.skip(1)) {
            Some(v) => if v <= 9223372036854775808 { Some(-v) } else { None },
            None => None,
        }
    } else {
        let body = if s.len() > 0 && s[0] == '+' { s.skip(1) } else { s };
        match digit_run(body) {
            Some(v) => if v <= 9223372036854775807 { Some(v) } else { None },
            None => None,
        }
    }
}

proof fn lemma_digits_value_nonneg(s: Seq<char>)
    requires
        all_digits(s),
    ensures
        digits_value(s) >= 0,
    decreases s.len(),
{
    if s.len() > 0 {
        assert(all_digits(s.drop_last()));
        lemma_digits_value_nonneg(s.drop_last());
        assert(is_digit(s[s.len() - 1]));
    }
}

proof fn lemma_digits_value_grows(s: Seq<char>, i: int)
    requires
        all_digits(s),
        0 <= i <= s.len(),
    ensures
        digits_value(s.take(i)) <= digits_value(s),
    decreases s.len() - i,
{
    if i < s.len() {
        lemma_digits_value_grows(s, i + 1);
        assert(s.take(i + 1).drop_last() == s.take(i));
        assert(all_digits(s.take(i)));
        lemma_digits_value_nonneg(s.take(i));
        assert(is_digit(s[i]));
    } else {
        assert(s.take(i) == s);
    }
}

/// The value of `digits[start..]` if it is a non-empty run of digits no
/// greater than `bound`; `None` otherwise.
fn digit_run_bounded(digits: &[char], start: usize, bound: u64) -> (r: Option<u64>)
    requires
        start <= digits@.len(),
        bound >= 9,
    ensures
        r matches Some(v) ==> digit_run(digits@.skip(start as int)) == Some(v as int) && v <= bound,
        r is None ==> match digit_run(digits@.skip(start as int)) {
            Some(v) => v > bound,
            None => true,
        },
{
    let ghost s = digits@.skip(start as int);
    let n = digits.len();
    if start == n {
        return None;
    }
    let mut value: u64 = 0;
    let mut i = start;
    while i < n
        invariant
            start <= i <= n,
            n == digits@.len(),
            s == digits@.skip(start as int),
            all_digits(s.take(i - start)),
            value as int == digits_value(s.take(i - start)),
            value <= bound,
            bound >= 9,
        decreases n - i,
    {
        let c = digits[i];
        assert(s[i - start] == c);
        if c < '0' || c > '9' {
            assert(!all_digits(s));
            return None;
        }
        let d = (c as u32 - '0' as u32) as u64;
        assert(s.take(i + 1 - start).drop_last() == s.take(i - start));
        if value > (bound - d) / 10 {
            proof {
                assert(value * 10 + d > bound) by (nonlinear_arith)
                    requires value > (bound - d) / 10, d <= 9, bound >= 9;
                if all_digits(s) {
                    lemma_digits_value_grows(s, i + 1 - start);
                }
            }
            return None;
        }
        assert(value * 10 + d <= bound) by (nonlinear_arith)
            requires value <= (bound - d) / 10, d <= 9, bound >= 9;
        value = value * 10 + d;
        i = i + 1;
    }
    assert(s.take(n - start) == s);
    Some(value)
}


/// `str::parse::<u16>`: an optional `'+'` and decimal digits whose value
/// fits in a `u16`; `None` for anything else.
pub fn parse_u16(s: &str) -> (r: Option<u16>)
    ensures
        r matches Some(v) ==> parse_u16_text(s@) == Some(v as int),
        r is None ==> parse_u16_text(s@) is None,
{
    let cs = chars_of(s);
    let start: usize = if cs.len() > 0 && cs[0] == '+' { 1 } else { 0 };
    assert(cs@.skip(0) == cs@);
    match digit_run_bounded(cs.as_slice(), start, 65535) {
        Some(v) => Some(v as u16),
        None => None,
    }
}

/// `str::parse::<i64>`: an optional `'+'` or `'-'` and decimal digits
/// whose signed value fits in an `i64`; `None` for anything else.
pub fn parse_i64(s: &str) -> (r: Option<i64>)
    ensures
        r matches Some(v) ==> parse_i64_text(s@) == Some(v as int),
        r is None ==> parse_i64_text(s@) is None,
{
    let cs = chars_of(s);
    assert(cs@.skip(0) == cs@);
    if cs.len() > 0 && cs[0] == '-' {
        match digit_run_bounded(cs.as_slice(), 1, 9223372036854775808u64) {
            Some(v) => {
                if v == 9223372036854775808u64 {
                    Some(i64::MIN)
                } else {
                    Some(-(v as i64))
                }
            },
            None => None,
        }
    } else {
        let start: usize = if cs.len() > 0 && cs[0] == '+' { 1 } else { 0 };
        match digit_run_bounded(cs.as_slice(), start, 9223372036854775807u64) {
            Some(v) => Some(v as i64),
            None => None,
        }
    }
}


proof fn lemma_digit_char(k: nat)
    requires
        k < 10,
    ensures
        is_digit(digit_char(k)),
        digit_value(digit_char(k)) == k,
{
}

proof fn lemma_decimal_digits_value(n: nat)
    ensures
        decimal_digits(n).len() > 0,
        all_digits(decimal_digits(n)),
        digits_value(decimal_digits(n)) == n,
    decreases n,
{
    if n >= 10 {
        lemma_decimal_digits_value(n / 10);
        lemma_digit_char(n % 10);
        let d = decimal_digits(n);
        assert(d.last() == digit_char(n % 10));
        assert(n == (n / 10) * 10 + n % 10);
        assert(digits_value(d) == digits_value(d.drop_last()) * 10 + digit_value(d.last()));
        assert(d.drop_last() == decimal_digits(n / 10));
        assert forall|i: int| 0 <= i < d.len() implies is_digit(#[trigger] d[i]) by {
            if i < d.len() - 1 {
                assert(d[i] == decimal_digits(n / 10)[i]);
            }
        }
    } else {
        lemma_digit_char(n);
        let d = decimal_digits(n);
        assert(d.drop_last() =~= Seq::<char>::empty());
        assert(digits_value(d.drop_last()) == 0);
        assert(digits_value(d) == digits_value(d.drop_last()) * 10 + digit_value(d.last()));
    }
}

/// Decimal text holds only digits and, first, a minus sign.
pub proof fn lemma_decimal_chars(n: int)
    ensures
        forall|i: int|
            0 <= i < decimal(n).len() ==> is_digit(#[trigger] decimal(n)[i]) || decimal(n)[i] == '-',
{
    if n < 0 {
        let m = (-n) as nat;
        lemma_decimal_digits_value(m);
        let d = decimal(n);
        assert forall|i: int| 0 <= i < d.len() implies is_digit(#[trigger] d[i]) || d[i] == '-' by {
            if i > 0 {
                assert(d[i] == decimal_digits(m)[i - 1]);
            }
        }
    } else {
        lemma_decimal_digits_value(n as nat);
    }
}

/// Decimal text reads back: parsing, as `str::parse::<i64>` does, the text
/// that `Display` writes for an `i64` gives the same number.
pub proof fn lemma_parse_i64_of_decimal(n: i64)
    ensures
        parse_i64_text(decimal(n as int)) == Some(n as int),
{
    if n < 0 {
        let m = (-(n as int)) as nat;
        lemma_decimal_digits_value(m);
        assert((seq!['-'] + decimal_digits(m)).skip(1) == decimal_digits(m));
        assert((seq!['-'] + decimal_digits(m))[0] == '-');
    } else {
        lemma_decimal_digits_value(n as nat);
        assert(is_digit(decimal_digits(n as nat)[0]));
    }
}

/// The ASCII bytes of a text whose characters are all below 128.
pub open spec fn ascii_bytes(s: Seq<char>) -> Seq<u8> {
    s.map_values(|c: char| c as u8)
}

/// The bytes of characters that are all below 128.
pub fn ascii_bytes_of(cs: &[char]) -> (r: Vec<u8>)
    ensures
        r@ == ascii_bytes(cs@),
{
    let n = cs.len();
    let mut r: Vec<u8> = Vec::new();
    for i in 0..n
        invariant
            n == cs@.len(),
            r@ == ascii_bytes(cs@.take(i as int)),
    {
        r.push(cs[i] as u8);
        assert(ascii_bytes(cs@.take(i + 1)) == ascii_bytes(cs@.take(i as int)).push(cs@[i as int] as u8));
    }
    assert(cs@.take(n as int) == cs@);
    r
}

/// Appends the characters of a slice to `out`.
pub fn push_chars(out: &mut Vec<char>, cs: &[char])
    ensures
        final(out)@ == old(out)@ + cs@,
{
    let n = cs.len();
    for i in 0..n
        invariant
            n == cs@.len(),
            out@ == old(out)@ + cs@.take(i as int),
    {
        out.push(cs[i]);
        assert(cs@.take(i + 1) == cs@.take(i as int).push(cs@[i as int]));
    }
    assert(cs@.take(n as int) == cs@);
}

} // verus!
