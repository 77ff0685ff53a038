//! Character-level string helpers shared by the other modules: building
//! strings, comparing them, decimal rendering and integer parsing.

use vstd::prelude::*;
use vstd::string::*;

verus! {

/// Appends one character to a string.
///
/// Calls `String::push`, which the standard library documents as appending
/// the given `char` to the end of the string.
#[verifier::external_body]
pub fn push_char(s: &mut String, c: char)
    ensures
        final(s)@ == old(s)@.push(c),
{
    s.push(c);
}

/// Appends all of `t` to `s`.
pub fn push_str(s: &mut String, t: &str)
    ensures
        final(s)@ == old(s)@ + t@,
{
    s.append(t);
}

/// A fresh `String` holding the characters of `t`.
pub fn to_string(t: &str) -> (s: String)
    ensures
        s@ == t@,
{
    String::from_str(t)
}

/// Character-by-character equality of two string slices.
pub fn str_eq(a: &str, b: &str) -> (r: bool)
    ensures
        r == (a@ == b@),
{
    let n = a.unicode_len();
    if n != b.unicode_len() {
        return false;
    }
    let mut i: usize = 0;
    while i < n
        invariant
            n == a@.len(),
            n == b@.len(),
            i <= n,
            forall|j: int| 0 <= j < i ==> a@[j] == b@[j],
        decreases n - i,
    {
        if a.get_char(i) != b.get_char(i) {
            return false;
        }
        i = i + 1;
    }
    assert(a@ =~= b@);
    true
}

/// Does `s` begin with the characters of `prefix`?
pub fn starts_with(s: &str, prefix: &str) -> (r: bool)
    ensures
        r == (prefix@.len() <= s@.len() && s@.subrange(0, prefix@.len() as int) == prefix@),
{
    let n = prefix.unicode_len();
    if n > s.unicode_len() {
        return false;
    }
    let mut i: usize = 0;
    while i < n
        invariant
            n == prefix@.len(),
            n <= s@.len(),
            i <= n,
            forall|j: int| 0 <= j < i ==> s@[j] == prefix@[j],
        decreases n - i,
    {
        if s.get_char(i) != prefix.get_char(i) {
            assert(s@.subrange(0, n as int)[i as int] != prefix@[i as int]);
            return false;
        }
        i = i + 1;
    }
    assert(s@.subrange(0, n as int) =~= prefix@);
    true
}

/// The decimal digit character for `d < 10`.
pub open spec fn digit_char(d: nat) -> char {
    if d == 0 {
        '0'
    } else if d == 1 {
        '1'
    } else if d == 2 {
        '2'
    } else if d == 3 {
        '3'
    } else if d == 4 {
        '4'
    } else if d == 5 {
        '5'
    } else if d == 6 {
        '6'
    } else if d == 7 {
        '7'
    } else if d == 8 {
        '8'
    } else {
        '9'
    }
}

/// The decimal rendering of `n`, without leading zeros.
pub open spec fn spec_decimal(n: nat) -> Seq<char>
    decreases n,
{
    if n < 10 {
        seq![digit_char(n)]
    } else {
        spec_decimal(n / 10).push(digit_char(n % 10))
    }
}

fn digit_to_char(d: u64) -> (c: char)
    requires
        d < 10,
    ensures
        c == digit_char(d as nat),
{
    if d == 0 {
        '0'
    } else if d == 1 {
        '1'
    } else if d == 2 {
        '2'
    } else if d == 3 {
        '3'
    } else if d == 4 {
        '4'
    } else if d == 5 {
        '5'
    } else if d == 6 {
        '6'
    } else if d == 7 {
        '7'
    } else if d == 8 {
        '8'
    } else {
        '9'
    }
}

/// Appends the decimal rendering of `n` to `s`.
pub fn push_decimal(s: &mut String, n: u64)
    ensures
        final(s)@ == old(s)@ + spec_decimal(n as nat),
    decreases n,
{
    if n < 10 {
        push_char(s, digit_to_char(n));
        assert(old(s)@.push(digit_char(n as nat)) =~= old(s)@ + spec_decimal(n as nat));
    } else {
        push_decimal(s, n / 10);
        push_char(s, digit_to_char(n % 10));
        assert(old(s)@ + spec_decimal((n / 10) as nat) + seq![digit_char((n % 10) as nat)]
            =~= old(s)@ + spec_decimal(n as nat));
    }
}

/// The upper-case hexadecimal digit character for `d < 16`.
pub open spec fn hex_digit_char(d: nat) -> char {
    if d < 10 {
        digit_char(d)
    } else if d == 10 {
        'A'
    } else if d == 11 {
        'B'
    } else if d == 12 {
        'C'
    } else if d == 13 {
        'D'
    } else if d == 14 {
        'E'
    } else {
        'F'
    }
}

/// A byte as two upper-case hexadecimal digits, with a leading zero.
pub open spec fn spec_hex2(b: u8) -> Seq<char> {
    seq![hex_digit_char((b / 16) as nat), hex_digit_char((b % 16) as nat)]
}

fn hex_digit_to_char(d: u8) -> (c: char)
    requires
        d < 16,
    ensures
        c == hex_digit_char(d as nat),
{
    if d < 10 {
        digit_to_char(d as u64)
    } else if d == 10 {
        'A'
    } else if d == 11 {
        'B'
    } else if d == 12 {
        'C'
    } else if d == 13 {
        'D'
    } else if d == 14 {
        'E'
    } else {
        'F'
    }
}

/// Appends `b` as two upper-case hexadecimal digits to `s`.
pub fn push_hex2(s: &mut String, b: u8)
    ensures
        final(s)@ == old(s)@ + spec_hex2(b),
{
    push_char(s, hex_digit_to_char(b / 16));
    push_char(s, hex_digit_to_char(b % 16));
    assert(old(s)@.push(hex_digit_char((b / 16) as nat)).push(hex_digit_char((b % 16) as nat))
        =~= old(s)@ + spec_hex2(b));
}

/// ASCII upper-casing of one character; every other character is kept.
pub open spec fn spec_ascii_upper(c: char) -> char {
    if 'a' <= c && c <= 'z' {
        ((c as u32) - 32) as char
    } else {
        c
    }
}

fn ascii_upper_char(c: char) -> (r: char)
    ensures
        r == spec_ascii_upper(c),
{
    if 'a' <= c && c <= 'z' {
        let b: u8 = c as u8;
        let r = (b - 32) as char;
        assert(r == ((c as u32) - 32) as char);
        r
    } else {
        c
    }
}

/// `s` with the ASCII letters `a`..`z` turned into `A`..`Z`.
pub fn to_ascii_uppercase(s: &str) -> (r: String)
    ensures
        r@ == s@.map_values(|c: char| spec_ascii_upper(c)),
{
    let n = s.unicode_len();
    let mut r = String::new();
    let mut i: usize = 0;
    while i < n
        invariant
            n == s@.len(),
            i <= n,
            r@ == s@.subrange(0, i as int).map_values(|c: char| spec_ascii_upper(c)),
        decreases n - i,
    {
        let c = s.get_char(i);
        push_char(&mut r, ascii_upper_char(c));
        i = i + 1;
        assert(r@ =~= s@.subrange(0, i as int).map_values(|c: char| spec_ascii_upper(c)));
    }
    assert(s@.subrange(0, n as int) =~= s@);
    r
}

/// Why a string is not an unsigned integer; the kinds that the standard
/// library's integer parsing reports for unsigned targets.
#[derive(Debug, Clone, Copy, PartialEq, Eq)]
pub enum IntParseError {
    Empty,
    InvalidDigit,
    PosOverflow,
}

impl IntParseError {
    /// The message that the standard library shows for this kind.
    pub open spec fn spec_message(self) -> Seq<char> {
        match self {
            IntParseError::Empty => "cannot parse integer from empty string"@,
            IntParseError::InvalidDigit => "invalid digit found in string"@,
            IntParseError::PosOverflow => "number too large to fit in target type"@,
        }
    }

    pub fn message(&self) -> (m: String)
        ensures
            m@ == self.spec_message(),
    {
        match self {
            IntParseError::Empty => to_string("cannot parse integer from empty string"),
            IntParseError::InvalidDigit => to_string("invalid digit found in string"),
            IntParseError::PosOverflow => to_string("number too large to fit in target type"),
        }
    }
}

/// The value of a digit character in base 10 or 16 (`a`..`f` in either case).
pub open spec fn spec_digit(c: char, radix: nat) -> Option<nat> {
    if '0' <= c && c <= '9' {
        Some(((c as u32) - ('0' as u32)) as nat)
    } else if radix == 16 && 'a' <= c && c <= 'f' {
        Some(((c as u32) - ('a' as u32) + 10) as nat)
    } else if radix == 16 && 'A' <= c && c <= 'F' {
        Some(((c as u32) - ('A' as u32) + 10) as nat)
    } else {
        None
    }
}

/// Reads the digits of `s` from the left: the first character that is no
/// digit gives `InvalidDigit`, the first digit that takes the value past
/// `max` gives `PosOverflow`.
pub open spec fn spec_digits(s: Seq<char>, radix: nat, max: nat) -> Result<nat, IntParseError>
    decreases s.len(),
{
    if s.len() == 0 {
        Ok(0)
    } else {
        match spec_digits(s.drop_last(), radix, max) {
            Err(e) => Err(e),
            Ok(v) => match spec_digit(s.last(), radix) {
                None => Err(IntParseError::InvalidDigit),
                Some(d) => if v * radix + d > max {
                    Err(IntParseError::PosOverflow)
                } else {
                    Ok(v * radix + d)
                },
            },
        }
    }
}

/// Parsing an unsigned integer of at most `max` in base `radix` as the
/// standard library does it: empty input is `Empty`, one leading `+` is
/// allowed when digits follow it.
pub open spec fn spec_parse_uint(s: Seq<char>, radix: nat, max: nat) -> Result<nat, IntParseError> {
    if s.len() == 0 {
        Err(IntParseError::Empty)
    } else if s.len() == 1 && (s[0] == '+' || s[0] == '-') {
        Err(IntParseError::InvalidDigit)
    } else {
        let digits = if s[0] == '+' {
            s.drop_first()
        } else {
            s
        };
        spec_digits(digits, radix, max)
    }
}

/// `spec_parse_uint` for `u16`.
pub open spec fn spec_parse_u16(s: Seq<char>, radix: nat) -> Result<u16, IntParseError> {
    match spec_parse_uint(s, radix, 0xFFFF) {
        Ok(v) => Ok(v as u16),
        Err(e) => Err(e),
    }
}

fn digit_value(c: char, radix: u32) -> (r: Option<u32>)
    requires
        radix == 10 || radix == 16,
    ensures
        r matches Some(d) ==> spec_digit(c, radix as nat) == Some(d as nat) && d < radix,
        r is None ==> spec_digit(c, radix as nat) is None,
{
    if '0' <= c && c <= '9' {
        Some((c as u32) - ('0' as u32))
    } else if radix == 16 && 'a' <= c && c <= 'f' {
        Some((c as u32) - ('a' as u32) + 10)
    } else if radix == 16 && 'A' <= c && c <= 'F' {
        Some((c as u32) - ('A' as u32) + 10)
    } else {
        None
    }
}

proof fn lemma_overflow_test(acc: nat, radix: nat, d: nat, max: nat)
    requires
        radix > 0,
        d <= max,
    ensures
        (acc * radix + d > max) == (acc > (max - d) / radix as int),
{
    let m: int = max - d;
    let q: int = m / radix as int;
    let r: int = m % radix as int;
    assert(m == q * radix + r && 0 <= r < radix) by (nonlinear_arith)
        requires
            radix > 0,
            q == m / radix as int,
            r == m % radix as int,
            m >= 0,
    ;
    if acc > q {
        assert(acc * radix >= q * radix + radix) by (nonlinear_arith)
            requires
                acc >= q + 1,
                radix > 0,
        ;
    } else {
        assert(acc * radix <= q * radix) by (nonlinear_arith)
            requires
                acc <= q,
                radix > 0,
        ;
    }
}

/// Parses the characters of `s` from index `start` on as an unsigned
/// integer of at most `max`, in base `radix` (10 or 16).
pub fn parse_uint_from(s: &str, start: usize, radix: u32, max: u64) -> (r: Result<
    u64,
    IntParseError,
>)
    requires
        radix == 10 || radix == 16,
        start <= s@.len(),
    ensures
        match spec_parse_uint(s@.subrange(start as int, s@.len() as int), radix as nat, max as nat) {
            Ok(v) => r == Ok::<u64, IntParseError>(v as u64),
            Err(e) => r == Err::<u64, IntParseError>(e),
        },
{
    let ghost text = s@.subrange(start as int, s@.len() as int);
    let n = s.unicode_len();
    if start == n {
        return Err(IntParseError::Empty);
    }
    let first = s.get_char(start);
    assert(text[0] == first);
    if start + 1 == n && (first == '+' || first == '-') {
        return Err(IntParseError::InvalidDigit);
    }
    let begin: usize = if first == '+' {
        start + 1
    } else {
        start
    };
    let ghost digits = s@.subrange(begin as int, n as int);
    assert(digits =~= (if text[0] == '+' {
        text.drop_first()
    } else {
        text
    }));
    assert(spec_parse_uint(text, radix as nat, max as nat) == spec_digits(digits, radix as nat, max as nat));
    let mut acc: u64 = 0;
    let mut i: usize = begin;
    assert(s@.subrange(begin as int, begin as int) =~= Seq::<char>::empty());
    while i < n
        invariant
            n == s@.len(),
            begin <= i <= n,
            radix == 10 || radix == 16,
            digits == s@.subrange(begin as int, n as int),
            text == s@.subrange(start as int, s@.len() as int),
            spec_parse_uint(text, radix as nat, max as nat) == spec_digits(digits, radix as nat, max as nat),
            acc <= max,
            spec_digits(s@.subrange(begin as int, i as int), radix as nat, max as nat) == Ok::<
                nat,
                IntParseError,
            >(acc as nat),
        decreases n - i,
    {
        let c = s.get_char(i);
        let ghost prefix = s@.subrange(begin as int, i as int + 1);
        assert(prefix.drop_last() =~= s@.subrange(begin as int, i as int));
        assert(prefix.last() == c);
        match digit_value(c, radix) {
            None => {
                proof {
                    assert(s@.subrange(begin as int, n as int).subrange(0, (i - begin + 1) as int) =~= prefix);
                    lemma_digits_error_sticks(s@.subrange(begin as int, n as int), (i - begin + 1) as nat, radix as nat, max as nat);
                }
                return Err(IntParseError::InvalidDigit);
            },
            Some(d) => {
                let d64 = d as u64;
                let overflow = d64 > max || acc > (max - d64) / (radix as u64);
                proof {
                    if d64 <= max {
                        lemma_overflow_test(acc as nat, radix as nat, d64 as nat, max as nat);
                    } else {
                        assert(acc * radix + d64 > max) by (nonlinear_arith)
                            requires
                                d64 > max,
                                acc >= 0,
                                radix > 0,
                        ;
                    }
                }
                if overflow {
                    proof {
                        assert(s@.subrange(begin as int, n as int).subrange(0, (i - begin + 1) as int) =~= prefix);
                        lemma_digits_error_sticks(s@.subrange(begin as int, n as int), (i - begin + 1) as nat, radix as nat, max as nat);
                    }
                    return Err(IntParseError::PosOverflow);
                }
                acc = acc * (radix as u64) + d64;
            },
        }
        i = i + 1;
    }
    assert(s@.subrange(begin as int, n as int) =~= digits);
    Ok(acc)
}

/// Parses the characters of `s` from index `start` on as a `u16` in base
/// `radix` (10 or 16).
pub fn parse_u16_from(s: &str, start: usize, radix: u32) -> (r: Result<u16, IntParseError>)
    requires
        radix == 10 || radix == 16,
        start <= s@.len(),
    ensures
        r == spec_parse_u16(s@.subrange(start as int, s@.len() as int), radix as nat),
{
    match parse_uint_from(s, start, radix, 0xFFFF) {
        Ok(v) => Ok(v as u16),
        Err(e) => Err(e),
    }
}

/// Once a prefix of the digits fails, the whole fails the same way.
proof fn lemma_digits_error_sticks(s: Seq<char>, k: nat, radix: nat, max: nat)
    requires
        k <= s.len(),
        spec_digits(s.subrange(0, k as int), radix, max) is Err,
    ensures
        spec_digits(s, radix, max) == spec_digits(s.subrange(0, k as int), radix, max),
    decreases s.len() - k,
{
    if k < s.len() {
        let t = s.subrange(0, k as int + 1);
        assert(t.drop_last() =~= s.subrange(0, k as int));
        assert(t.subrange(0, k as int) =~= s.subrange(0, k as int));
        lemma_digits_error_sticks(s, k + 1, radix, max);
    } else {
        assert(s.subrange(0, k as int) =~= s);
    }
}

/// The characters with the Unicode `White_Space` property, which is what
/// `char::is_whitespace` tests.
pub open spec fn spec_is_whitespace(c: char) -> bool {
    ('\u{9}' <= c && c <= '\u{d}') || c == ' ' || c == '\u{85}' || c == '\u{a0}' || c == '\u{1680}'
        || ('\u{2000}' <= c && c <= '\u{200a}') || c == '\u{2028}' || c == '\u{2029}' || c
        == '\u{202f}' || c == '\u{205f}' || c == '\u{3000}'
}

fn is_whitespace(c: char) -> (r: bool)
    ensures
        r == spec_is_whitespace(c),
{
    ('\u{9}' <= c && c <= '\u{d}') || c == ' ' || c == '\u{85}' || c == '\u{a0}' || c == '\u{1680}'
        || ('\u{2000}' <= c && c <= '\u{200a}') || c == '\u{2028}' || c == '\u{2029}' || c
        == '\u{202f}' || c == '\u{205f}' || c == '\u{3000}'
}

/// `s` without leading and trailing whitespace: the part from the first to
/// the last character that is not whitespace (empty when there is none).
pub open spec fn spec_is_trim_of(s: Seq<char>, t: Seq<char>) -> bool {
    exists|a: int, b: int|
        0 <= a <= b <= s.len() && t == s.subrange(a, b) && (forall|i: int|
            0 <= i < a ==> spec_is_whitespace(#[trigger] s[i])) && (forall|i: int|
            b <= i < s.len() ==> spec_is_whitespace(#[trigger] s[i])) && (a < b ==> !spec_is_whitespace(
            s[a]) && !spec_is_whitespace(s[b - 1]))
}

pub fn trim(s: &str) -> (r: String)
    ensures
        spec_is_trim_of(s@, r@),
{
    let n = s.unicode_len();
    let mut a: usize = 0;
    while a < n && is_whitespace(s.get_char(a))
        invariant
            n == s@.len(),
            a <= n,
            forall|i: int| 0 <= i < a ==> spec_is_whitespace(#[trigger] s@[i]),
        decreases n - a,
    {
        a = a + 1;
    }
    let mut b: usize = n;
    while b > a && is_whitespace(s.get_char(b - 1))
        invariant
            n == s@.len(),
            a <= b <= n,
            forall|i: int| b <= i < n ==> spec_is_whitespace(#[trigger] s@[i]),
            a < n ==> !spec_is_whitespace(s@[a as int]),
        decreases b - a,
    {
        b = b - 1;
    }
    let r = to_string(s.substring_char(a, b));
    assert(a < b ==> !spec_is_whitespace(s@[a as int]) && !spec_is_whitespace(s@[b - 1]));
    r
}

} // verus!
