//! Text helpers shared by the XML engine and the header grammars.

use vstd::prelude::*;
use vstd::string::StringSliceAdditionalSpecFns;
use vstd::utf8::{decode_utf8, encode_utf8_decode_utf8, valid_utf8};

verus! {

/// Whether two string slices hold the same text. They are compared byte
/// by byte: two texts have the same bytes exactly when they have the same
/// characters.
pub fn str_eq(a: &str, b: &str) -> (r: bool)
    ensures
        r == (a@ == b@),
{
    let x = a.as_bytes();
    let y = b.as_bytes();
    proof {
        encode_utf8_decode_utf8(a@);
        encode_utf8_decode_utf8(b@);
    }
    if x.len() != y.len() {
        return false;
    }
    let mut i: usize = 0;
    while i < x.len()
        invariant
            0 <= i <= x@.len(),
            x@.len() == y@.len(),
            x@ == a.spec_bytes(),
            y@ == b.spec_bytes(),
            forall|j: int| 0 <= j < i ==> x@[j] == y@[j],
        decreases x@.len() - i,
    {
        if x[i] != y[i] {
            return false;
        }
        i += 1;
    }
    assert(x@ =~= y@);
    true
}

/// The error that decoding `bytes` as UTF-8 gives, where they are not UTF-8.
pub uninterp spec fn utf8_error(bytes: Seq<u8>) -> std::str::Utf8Error;

/// Decodes a byte string as UTF-8.
///
/// Trusted: calls `std::str::from_utf8`, which checks that the bytes are
/// valid UTF-8 and then gives them back as a string slice, and otherwise
/// gives an error that depends on the bytes alone.
#[verifier::external_body]
pub(crate) fn str_from_utf8(bytes: &[u8]) -> (r: Result<&str, std::str::Utf8Error>)
    ensures
        match r {
            Ok(s) => valid_utf8(bytes@) && s@ == decode_utf8(bytes@),
            Err(e) => !valid_utf8(bytes@) && e == utf8_error(bytes@),
        },
{
    std::str::from_utf8(bytes)
}

/// The characters with the Unicode property `White_Space`.
pub open spec fn is_whitespace(c: char) -> bool {
    let n = c as u32;
    ||| 0x09 <= n <= 0x0D
    ||| n == 0x20
    ||| n == 0x85
    ||| n == 0xA0
    ||| n == 0x1680
    ||| 0x2000 <= n <= 0x200A
    ||| n == 0x2028
    ||| n == 0x2029
    ||| n == 0x202F
    ||| n == 0x205F
    ||| n == 0x3000
}

/// Whether a character is white space.
pub fn char_is_whitespace(c: char) -> (r: bool)
    ensures
        r == is_whitespace(c),
{
    let n = c as u32;
    (0x09 <= n && n <= 0x0D) || n == 0x20 || n == 0x85 || n == 0xA0 || n == 0x1680 || (0x2000 <= n
        && n <= 0x200A) || n == 0x2028 || n == 0x2029 || n == 0x202F || n == 0x205F || n == 0x3000
}

/// Every character of the text is white space.
pub open spec fn is_blank(text: Seq<char>) -> bool {
    forall|i: int| 0 <= i < text.len() ==> is_whitespace(#[trigger] text[i])
}

/// Whether a string consists of white space only.
pub fn str_is_blank(s: &str) -> (r: bool)
    ensures
        r == is_blank(s@),
{
    for c in it: s.chars()
        invariant
            forall|i: int| 0 <= i < it.index() ==> is_whitespace(#[trigger] s@[i]),
            it.seq() == s@,
    {
        if !char_is_whitespace(c) {
            assert(!is_whitespace(s@[it.index() as int]));
            return false;
        }
    }
    true
}

/// The characters of an optional string.
pub open spec fn opt_chars(s: Option<String>) -> Option<Seq<char>> {
    match s {
        Some(t) => Some(t@),
        None => None,
    }
}

/// The characters of an optional string slice.
pub open spec fn opt_str_chars(s: Option<&str>) -> Option<Seq<char>> {
    match s {
        Some(t) => Some(t@),
        None => None,
    }
}

/// Whether two optional strings hold the same text, or are both absent.
pub fn opt_string_eq(a: &Option<String>, b: &Option<String>) -> (r: bool)
    ensures
        r == (opt_chars(*a) == opt_chars(*b)),
{
    match (a, b) {
        (Some(x), Some(y)) => str_eq(x.as_str(), y.as_str()),
        (None, None) => true,
        _ => false,
    }
}

/// A copy of an optional string.
pub fn opt_string_clone(a: &Option<String>) -> (r: Option<String>)
    ensures
        opt_chars(r) == opt_chars(*a),
{
    match a {
        Some(x) => Some(x.clone()),
        None => None,
    }
}

/// Appends a character to a string.
///
/// Trusted: calls `String::push`, which appends the character to the end
/// of the string.
#[verifier::external_body]
pub(crate) fn push_char(s: &mut String, c: char)
    ensures
        final(s)@ == old(s)@.push(c),
{
    s.push(c)
}

/// Whether a character is one of the decimal digits `0` to `9`.
pub open spec fn is_digit(c: char) -> bool {
    0x30 <= c as u32 <= 0x39
}

/// The number that a decimal digit stands for.
pub open spec fn digit_value(c: char) -> nat {
    (c as u32 - 0x30) as nat
}

/// The decimal digit that stands for a number below ten.
pub open spec fn digit_char(d: nat) -> char {
    ((d + 0x30) as u8) as char
}

/// Whether every character is a decimal digit.
pub open spec fn all_digits(s: Seq<char>) -> bool {
    forall|i: int| 0 <= i < s.len() ==> is_digit(#[trigger] s[i])
}

/// The number that a sequence of decimal digits stands for.
pub open spec fn digits_value(s: Seq<char>) -> nat
    decreases s.len(),
{
    if s.len() == 0 {
        0
    } else {
        digits_value(s.drop_last()) * 10 + digit_value(s.last())
    }
}

/// A text without its leading plus sign, if it has one.
pub open spec fn unsigned_part(s: Seq<char>) -> Seq<char> {
    if s.len() > 0 && s[0] == '+' {
        s.drop_first()
    } else {
        s
    }
}

/// The number that a text stands for: an optional plus sign and then one
/// or more decimal digits, whose value is at most `max`. Any other text
/// stands for no number.
pub open spec fn parsed_decimal(s: Seq<char>, max: nat) -> Option<nat> {
    let digits = unsigned_part(s);
    if digits.len() > 0 && all_digits(digits) && digits_value(digits) <= max {
        Some(digits_value(digits))
    } else {
        None
    }
}

/// The decimal digits of a number, without leading zeros.
pub open spec fn decimal(n: nat) -> Seq<char>
    decreases n,
{
    if n < 10 {
        seq![digit_char(n)]
    } else {
        decimal(n / 10).push(digit_char(n % 10))
    }
}

/// The value of a prefix of digits is at most the value of all of them.
pub proof fn lemma_prefix_value(s: Seq<char>, k: int)
    requires
        0 <= k <= s.len(),
    ensures
        digits_value(s.take(k)) <= digits_value(s),
    decreases s.len() - k,
{
    if k == s.len() {
        assert(s.take(k) =~= s);
    } else {
        lemma_prefix_value(s.drop_last(), k);
        assert(s.drop_last().take(k) =~= s.take(k));
    }
}

/// The digits of a number are digits, at least one, and stand for the
/// number.
pub proof fn lemma_decimal(n: nat)
    ensures
        decimal(n).len() > 0,
        all_digits(decimal(n)),
        digits_value(decimal(n)) == n,
    decreases n,
{
    if n < 10 {
        assert(decimal(n).drop_last() =~= Seq::<char>::empty());
        assert(digits_value(decimal(n).drop_last()) == 0);
    } else {
        lemma_decimal(n / 10);
        assert(decimal(n).drop_last() =~= decimal(n / 10));
    }
}

/// Round trip: the digits of a number stand for that number.
pub proof fn lemma_decimal_round_trip(n: nat, max: nat)
    requires
        n <= max,
    ensures
        parsed_decimal(decimal(n), max) == Some(n),
{
    lemma_decimal(n);
    assert(is_digit(decimal(n)[0]));
}

/// Parses a number of at most `max`; see [`parsed_decimal`].
pub fn parse_decimal(s: &str, max: u64) -> (r: Option<u64>)
    ensures
        match parsed_decimal(s@, max as nat) {
            Some(n) => r == Some(n as u64),
            None => r.is_none(),
        },
{
    let ghost start: int = if s@.len() > 0 && s@[0] == '+' {
        1
    } else {
        0
    };
    let ghost digits = unsigned_part(s@);
    assert(digits =~= s@.subrange(start, s@.len() as int));
    let mut first = true;
    let mut any = false;
    let mut value: u64 = 0;
    for c in it: s.chars()
        invariant
            it.seq() == s@,
            digits == s@.subrange(start, s@.len() as int),
            digits == unsigned_part(s@),
            0 <= start <= 1,
            start <= s@.len(),
            start == 1 <==> (s@.len() > 0 && s@[0] == '+'),
            first <==> it.index() == 0,
            !first ==> it.index() >= start,
            first ==> value == 0 && !any,
            !first ==> all_digits(s@.subrange(start, it.index() as int)),
            !first ==> value == digits_value(s@.subrange(start, it.index() as int)),
            !first ==> any == (it.index() > start),
            value <= max,
    {
        let ghost at = it.index() as int;
        if first && c == '+' {
            first = false;
            assert(s@.subrange(start, at + 1) =~= Seq::<char>::empty());
        } else {
            let ghost seen = if first {
                Seq::<char>::empty()
            } else {
                s@.subrange(start, at)
            };
            assert(first ==> start == 0);
            assert(seen =~= s@.subrange(start, at));
            assert(seen =~= digits.take(at - start));
            first = false;
            let code = c as u32;
            if code < 0x30 || code > 0x39 {
                assert(!is_digit(digits[at - start]));
                return None;
            }
            let digit = (code - 0x30) as u64;
            let ghost next = s@.subrange(start, at + 1);
            assert(next.drop_last() =~= seen);
            assert(next =~= digits.take(at + 1 - start));
            assert(next.last() == c);
            assert(digits_value(seen) == value);
            assert(digit_value(c) == digit);
            assert(digits_value(next) == digits_value(next.drop_last()) * 10 + digit_value(
                next.last(),
            ));
            assert(digits_value(next) == value * 10 + digit);
            proof {
                lemma_prefix_value(digits, at + 1 - start);
            }
            assert(digits_value(digits.take(at + 1 - start)) == value * 10 + digit);
            if value > (u64::MAX - digit) / 10 {
                assert(value * 10 + digit > max);
                assert(digits_value(digits) > max);
                return None;
            }
            let grown = value * 10 + digit;
            if grown > max {
                assert(digits_value(digits) > max);
                return None;
            }
            value = grown;
            any = true;
            assert(all_digits(next)) by {
                assert forall|i: int| 0 <= i < next.len() implies is_digit(#[trigger] next[i]) by {
                    if i < seen.len() {
                        assert(next[i] == seen[i]);
                    }
                }
            }
        }
    }
    assert(first ==> s@.len() == 0);
    assert(!first ==> s@.subrange(start, s@.len() as int) =~= digits);
    if any {
        Some(value)
    } else {
        None
    }
}

/// The decimal digits of a number; see [`decimal`].
pub fn format_decimal(n: u64) -> (r: String)
    ensures
        r@ == decimal(n as nat),
    decreases n,
{
    if n < 10 {
        let mut r = String::new();
        push_char(&mut r, ((n as u8) + 0x30) as char);
        assert(r@ =~= seq![digit_char(n as nat)]);
        r
    } else {
        let mut r = format_decimal(n / 10);
        push_char(&mut r, (((n % 10) as u8) + 0x30) as char);
        r
    }
}

/// The characters of a string.
pub fn to_chars(s: &str) -> (chars: Vec<char>)
    ensures
        chars@ == s@,
{
    let mut chars: Vec<char> = Vec::new();
    for c in it: s.chars()
        invariant
            it.seq() == s@,
            chars@ == s@.take(it.index() as int),
    {
        chars.push(c);
        assert(s@.take(it.index() + 1) =~= s@.take(it.index() as int).push(c));
    }
    assert(s@.take(s@.len() as int) =~= s@);
    chars
}

/// The string made of the characters from `from` up to `to`.
pub fn from_chars(chars: &[char], from: usize, to: usize) -> (s: String)
    requires
        from <= to <= chars@.len(),
    ensures
        s@ == chars@.subrange(from as int, to as int),
{
    let mut s = String::new();
    let mut i = from;
    while i < to
        invariant
            from <= i <= to <= chars@.len(),
            s@ == chars@.subrange(from as int, i as int),
        decreases to - i,
    {
        push_char(&mut s, chars[i]);
        assert(chars@.subrange(from as int, i + 1) =~= chars@.subrange(from as int, i as int).push(
            chars@[i as int],
        ));
        i += 1;
    }
    s
}

/// Whether `i` is the first position from `from` on that holds `c`.
pub open spec fn found_at(s: Seq<char>, from: int, c: char, i: int) -> bool {
    &&& from <= i < s.len()
    &&& s[i] == c
    &&& forall|j: int| from <= j < i ==> s[j] != c
}

/// The first position from `from` on that holds `c`, or the length of the
/// text where there is none.
pub open spec fn find_from(s: Seq<char>, from: int, c: char) -> int {
    if exists|i: int| found_at(s, from, c, i) {
        choose|i: int| found_at(s, from, c, i)
    } else {
        s.len() as int
    }
}

/// The first position from `from` on that holds `c`; see [`find_from`].
pub fn find_char(chars: &[char], from: usize, c: char) -> (r: usize)
    requires
        from <= chars@.len(),
    ensures
        r == find_from(chars@, from as int, c),
        from <= r <= chars@.len(),
        r < chars@.len() ==> chars@[r as int] == c,
        forall|j: int| from <= j < r ==> chars@[j] != c,
{
    let mut i = from;
    while i < chars.len()
        invariant
            from <= i <= chars@.len(),
            forall|j: int| from <= j < i ==> chars@[j] != c,
        decreases chars@.len() - i,
    {
        if chars[i] == c {
            proof {
                lemma_found_at(chars@, from as int, c, i as int);
            }
            return i;
        }
        i += 1;
    }
    assert forall|k: int| !found_at(chars@, from as int, c, k) by {
        if from <= k < chars@.len() {
            assert(chars@[k] != c);
        }
    }
    i
}

/// The first position of a character is the one that `find_from` names.
pub proof fn lemma_found_at(s: Seq<char>, from: int, c: char, i: int)
    requires
        found_at(s, from, c, i),
    ensures
        find_from(s, from, c) == i,
{
    let k = choose|k: int| found_at(s, from, c, k);
    if k < i {
        assert(s[k] != c);
    }
    if i < k {
        assert(s[i] != c);
    }
}

} // verus!
