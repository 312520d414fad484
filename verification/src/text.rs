//! Operations on text: case, search and path names, which are taken from the
//! standard library, and decimal digits.

use vstd::prelude::*;
use vstd::string::*;

verus! {

/// The upper-case form of a text under the Unicode case mapping.
pub uninterp spec fn unicode_upper(s: Seq<char>) -> Seq<char>;

/// The lower-case form of a text under the Unicode case mapping.
pub uninterp spec fn unicode_lower(s: Seq<char>) -> Seq<char>;

/// `needle` occurs in `hay` as a run of consecutive characters.
pub open spec fn is_substring(needle: Seq<char>, hay: Seq<char>) -> bool {
    exists|i: int|
        0 <= i && i + needle.len() <= hay.len() && #[trigger] hay.subrange(i, i + needle.len())
            == needle
}

/// The character of a decimal digit.
pub open spec fn digit_char(d: nat) -> char
    recommends
        d < 10,
{
    if d == 0 {
        '0'
    } else if d == 1 {
        '1'
    } else if d == 2 {
        '2'
    } else if d == 3 {
        '3'
    } else if d == 4 {
        '4'
    } else if d == 5 {
        '5'
    } else if d == 6 {
        '6'
    } else if d == 7 {
        '7'
    } else if d == 8 {
        '8'
    } else {
        '9'
    }
}

/// A number in decimal digits, without leading zeros.
pub open spec fn decimal_text(n: nat) -> Seq<char>
    decreases n,
{
    if n < 10 {
        seq![digit_char(n)]
    } else {
        decimal_text(n / 10).push(digit_char(n % 10))
    }
}

/// `str::to_uppercase`: the text in upper case.
#[verifier::external_body]
pub(crate) fn to_upper(s: &str) -> (r: String)
    ensures
        r@ == unicode_upper(s@),
{
    s.to_uppercase()
}

/// `str::to_lowercase`: the text in lower case.
#[verifier::external_body]
pub(crate) fn to_lower(s: &str) -> (r: String)
    ensures
        r@ == unicode_lower(s@),
{
    s.to_lowercase()
}

/// `str::contains` with a string pattern: whether the pattern matches a part of the text.
#[verifier::external_body]
pub(crate) fn str_contains(hay: &str, needle: &str) -> (r: bool)
    ensures
        r == is_substring(needle@, hay@),
{
    hay.contains(needle)
}

/// The last component of a path under the path syntax that the standard
/// library applies on the target; nothing where the path has none.
pub uninterp spec fn path_file_name(path: Seq<char>) -> Option<Seq<char>>;

/// `Path::file_name` on a path given as text, with the name given back as text.
#[verifier::external_body]
pub(crate) fn file_name(path: &str) -> (r: Option<&str>)
    ensures
        match r {
            Some(name) => path_file_name(path@) == Some(name@),
            None => path_file_name(path@) is None,
        },
{
    std::path::Path::new(path).file_name().and_then(|name| name.to_str())
}

/// `str::rsplit_once` at a dot: the text before the last dot and the text
/// after it, or nothing where the text has no dot.
#[verifier::external_body]
pub(crate) fn rsplit_once_dot(s: &str) -> (r: Option<(&str, &str)>)
    ensures
        match r {
            Some((stem, ext)) => s@ == stem@ + seq!['.'] + ext@ && !ext@.contains('.'),
            None => !s@.contains('.'),
        },
{
    s.rsplit_once('.')
}


/// A whole number in decimal digits, with a minus sign in front where it is negative.
pub open spec fn signed_decimal_text(n: int) -> Seq<char> {
    if n < 0 {
        seq!['-'] + decimal_text((-n) as nat)
    } else {
        decimal_text(n as nat)
    }
}

/// The text that the standard library reads from bytes when it puts the
/// replacement character in the place of what is not UTF-8.
pub uninterp spec fn utf8_lossy(bytes: Seq<u8>) -> Seq<char>;

/// `String::from_utf8_lossy`, made a `String`: the text of the bytes, which
/// is their own text where they are UTF-8.
#[verifier::external_body]
pub(crate) fn lossy_text(bytes: &[u8]) -> (r: String)
    ensures
        r@ == utf8_lossy(bytes@),
        vstd::utf8::valid_utf8(bytes@) ==> r@ == vstd::utf8::decode_utf8(bytes@),
{
    String::from_utf8_lossy(bytes).into_owned()
}

/// The text of a decimal digit.
fn digit_text(d: u8) -> (r: &'static str)
    requires
        d < 10,
    ensures
        r@ == seq![digit_char(d as nat)],
{
    proof {
        reveal_strlit("0");
        reveal_strlit("1");
        reveal_strlit("2");
        reveal_strlit("3");
        reveal_strlit("4");
        reveal_strlit("5");
        reveal_strlit("6");
        reveal_strlit("7");
        reveal_strlit("8");
        reveal_strlit("9");
    }
    let r = if d == 0 {
        "0"
    } else if d == 1 {
        "1"
    } else if d == 2 {
        "2"
    } else if d == 3 {
        "3"
    } else if d == 4 {
        "4"
    } else if d == 5 {
        "5"
    } else if d == 6 {
        "6"
    } else if d == 7 {
        "7"
    } else if d == 8 {
        "8"
    } else {
        "9"
    };
    assert(r@ =~= seq![digit_char(d as nat)]);
    r
}

/// A number in decimal digits.
pub fn u128_to_text(n: u128) -> (r: String)
    ensures
        r@ == decimal_text(n as nat),
    decreases n,
{
    if n < 10 {
        digit_text(n as u8).to_owned()
    } else {
        let mut r = u128_to_text(n / 10);
        r.append(digit_text((n % 10) as u8));
        assert(r@ =~= decimal_text((n / 10) as nat).push(digit_char((n % 10) as nat)));
        r
    }
}

/// A number in decimal digits.
pub fn u32_to_text(n: u32) -> (r: String)
    ensures
        r@ == decimal_text(n as nat),
{
    u128_to_text(n as u128)
}

/// A whole number in decimal digits, with a minus sign where it is negative.
pub fn i128_to_text(n: i128) -> (r: String)
    ensures
        r@ == signed_decimal_text(n as int),
{
    if n < 0 {
        // The magnitude of the least number is one beyond the greatest.
        let magnitude: u128 = ((-(n + 1)) as u128) + 1;
        let mut r = "-".to_owned();
        proof {
            reveal_strlit("-");
        }
        r.append(u128_to_text(magnitude).as_str());
        assert(r@ =~= seq!['-'] + decimal_text((-n) as nat));
        r
    } else {
        u128_to_text(n as u128)
    }
}

} // verus!
