//! Reading the strings a plugin reports: C strings of bytes, and VST3 strings of UTF-16 code
//! units, each ending at its first zero.

use vstd::prelude::*;

verus! {

/// The text `String::from_utf8_lossy` reads out of bytes: UTF-8 decoded, with every invalid
/// sequence replaced by U+FFFD.
pub uninterp spec fn utf8_lossy(bytes: Seq<u8>) -> Seq<char>;

/// Whether a code unit is a surrogate, one half of a pair that encodes a character past U+FFFF.
pub open spec fn is_surrogate(unit: u16) -> bool {
    0xD800 <= unit <= 0xDFFF
}

/// Whether a code unit is the leading half of a surrogate pair.
pub open spec fn is_leading_surrogate(unit: u16) -> bool {
    0xD800 <= unit <= 0xDBFF
}

/// Whether a code unit is the trailing half of a surrogate pair.
pub open spec fn is_trailing_surrogate(unit: u16) -> bool {
    0xDC00 <= unit <= 0xDFFF
}

/// The character a surrogate pair encodes.
pub open spec fn pair_char(lead: u16, trail: u16) -> char {
    (0x10000 + (lead - 0xD800) * 0x400 + (trail - 0xDC00)) as char
}

/// The text `String::from_utf16_lossy` reads out of code units, as `char::decode_utf16`
/// documents it: a unit that is no surrogate is the character of that number, a leading
/// surrogate followed by a trailing one is the character the pair encodes, and any other
/// surrogate is replaced by U+FFFD, the unit after it being read afresh.
pub open spec fn utf16_lossy(units: Seq<u16>) -> Seq<char>
    decreases units.len(),
{
    if units.len() == 0 {
        Seq::empty()
    } else if !is_surrogate(units[0]) {
        seq![units[0] as char] + utf16_lossy(units.drop_first())
    } else if is_leading_surrogate(units[0]) && units.len() >= 2 && is_trailing_surrogate(units[1]) {
        seq![pair_char(units[0], units[1])] + utf16_lossy(units.subrange(2, units.len() as int))
    } else {
        seq!['\u{FFFD}'] + utf16_lossy(units.drop_first())
    }
}

/// `String::from_utf8_lossy`, whose result is named rather than spelt out.
#[verifier::external_body]
fn from_utf8_lossy(bytes: &[u8]) -> (text: String)
    ensures
        text@ == utf8_lossy(bytes@),
{
    String::from_utf8_lossy(bytes).into_owned()
}

/// `String::from_utf16_lossy`: UTF-16 decoded, unpaired surrogates replaced by U+FFFD.
#[verifier::external_body]
fn from_utf16_lossy(units: &[u16]) -> (text: String)
    ensures
        text@ == utf16_lossy(units@),
{
    String::from_utf16_lossy(units)
}

/// The length of a C string: the position of its first zero byte, or all of it.
pub open spec fn c_string_len(bytes: Seq<i8>) -> int
    decreases bytes.len(),
{
    if bytes.len() == 0 {
        0
    } else if bytes[0] == 0 {
        0
    } else {
        1 + c_string_len(bytes.drop_first())
    }
}

/// The length of a VST3 string: the position of its first zero code unit, or all of it.
pub open spec fn string128_len(units: Seq<u16>) -> int
    decreases units.len(),
{
    if units.len() == 0 {
        0
    } else if units[0] == 0 {
        0
    } else {
        1 + string128_len(units.drop_first())
    }
}

/// The bytes of a C string up to its terminating zero.
pub open spec fn c_string_bytes(bytes: Seq<i8>) -> Seq<u8> {
    bytes.take(c_string_len(bytes)).map_values(|b: i8| b as u8)
}

/// The text of a C string: its bytes up to the first zero, read as UTF-8.
pub fn read_c_string(bytes: &[i8]) -> (text: String)
    ensures
        text@ == utf8_lossy(c_string_bytes(bytes@)),
{
    let n = bytes.len();
    let mut utf8: Vec<u8> = Vec::new();
    let mut i: usize = 0;
    assert(bytes@.skip(0) =~= bytes@);
    while i < n
        invariant
            n == bytes@.len(),
            i <= n,
            forall|k: int| 0 <= k < i ==> #[trigger] bytes@[k] != 0,
            c_string_len(bytes@) == i + c_string_len(bytes@.skip(i as int)),
            utf8@ == bytes@.take(i as int).map_values(|b: i8| b as u8),
        ensures
            i <= n,
            c_string_len(bytes@) == i + c_string_len(bytes@.skip(i as int)),
            utf8@ == bytes@.take(i as int).map_values(|b: i8| b as u8),
            i < n ==> bytes@[i as int] == 0,
        decreases n - i,
    {
        let b = bytes[i];
        assert(bytes@.skip(i as int)[0] == b);
        if b == 0 {
            break;
        }
        assert(bytes@.skip(i as int).drop_first() =~= bytes@.skip(i + 1));
        utf8.push(b as u8);
        assert(bytes@.take(i + 1) =~= bytes@.take(i as int).push(b));
        assert(utf8@ =~= bytes@.take(i + 1).map_values(|b: i8| b as u8));
        i = i + 1;
    }
    assert(c_string_len(bytes@) == i as int) by {
        if i == n {
            assert(bytes@.skip(i as int).len() == 0);
        } else {
            assert(bytes@.skip(i as int)[0] == 0);
        }
    }
    from_utf8_lossy(utf8.as_slice())
}

/// The text of a VST3 string: its code units up to the first zero, read as UTF-16.
pub fn read_string128(string: &[u16; 128]) -> (text: String)
    ensures
        text@ == utf16_lossy(string@.take(string128_len(string@))),
{
    let n: usize = 128;
    let mut units: Vec<u16> = Vec::new();
    let mut i: usize = 0;
    assert(string@.skip(0) =~= string@);
    while i < n
        invariant
            n == string@.len(),
            i <= n,
            string128_len(string@) == i + string128_len(string@.skip(i as int)),
            units@ == string@.take(i as int),
        ensures
            i <= n,
            string128_len(string@) == i + string128_len(string@.skip(i as int)),
            units@ == string@.take(i as int),
            i < n ==> string@[i as int] == 0,
        decreases n - i,
    {
        let u = string[i];
        assert(string@.skip(i as int)[0] == u);
        if u == 0 {
            break;
        }
        assert(string@.skip(i as int).drop_first() =~= string@.skip(i + 1));
        units.push(u);
        assert(units@ =~= string@.take(i + 1));
        i = i + 1;
    }
    assert(string128_len(string@) == i as int) by {
        if i == n {
            assert(string@.skip(i as int).len() == 0);
        } else {
            assert(string@.skip(i as int)[0] == 0);
        }
    }
    from_utf16_lossy(units.as_slice())
}

} // verus!
