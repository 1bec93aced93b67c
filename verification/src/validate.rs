//! Validation of hex color strings.

use vstd::prelude::*;

verus! {

/// Whether a character is an ASCII hexadecimal digit: `0-9`, `a-f` or `A-F`.
pub open spec fn is_hex_digit(c: char) -> bool {
    ||| 48 <= c as u32 <= 57  // '0' ..= '9'
    ||| 97 <= c as u32 <= 102  // 'a' ..= 'f'
    ||| 65 <= c as u32 <= 70  // 'A' ..= 'F'
}

/// The digits of a hex color string: everything after a leading `#`, or the
/// whole string when there is none.
pub open spec fn hex_body(s: Seq<char>) -> Seq<char> {
    if s.len() > 0 && s[0] as u32 == 35 {  // leading '#'
        s.skip(1)
    } else {
        s
    }
}

/// Whether a string names a color as six hex digits, with or without a
/// leading `#`.
pub open spec fn spec_valid_hex_color(s: Seq<char>) -> bool {
    hex_body(s).len() == 6 && (forall|i: int|
        0 <= i < hex_body(s).len() ==> is_hex_digit(#[trigger] hex_body(s)[i]))
}

/// Accepts exactly the strings of six hex digits, optionally prefixed `#`.
pub fn is_valid_hex_color(s: &str) -> (r: bool)
    ensures
        r == spec_valid_hex_color(s@),
{
    let n = s.unicode_len();
    let start: usize = if n > 0 && (s.get_char(0) as u32) == 35 {
        1
    } else {
        0
    };
    if n - start != 6 {
        return false;
    }
    let mut i: usize = 0;
    while i < 6
        invariant
            i <= 6,
            start + 6 == n,
            start == 0 || start == 1,
            n == s@.len(),
            start == 1 ==> s@.len() > 0 && s@[0] as u32 == 35,
            start == 0 ==> !(s@.len() > 0 && s@[0] as u32 == 35),
            forall|j: int| 0 <= j < i ==> is_hex_digit(#[trigger] hex_body(s@)[j]),
        decreases 6 - i,
    {
        let c = s.get_char(start + i) as u32;
        assert(hex_body(s@)[i as int] == s@[start + i as int]);
        if !((48 <= c && c <= 57) || (97 <= c && c <= 102) || (65 <= c && c <= 70)) {
            return false;
        }
        i = i + 1;
    }
    true
}

} // verus!
