//! Hybrid logical clock stamps: `<13-digit milliseconds>-<4-digit counter>-<device>`.

use vstd::prelude::*;

use crate::text::chars_of;

verus! {

/// Whether a character is a decimal digit.
pub open spec fn is_digit_char(c: char) -> bool {
    '0' <= c && c <= '9'
}

/// Whether a text is a hybrid logical clock stamp.
pub open spec fn is_timestamp(s: Seq<char>) -> bool {
    &&& s.len() > 19
    &&& forall|i: int| 0 <= i < 13 ==> is_digit_char(#[trigger] s[i])
    &&& s[13] == '-'
    &&& forall|i: int| 14 <= i < 18 ==> is_digit_char(#[trigger] s[i])
    &&& s[18] == '-'
}

fn all_digits(chars: &Vec<char>, from: usize, to: usize) -> (yes: bool)
    requires
        from <= to <= chars.len(),
    ensures
        yes == forall|i: int| from <= i < to ==> is_digit_char(#[trigger] chars@[i]),
{
    let mut i: usize = from;
    while i < to
        invariant
            from <= i <= to <= chars.len(),
            forall|j: int| from <= j < i ==> is_digit_char(#[trigger] chars@[j]),
        decreases to - i,
    {
        let c: char = chars[i];
        if !('0' <= c && c <= '9') {
            assert(!is_digit_char(chars@[i as int]));
            return false;
        }
        i = i + 1;
    }
    true
}

/// Whether `text` is a hybrid logical clock stamp.
pub fn timestamp_is_well_formed(text: &str) -> (yes: bool)
    ensures
        yes == is_timestamp(text@),
{
    let chars: Vec<char> = chars_of(text);
    if chars.len() <= 19 {
        return false;
    }
    all_digits(&chars, 0, 13) && chars[13] == '-' && all_digits(&chars, 14, 18) && chars[18] == '-'
}

} // verus!
