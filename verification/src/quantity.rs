//! The quantity that some receipt lines begin with.
//!
//! Recognition often gives a capital I or a small l where a 1 was printed; such
//! a quantity counts as one. The quantity helps to tell the patterns of a line
//! apart; it is no part of a product's record.

use crate::digits::{all_digits, digits_only, number_value, read_number};
use crate::text::{chars_of, str_to_lowercase, unicode_lowercase};
use vstd::prelude::*;

verus! {

/// The number that `s` writes as an unsigned decimal of 32 bits: an optional
/// plus sign, then at least one digit. `None` for any other text, and for a
/// number that does not fit.
pub open spec fn unsigned_value(s: Seq<char>) -> Option<nat> {
    let digits = if s.len() > 0 && s[0] == '+' {
        s.drop_first()
    } else {
        s
    };
    if digits.len() > 0 && all_digits(digits) && number_value(digits) <= u32::MAX {
        Some(number_value(digits))
    } else {
        None
    }
}

/// Whether a quantity, in lower case, is a misread 1: `i` or `l`, alone or
/// followed by the `x` of "times".
pub open spec fn is_misread_one(lower: Seq<char>) -> bool {
    lower == seq!['i', 'x'] || lower == seq!['l', 'x'] || lower == seq!['i'] || lower == seq!['l']
}

/// The quantity that `text` stands for, given its lower-case form: one for a
/// misread 1, the number written where there is one, and one otherwise.
pub open spec fn quantity_given(text: Seq<char>, lower: Seq<char>) -> nat {
    if is_misread_one(lower) {
        1
    } else {
        match unsigned_value(text) {
            Some(n) => n,
            None => 1,
        }
    }
}

/// The quantity that `text` stands for.
pub open spec fn quantity_of(text: Seq<char>) -> nat {
    quantity_given(text, unicode_lowercase(text))
}

/// Reads an unsigned decimal of 32 bits.
pub fn read_unsigned(text: &Vec<char>) -> (r: Option<u32>)
    ensures
        match r {
            Some(n) => unsigned_value(text@) == Some(n as nat),
            None => unsigned_value(text@) is None,
        },
{
    let n: usize = text.len();
    let from: usize = if n > 0 && text[0] == '+' {
        1
    } else {
        0
    };
    proof {
        assert(text@.subrange(0, n as int) =~= text@);
    }
    if from == n || !digits_only(text, from, n) {
        return None;
    }
    match read_number(text, from, n) {
        Some(value) => {
            if value > 0xffff_ffff {
                None
            } else {
                Some(value as u32)
            }
        },
        None => None,
    }
}

/// The quantity that a captured text stands for, from its characters and
/// those of its lower-case form.
pub fn read_quantity(text: &Vec<char>, lower: &Vec<char>) -> (r: u32)
    ensures
        r == quantity_given(text@, lower@),
{
    let m: usize = lower.len();
    let misread: bool = (m == 1 && (lower[0] == 'i' || lower[0] == 'l')) || (m == 2 && (lower[0]
        == 'i' || lower[0] == 'l') && lower[1] == 'x');
    proof {
        if misread {
            if m == 1 {
                assert(lower@ =~= seq![lower@[0]]);
            } else {
                assert(lower@ =~= seq![lower@[0], lower@[1]]);
            }
        }
    }
    if misread {
        1
    } else {
        match read_unsigned(text) {
            Some(n) => n,
            None => 1,
        }
    }
}

/// The quantity at the start of a line: a number, where a misread 1 and
/// anything that is no number count as one.
pub fn parse_quantity(qty_str: &str) -> (r: u32)
    ensures
        r == quantity_of(qty_str@),
{
    let lower_text = str_to_lowercase(qty_str);
    let lower = chars_of(lower_text.as_str());
    let text = chars_of(qty_str);
    read_quantity(&text, &lower)
}

} // verus!
