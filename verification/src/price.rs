//! Amounts of money, and the reading of a printed amount in either decimal
//! convention.
//!
//! An amount is a whole number of hundredths of the currency unit, so sums are
//! exact. A printed amount is a run of digits, optionally followed by a
//! separator and decimals; the separator is a dot or, in the European
//! convention, a comma. Decimals beyond the second have to be zeros, since an
//! amount holds no fraction of a hundredth.

use crate::digits::{
    all_digits, digit_value, digits_only, number_value, read_number, zeros_only,
};
use crate::text::{chars_of, lemma_run_len_is, run_len};
use vstd::prelude::*;

verus! {

/// An amount of money in hundredths of the currency unit.
#[derive(Clone, Copy, Debug, PartialEq, Eq, Structural)]
pub struct Price {
    pub cents: u64,
}

/// The text read is not an amount this library can hold.
#[derive(Clone, Copy, Debug, PartialEq, Eq, Structural)]
pub struct InvalidPrice {}

/// A price of one thousand units or more is taken for a misread total.
pub const PRICE_LIMIT_CENTS: u64 = 100_000;

/// `s` with a dot in place of every comma.
pub open spec fn with_dots(s: Seq<char>) -> Seq<char> {
    s.map_values(|c: char| if c == ',' { '.' } else { c })
}

/// The class of characters before the decimal point.
pub open spec fn non_dots() -> spec_fn(char) -> bool {
    |c: char| c != '.'
}

/// Whether the decimals `frac` write a whole number of hundredths: they are
/// digits, and every digit after the second is a zero.
pub open spec fn whole_hundredths(frac: Seq<char>) -> bool {
    all_digits(frac) && forall|i: int| 2 <= i < frac.len() ==> #[trigger] frac[i] == '0'
}

/// The hundredths that the first two decimals stand for.
pub open spec fn hundredths(frac: Seq<char>) -> nat {
    if frac.len() == 0 {
        0
    } else if frac.len() == 1 {
        digit_value(frac[0]) * 10
    } else {
        digit_value(frac[0]) * 10 + digit_value(frac[1])
    }
}

/// The amount, in hundredths, that the dot-decimal numeral `s` writes: digits,
/// then optionally a dot and decimals that write whole hundredths, with a digit
/// on at least one side of the dot. `None` for any other text.
pub open spec fn decimal_cents(s: Seq<char>) -> Option<nat> {
    let d = run_len(s, non_dots()) as int;
    if d >= s.len() {
        if s.len() > 0 && all_digits(s) {
            Some(number_value(s) * 100)
        } else {
            None
        }
    } else {
        let whole = s.take(d);
        let frac = s.skip(d + 1);
        if all_digits(whole) && whole_hundredths(frac) && whole.len() + frac.len() > 0 {
            Some(number_value(whole) * 100 + hundredths(frac))
        } else {
            None
        }
    }
}

/// The amount, in hundredths, that `text` writes in either convention: a comma
/// is read as the decimal point.
pub open spec fn price_cents(text: Seq<char>) -> Option<nat> {
    decimal_cents(with_dots(text))
}

/// What reading `text` as a price gives: the amount it writes, provided that
/// amount fits the machine word the library keeps it in.
pub open spec fn parsed_price(text: Seq<char>) -> Result<Price, InvalidPrice> {
    match price_cents(text) {
        Some(cents) => if cents <= u64::MAX {
            Ok(Price { cents: cents as u64 })
        } else {
            Err(InvalidPrice {  })
        },
        None => Err(InvalidPrice {  }),
    }
}

/// Reads a price printed with a decimal comma or a decimal dot.
///
/// Every comma is read as a dot. The text is then accepted if it is a run of
/// digits, optionally followed by a dot and decimals of which only the first
/// two may differ from zero, with a digit on at least one side of the dot, and
/// if the amount fits in 64 bits of hundredths. Anything else is an
/// `InvalidPrice`.
pub fn parse_european_price(price_str: &str) -> (r: Result<Price, InvalidPrice>)
    ensures
        r == parsed_price(price_str@),
{
    let raw = chars_of(price_str);
    let n: usize = raw.len();
    let mut v: Vec<char> = Vec::new();
    let mut k: usize = 0;
    while k < n
        invariant
            k <= n == raw.len(),
            v@ == with_dots(raw@).take(k as int),
        decreases n - k,
    {
        let c: char = raw[k];
        v.push(if c == ',' { '.' } else { c });
        k += 1;
    }
    proof {
        assert(with_dots(raw@).take(n as int) =~= with_dots(raw@));
    }
    let mut d: usize = 0;
    while d < n && v[d] != '.'
        invariant
            d <= n == v.len(),
            forall|i: int| 0 <= i < d ==> non_dots()(#[trigger] v@[i]),
        decreases n - d,
    {
        d += 1;
    }
    proof {
        lemma_run_len_is(v@, non_dots(), d as int);
    }
    if d == n {
        if n == 0 || !digits_only(&v, 0, n) {
            return Err(InvalidPrice {  });
        }
        match read_number(&v, 0, n) {
            Some(units) => {
                if units > u64::MAX / 100 {
                    Err(InvalidPrice {  })
                } else {
                    Ok(Price { cents: units * 100 })
                }
            },
            None => Err(InvalidPrice {  }),
        }
    } else {
        let frac_len: usize = n - d - 1;
        if !digits_only(&v, 0, d) || !digits_only(&v, d + 1, n) || d + frac_len == 0 {
            return Err(InvalidPrice {  });
        }
        let ghost frac = v@.skip(d + 1);
        proof {
            assert(v@.subrange(0, d as int) =~= v@.take(d as int));
            assert(v@.subrange(d + 1, n as int) =~= frac);
        }
        if frac_len > 2 && !zeros_only(&v, d + 3, n) {
            proof {
                let at = choose|i: int| d + 3 <= i < n && v@[i] != '0';
                assert(frac[at - d - 1] == v@[at]);
            }
            return Err(InvalidPrice {  });
        }
        proof {
            assert forall|i: int| 2 <= i < frac.len() implies #[trigger] frac[i] == '0' by {
                assert(frac[i] == v@[i + d + 1]);
            }
        }
        assert(whole_hundredths(frac));
        let part: u64 = if frac_len == 0 {
            0
        } else if frac_len == 1 {
            proof {
                assert(frac[0] == v@[d + 1]);
            }
            (v[d + 1] as u32 - '0' as u32) as u64 * 10
        } else {
            proof {
                assert(frac[0] == v@[d + 1]);
                assert(frac[1] == v@[d + 2]);
            }
            (v[d + 1] as u32 - '0' as u32) as u64 * 10 + (v[d + 2] as u32 - '0' as u32) as u64
        };
        match read_number(&v, 0, d) {
            Some(units) => {
                if units > (u64::MAX - part) / 100 {
                    Err(InvalidPrice {  })
                } else {
                    Ok(Price { cents: units * 100 + part })
                }
            },
            None => Err(InvalidPrice {  }),
        }
    }
}

impl Price {
    /// Whether the amount is in the range of a single item's price: more than
    /// nothing and less than one thousand units.
    pub open spec fn plausible(self) -> bool {
        0 < self.cents < PRICE_LIMIT_CENTS
    }

    /// Whether the amount is in the range of a single item's price.
    pub fn is_plausible(&self) -> (r: bool)
        ensures
            r == self.plausible(),
    {
        0 < self.cents && self.cents < PRICE_LIMIT_CENTS
    }
}

} // verus!
