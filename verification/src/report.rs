//! What is handed to whoever shows the result: the grand total, the number of
//! distinct products, and amounts written out in decimal.

use crate::aggregate::{entries_view, sum_of_totals, AggregateEntry, EntryView};
use crate::digits::{all_digits, number_value};
use crate::price::{non_dots, price_cents, with_dots};
use crate::text::{lemma_run_len_is, string_from_chars};
use vstd::prelude::*;

verus! {

/// The figures below the table of products.
#[derive(Clone, Copy, Debug, PartialEq, Eq, Structural)]
pub struct Summary {
    /// The sum of all totals, in hundredths.
    pub grand_total: u128,
    /// The number of distinct products.
    pub product_count: usize,
}

/// The totals of the first entries add up to no more than the totals of all.
pub proof fn lemma_sum_of_first(entries: Seq<EntryView>, k: int)
    requires
        0 <= k <= entries.len(),
    ensures
        sum_of_totals(entries.take(k)) <= sum_of_totals(entries),
    decreases entries.len() - k,
{
    if k < entries.len() {
        lemma_sum_of_first(entries, k + 1);
        assert(entries.take(k + 1).drop_last() =~= entries.take(k));
    } else {
        assert(entries.take(k) =~= entries);
    }
}

/// The grand total and the number of products, or nothing where the grand total
/// does not fit in 128 bits.
pub fn summarize(entries: &Vec<AggregateEntry>) -> (r: Option<Summary>)
    ensures
        match r {
            Some(s) => s.grand_total == sum_of_totals(entries_view(entries@)) && s.product_count
                == entries.len(),
            None => sum_of_totals(entries_view(entries@)) > u128::MAX,
        },
{
    let ghost all = entries_view(entries@);
    let mut sum: u128 = 0;
    let mut i: usize = 0;
    while i < entries.len()
        invariant
            i <= entries.len(),
            all == entries_view(entries@),
            sum == sum_of_totals(all.take(i as int)),
        decreases entries.len() - i,
    {
        let amount: u128 = entries[i].total;
        proof {
            assert(all.take(i + 1).drop_last() =~= all.take(i as int));
        }
        if sum > u128::MAX - amount {
            proof {
                lemma_sum_of_first(all, i + 1);
            }
            return None;
        }
        sum = sum + amount;
        i += 1;
    }
    proof {
        assert(all.take(entries.len() as int) =~= all);
    }
    Some(Summary { grand_total: sum, product_count: entries.len() })
}

/// The character that writes the digit `d`.
pub open spec fn digit_char(d: nat) -> char {
    if d == 0 {
        '0'
    } else if d == 1 {
        '1'
    } else if d == 2 {
        '2'
    } else if d == 3 {
        '3'
    } else if d == 4 {
        '4'
    } else if d == 5 {
        '5'
    } else if d == 6 {
        '6'
    } else if d == 7 {
        '7'
    } else if d == 8 {
        '8'
    } else {
        '9'
    }
}

/// The decimal digits of `n`, without leading zeros.
pub open spec fn decimal_digits(n: nat) -> Seq<char>
    decreases n,
{
    if n < 10 {
        seq![digit_char(n)]
    } else {
        decimal_digits(n / 10).push(digit_char(n % 10))
    }
}

/// An amount of `cents` hundredths written out: the units, a dot, and two
/// digits.
pub open spec fn amount_text(cents: nat) -> Seq<char> {
    decimal_digits(cents / 100) + seq!['.', digit_char((cents / 10) % 10), digit_char(cents % 10)]
}

/// The character that writes the digit `d`.
fn digit_to_char(d: u8) -> (r: char)
    requires
        d < 10,
    ensures
        r == digit_char(d as nat),
{
    if d == 0 {
        '0'
    } else if d == 1 {
        '1'
    } else if d == 2 {
        '2'
    } else if d == 3 {
        '3'
    } else if d == 4 {
        '4'
    } else if d == 5 {
        '5'
    } else if d == 6 {
        '6'
    } else if d == 7 {
        '7'
    } else if d == 8 {
        '8'
    } else {
        '9'
    }
}

/// Appends the decimal digits of `n`.
fn push_decimal(out: &mut Vec<char>, n: u128)
    ensures
        final(out)@ == old(out)@ + decimal_digits(n as nat),
    decreases n,
{
    if n >= 10 {
        push_decimal(out, n / 10);
    }
    out.push(digit_to_char((n % 10) as u8));
}

/// Writes an amount of hundredths with a decimal dot and two decimals.
pub fn format_amount(cents: u128) -> (r: String)
    ensures
        r@ == amount_text(cents as nat),
{
    let mut out: Vec<char> = Vec::new();
    push_decimal(&mut out, cents / 100);
    out.push('.');
    out.push(digit_to_char(((cents / 10) % 10) as u8));
    out.push(digit_to_char((cents % 10) as u8));
    string_from_chars(&out)
}

/// The digits written for a number are digits, and write that number.
pub proof fn lemma_decimal_digits(n: nat)
    ensures
        decimal_digits(n).len() > 0,
        all_digits(decimal_digits(n)),
        number_value(decimal_digits(n)) == n,
    decreases n,
{
    let s = decimal_digits(n);
    if n < 10 {
        assert(number_value(s.drop_last()) == 0);
    } else {
        lemma_decimal_digits(n / 10);
        assert(s.drop_last() =~= decimal_digits(n / 10));
    }
}

/// An amount that is written out reads back as the same amount.
pub proof fn lemma_amount_round_trip(cents: nat)
    ensures
        price_cents(amount_text(cents)) == Some(cents),
{
    let whole = decimal_digits(cents / 100);
    let t = amount_text(cents);
    lemma_decimal_digits(cents / 100);
    assert(with_dots(t) =~= t);
    lemma_run_len_is(t, non_dots(), whole.len() as int);
    assert(t.take(whole.len() as int) =~= whole);
    assert(t.skip(whole.len() as int + 1) =~= seq![
        digit_char((cents / 10) % 10),
        digit_char(cents % 10),
    ]);
    reveal_with_fuel(number_value, 3);
}

} // verus!
