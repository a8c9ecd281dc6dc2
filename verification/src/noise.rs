//! Telling receipt boilerplate from product lines.
//!
//! A line is boilerplate if, in lower case, it holds one of the vocabulary's
//! terms or begins with one of its prefixes, or if it is made of digits and
//! white space alone. A line is noise if it is boilerplate or has fewer than
//! `MIN_LINE_CHARS` characters. The vocabulary is data: terms can be added
//! without any change to the matching.

use crate::text::{
    chars_of, contains, has_substring, is_numeral, is_numeral_char, is_space, is_space_char,
    occurs_at, rows_view, starts_with, str_to_lowercase, unicode_lowercase,
};
use vstd::prelude::*;

verus! {

/// A line with fewer characters than this is noise whatever it holds.
pub const MIN_LINE_CHARS: usize = 4;

/// The terms and prefixes that mark a line as boilerplate, all in lower case.
pub struct NoiseVocabulary {
    pub terms: Vec<Vec<char>>,
    pub prefixes: Vec<Vec<char>>,
}

/// What a vocabulary holds.
pub struct VocabularyView {
    pub terms: Seq<Seq<char>>,
    pub prefixes: Seq<Seq<char>>,
}

impl View for NoiseVocabulary {
    type V = VocabularyView;

    open spec fn view(&self) -> VocabularyView {
        VocabularyView { terms: rows_view(self.terms@), prefixes: rows_view(self.prefixes@) }
    }
}

/// The terms of the standard vocabulary: labels of totals, taxes, change,
/// headers and footers, payment and signature lines, in German and English,
/// and the percent sign.
pub open spec fn standard_terms() -> Seq<Seq<char>> {
    seq![
        "total"@,
        "subtotal"@,
        "summe"@,
        "netto"@,
        "brutto"@,
        "mwst"@,
        "tax"@,
        "steuer"@,
        "change"@,
        "wechselgeld"@,
        "receipt"@,
        "quittung"@,
        "rechnung"@,
        "datum"@,
        "date"@,
        "time"@,
        "uhrzeit"@,
        "tel:"@,
        "telefon"@,
        "adresse"@,
        "address"@,
        "vielen dank"@,
        "danke"@,
        "nr."@,
        "nummer"@,
        "check:"@,
        "authorization"@,
        "approval"@,
        "payment"@,
        "card"@,
        "gratuity"@,
        "signature"@,
        "customer copy"@,
        "thanks"@,
        "inkl"@,
        "gegeben"@,
        "euro0"@,
        "eur0"@,
        "cust:"@,
        "albany"@,
        "street"@,
        "nyc"@,
        "food club"@,
        "%"@,
    ]
}

/// The prefixes of the standard vocabulary.
pub open spec fn standard_prefixes() -> Seq<Seq<char>> {
    seq!["#"@, "<<<"@, "888"@]
}

/// What the standard vocabulary holds.
pub open spec fn standard_vocabulary() -> VocabularyView {
    VocabularyView { terms: standard_terms(), prefixes: standard_prefixes() }
}

/// Whether `line` holds one of `terms`.
pub open spec fn mentions(line: Seq<char>, terms: Seq<Seq<char>>) -> bool {
    exists|k: int| 0 <= k < terms.len() && has_substring(line, #[trigger] terms[k])
}

/// Whether `line` begins with one of `prefixes`.
pub open spec fn begins_with(line: Seq<char>, prefixes: Seq<Seq<char>>) -> bool {
    exists|k: int| 0 <= k < prefixes.len() && occurs_at(line, #[trigger] prefixes[k], 0)
}

/// Whether `line` is made of digits and white space alone.
pub open spec fn only_digits_and_spaces(line: Seq<char>) -> bool {
    forall|i: int| 0 <= i < line.len() ==> is_numeral(#[trigger] line[i]) || is_space(line[i])
}

/// Whether a line is boilerplate, given the line and its lower-case form.
pub open spec fn boilerplate_given(line: Seq<char>, lower: Seq<char>, vocabulary: VocabularyView)
    -> bool {
    mentions(lower, vocabulary.terms) || begins_with(lower, vocabulary.prefixes)
        || only_digits_and_spaces(line)
}

/// Whether `line` is boilerplate under `vocabulary`: matching ignores case.
pub open spec fn is_boilerplate(line: Seq<char>, vocabulary: VocabularyView) -> bool {
    boilerplate_given(line, unicode_lowercase(line), vocabulary)
}

/// Whether `line` is noise under `vocabulary`: too short to hold a product
/// and a price, or boilerplate.
pub open spec fn is_noise_line(line: Seq<char>, vocabulary: VocabularyView) -> bool {
    line.len() < MIN_LINE_CHARS || is_boilerplate(line, vocabulary)
}

/// A line of fewer than `MIN_LINE_CHARS` characters is noise under every
/// vocabulary.
pub proof fn lemma_short_line_is_noise(line: Seq<char>, vocabulary: VocabularyView)
    requires
        line.len() < MIN_LINE_CHARS,
    ensures
        is_noise_line(line, vocabulary),
{
}

/// A line made of decimal digits and blanks alone is noise under every
/// vocabulary.
pub proof fn lemma_bare_number_is_noise(line: Seq<char>, vocabulary: VocabularyView)
    requires
        forall|i: int| 0 <= i < line.len() ==> ('0' <= #[trigger] line[i] <= '9') || line[i] == ' ',
    ensures
        is_noise_line(line, vocabulary),
{
    assert(only_digits_and_spaces(line));
}

/// The character rows of a list of words.
fn rows_of(list: &Vec<&'static str>) -> (r: Vec<Vec<char>>)
    ensures
        r.len() == list.len(),
        forall|k: int| 0 <= k < list.len() ==> (#[trigger] r@[k])@ == list@[k]@,
{
    let mut out: Vec<Vec<char>> = Vec::new();
    let mut k: usize = 0;
    while k < list.len()
        invariant
            k <= list.len(),
            out.len() == k,
            forall|j: int| 0 <= j < k ==> (#[trigger] out@[j])@ == list@[j]@,
        decreases list.len() - k,
    {
        out.push(chars_of(list[k]));
        k += 1;
    }
    out
}

impl NoiseVocabulary {
    /// A vocabulary without terms: only lines of digits and white space are
    /// boilerplate under it.
    pub fn empty() -> (r: NoiseVocabulary)
        ensures
            r@.terms.len() == 0,
            r@.prefixes.len() == 0,
    {
        NoiseVocabulary { terms: Vec::new(), prefixes: Vec::new() }
    }

    /// The standard vocabulary.
    pub fn standard() -> (r: NoiseVocabulary)
        ensures
            r@ == standard_vocabulary(),
    {
        let terms: Vec<&'static str> = vec![
            "total",
            "subtotal",
            "summe",
            "netto",
            "brutto",
            "mwst",
            "tax",
            "steuer",
            "change",
            "wechselgeld",
            "receipt",
            "quittung",
            "rechnung",
            "datum",
            "date",
            "time",
            "uhrzeit",
            "tel:",
            "telefon",
            "adresse",
            "address",
            "vielen dank",
            "danke",
            "nr.",
            "nummer",
            "check:",
            "authorization",
            "approval",
            "payment",
            "card",
            "gratuity",
            "signature",
            "customer copy",
            "thanks",
            "inkl",
            "gegeben",
            "euro0",
            "eur0",
            "cust:",
            "albany",
            "street",
            "nyc",
            "food club",
            "%",
        ];
        let prefixes: Vec<&'static str> = vec!["#", "<<<", "888"];
        let r = NoiseVocabulary { terms: rows_of(&terms), prefixes: rows_of(&prefixes) };
        proof {
            assert(r@.terms =~= standard_terms());
            assert(r@.prefixes =~= standard_prefixes());
        }
        r
    }

    /// Adds a term: a line whose lower-case form holds `term` is boilerplate
    /// from now on. The term is taken as given, so it should be in lower case.
    pub fn add_term(&mut self, term: &str)
        ensures
            final(self)@.terms == old(self)@.terms.push(term@),
            final(self)@.prefixes == old(self)@.prefixes,
    {
        let row = chars_of(term);
        self.terms.push(row);
    }

    /// Adds a prefix: a line whose lower-case form begins with `prefix` is
    /// boilerplate from now on.
    pub fn add_prefix(&mut self, prefix: &str)
        ensures
            final(self)@.prefixes == old(self)@.prefixes.push(prefix@),
            final(self)@.terms == old(self)@.terms,
    {
        let row = chars_of(prefix);
        self.prefixes.push(row);
    }

    /// Decides on a line from its characters and those of its lower-case form.
    pub fn classify(&self, line: &Vec<char>, lower: &Vec<char>) -> (r: bool)
        ensures
            r == boilerplate_given(line@, lower@, self@),
    {
        let mut k: usize = 0;
        while k < self.terms.len()
            invariant
                k <= self.terms.len(),
                forall|j: int| 0 <= j < k ==> !has_substring(lower@, #[trigger] self@.terms[j]),
            decreases self.terms.len() - k,
        {
            if contains(lower, &self.terms[k]) {
                proof {
                    assert(has_substring(lower@, self@.terms[k as int]));
                }
                return true;
            }
            k += 1;
        }
        let mut p: usize = 0;
        while p < self.prefixes.len()
            invariant
                p <= self.prefixes.len(),
                !mentions(lower@, self@.terms),
                forall|j: int| 0 <= j < p ==> !occurs_at(lower@, #[trigger] self@.prefixes[j], 0),
            decreases self.prefixes.len() - p,
        {
            if starts_with(lower, &self.prefixes[p]) {
                proof {
                    assert(occurs_at(lower@, self@.prefixes[p as int], 0));
                }
                return true;
            }
            p += 1;
        }
        let mut i: usize = 0;
        while i < line.len()
            invariant
                i <= line.len(),
                !mentions(lower@, self@.terms),
                !begins_with(lower@, self@.prefixes),
                forall|j: int|
                    0 <= j < i ==> is_numeral(#[trigger] line@[j]) || is_space(line@[j]),
            decreases line.len() - i,
        {
            let c: char = line[i];
            if !(is_numeral_char(c) || is_space_char(c)) {
                return false;
            }
            i += 1;
        }
        true
    }

    /// Whether the line is receipt boilerplate under this vocabulary.
    pub fn is_boilerplate(&self, line: &str) -> (r: bool)
        ensures
            r == is_boilerplate(line@, self@),
    {
        let lower_text = str_to_lowercase(line);
        let lower = chars_of(lower_text.as_str());
        let chars = chars_of(line);
        self.classify(&chars, &lower)
    }

    /// Whether the line is noise under this vocabulary: shorter than
    /// `MIN_LINE_CHARS` characters, or boilerplate.
    pub fn is_noise(&self, line: &str) -> (r: bool)
        ensures
            r == is_noise_line(line@, self@),
    {
        line.unicode_len() < MIN_LINE_CHARS || self.is_boilerplate(line)
    }
}

/// Whether the line is to be skipped as noise under the standard vocabulary:
/// a line of fewer than `MIN_LINE_CHARS` characters, a total, a tax, a date, an
/// address, payment details, a bare number.
pub fn should_skip_line(line: &str) -> (r: bool)
    ensures
        r == is_noise_line(line@, standard_vocabulary()),
{
    NoiseVocabulary::standard().is_noise(line)
}

/// Whether the line is noise under the standard vocabulary.
pub fn is_noise(line: &str) -> (r: bool)
    ensures
        r == is_noise_line(line@, standard_vocabulary()),
{
    should_skip_line(line)
}

} // verus!
