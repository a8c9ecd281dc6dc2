//! From the text recognised on one receipt to its product records.
//!
//! Each line is trimmed; noise is dropped; what is left is read by the cascade,
//! and a reading becomes a record if its price and its name pass.

use crate::cascade::{
    all_accepted, extraction, first_refused, product_of, standard_patterns, Cascade,
    PatternError, PatternView,
};
use crate::noise::{is_noise_line, standard_vocabulary, NoiseVocabulary, VocabularyView};
use crate::product::{products_view, Product, ProductView};
use crate::text::{chars_of, lines, rows_view, split_lines, string_from_chars, trim, trimmed};
use vstd::prelude::*;

verus! {

/// The record that one line yields, if any.
pub open spec fn line_product(
    patterns: Seq<PatternView>,
    vocabulary: VocabularyView,
    line: Seq<char>,
) -> Option<ProductView> {
    let cut = trimmed(line);
    if is_noise_line(cut, vocabulary) {
        None
    } else {
        match extraction(patterns, cut) {
            Some(m) => product_of(m.name, m.price),
            None => None,
        }
    }
}

/// The records that the lines yield, in the order of the lines.
pub open spec fn products_of_lines(
    patterns: Seq<PatternView>,
    vocabulary: VocabularyView,
    rows: Seq<Seq<char>>,
) -> Seq<ProductView>
    decreases rows.len(),
{
    if rows.len() == 0 {
        Seq::empty()
    } else {
        let before = products_of_lines(patterns, vocabulary, rows.drop_last());
        match line_product(patterns, vocabulary, rows.last()) {
            Some(p) => before.push(p),
            None => before,
        }
    }
}

/// The records that a text yields, line by line.
pub open spec fn products_of_text(
    patterns: Seq<PatternView>,
    vocabulary: VocabularyView,
    text: Seq<char>,
) -> Seq<ProductView> {
    products_of_lines(patterns, vocabulary, lines(text))
}

/// The price gate holds of every record of a text: each price is above nothing
/// and below one thousand units.
pub proof fn lemma_prices_in_range(
    patterns: Seq<PatternView>,
    vocabulary: VocabularyView,
    rows: Seq<Seq<char>>,
)
    ensures
        forall|i: int|
            0 <= i < products_of_lines(patterns, vocabulary, rows).len() ==> (
            #[trigger] products_of_lines(patterns, vocabulary, rows)[i]).price.plausible(),
    decreases rows.len(),
{
    if rows.len() > 0 {
        lemma_prices_in_range(patterns, vocabulary, rows.drop_last());
        let before = products_of_lines(patterns, vocabulary, rows.drop_last());
        assert(match line_product(patterns, vocabulary, rows.last()) {
            Some(p) => p.price.plausible() && products_of_lines(patterns, vocabulary, rows)
                == before.push(p),
            None => products_of_lines(patterns, vocabulary, rows) == before,
        });
    }
}

/// A cascade and a vocabulary, made once and used for every line.
pub struct ReceiptParser {
    pub cascade: Cascade,
    pub vocabulary: NoiseVocabulary,
}

impl ReceiptParser {
    /// The parser with the standard cascade and the standard vocabulary. It
    /// comes back exactly where the `regex` crate accepts every standard
    /// pattern; else the error names the first that it refuses.
    pub fn standard() -> (r: Result<ReceiptParser, PatternError>)
        ensures
            match r {
                Ok(parser) => parser.cascade.patterns() == standard_patterns()
                    && parser.vocabulary@ == standard_vocabulary() && all_accepted(
                    standard_patterns(),
                ),
                Err(e) => first_refused(standard_patterns(), e.index as int),
            },
    {
        match Cascade::standard() {
            Ok(cascade) => Ok(ReceiptParser { cascade, vocabulary: NoiseVocabulary::standard() }),
            Err(e) => Err(e),
        }
    }

    /// The record that one line yields, if any.
    pub fn parse_line(&self, line: &Vec<char>) -> (r: Option<Product>)
        ensures
            match r {
                Some(p) => line_product(self.cascade.patterns(), self.vocabulary@, line@) == Some(
                    p@,
                ),
                None => line_product(self.cascade.patterns(), self.vocabulary@, line@) is None,
            },
    {
        let cut = trim(line);
        let text = string_from_chars(&cut);
        if self.vocabulary.is_noise(text.as_str()) {
            return None;
        }
        match self.cascade.extract(text.as_str()) {
            Some(m) => m.to_product(),
            None => None,
        }
    }

    /// The records of a receipt's text, in the order of its lines.
    pub fn parse_text(&self, text: &str) -> (r: Vec<Product>)
        ensures
            products_view(r@) == products_of_text(
                self.cascade.patterns(),
                self.vocabulary@,
                text@,
            ),
            forall|i: int| 0 <= i < r.len() ==> (#[trigger] r@[i]).price.plausible(),
    {
        let chars = chars_of(text);
        let rows = split_lines(&chars);
        let ghost patterns = self.cascade.patterns();
        let ghost vocabulary = self.vocabulary@;
        let ghost all = rows_view(rows@);
        let mut out: Vec<Product> = Vec::new();
        let mut i: usize = 0;
        while i < rows.len()
            invariant
                i <= rows.len(),
                patterns == self.cascade.patterns(),
                vocabulary == self.vocabulary@,
                all == rows_view(rows@),
                products_view(out@) == products_of_lines(patterns, vocabulary, all.take(i as int)),
            decreases rows.len() - i,
        {
            proof {
                assert(all.take(i + 1).drop_last() =~= all.take(i as int));
            }
            match self.parse_line(&rows[i]) {
                Some(p) => {
                    out.push(p);
                },
                None => {},
            }
            i += 1;
        }
        proof {
            assert(all.take(rows.len() as int) =~= all);
            lemma_prices_in_range(patterns, vocabulary, all);
            assert forall|k: int| 0 <= k < out.len() implies (#[trigger] out@[k]).price.plausible() by {
                assert(products_view(out@)[k] == out@[k]@);
            }
        }
        out
    }
}

/// The records of a receipt's text under the standard cascade and vocabulary.
/// They come back exactly where the `regex` crate accepts every standard
/// pattern; else the error names the first that it refuses.
pub fn parse_receipt_text(text: &str) -> (r: Result<Vec<Product>, PatternError>)
    ensures
        match r {
            Ok(products) => all_accepted(standard_patterns()) && products_view(products@)
                == products_of_text(standard_patterns(), standard_vocabulary(), text@),
            Err(e) => first_refused(standard_patterns(), e.index as int),
        },
{
    match ReceiptParser::standard() {
        Ok(parser) => Ok(parser.parse_text(text)),
        Err(e) => Err(e),
    }
}

} // verus!
