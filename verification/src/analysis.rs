//! The whole way from the texts of a batch of receipts to the ordered totals.

use crate::aggregate::{
    aggregate_products, aggregated, descending, entries_view, sorted_by_total, AggregateEntry,
    EntryView,
};
use crate::cascade::PatternView;
use crate::noise::VocabularyView;
use crate::product::{products_view, Product, ProductView};
use crate::receipt::{products_of_text, ReceiptParser};
use vstd::prelude::*;

verus! {

/// What a list of texts holds.
pub open spec fn texts_view(texts: Seq<String>) -> Seq<Seq<char>> {
    texts.map_values(|t: String| t@)
}

/// The records of all the texts, receipt after receipt.
pub open spec fn products_of_texts(
    patterns: Seq<PatternView>,
    vocabulary: VocabularyView,
    texts: Seq<Seq<char>>,
) -> Seq<ProductView>
    decreases texts.len(),
{
    if texts.len() == 0 {
        Seq::empty()
    } else {
        products_of_texts(patterns, vocabulary, texts.drop_last()) + products_of_text(
            patterns,
            vocabulary,
            texts.last(),
        )
    }
}

/// The ordered totals of a batch: the records of all texts, absorbed in their
/// order, then ordered by total.
pub open spec fn analysis(
    patterns: Seq<PatternView>,
    vocabulary: VocabularyView,
    texts: Seq<Seq<char>>,
) -> Seq<EntryView> {
    sorted_by_total(aggregated(products_of_texts(patterns, vocabulary, texts)))
}

/// Whether `outcome` is what a run over `texts` may return.
pub open spec fn is_outcome(
    patterns: Seq<PatternView>,
    vocabulary: VocabularyView,
    texts: Seq<Seq<char>>,
    outcome: Seq<EntryView>,
) -> bool {
    outcome == analysis(patterns, vocabulary, texts)
}

/// A run can be repeated: two runs over the same texts in the same order, with
/// the same patterns and vocabulary, return the same entries with the same
/// totals in the same order.
///
/// This rests on matching, scoring and letter case being functions of the texts
/// they are given, which is what naming their results claims.
pub proof fn lemma_runs_agree(
    patterns: Seq<PatternView>,
    vocabulary: VocabularyView,
    texts: Seq<Seq<char>>,
    first: Seq<EntryView>,
    second: Seq<EntryView>,
)
    requires
        is_outcome(patterns, vocabulary, texts, first),
        is_outcome(patterns, vocabulary, texts, second),
    ensures
        first == second,
{
}

impl ReceiptParser {
    /// The records of all the texts, receipt after receipt.
    pub fn parse_texts(&self, texts: &Vec<String>) -> (r: Vec<Product>)
        ensures
            products_view(r@) == products_of_texts(
                self.cascade.patterns(),
                self.vocabulary@,
                texts_view(texts@),
            ),
    {
        let ghost patterns = self.cascade.patterns();
        let ghost vocabulary = self.vocabulary@;
        let ghost all = texts_view(texts@);
        let mut out: Vec<Product> = Vec::new();
        let mut i: usize = 0;
        while i < texts.len()
            invariant
                i <= texts.len(),
                patterns == self.cascade.patterns(),
                vocabulary == self.vocabulary@,
                all == texts_view(texts@),
                products_view(out@) == products_of_texts(patterns, vocabulary, all.take(i as int)),
            decreases texts.len() - i,
        {
            let mut found = self.parse_text(texts[i].as_str());
            proof {
                assert(all.take(i + 1).drop_last() =~= all.take(i as int));
            }
            out.append(&mut found);
            i += 1;
        }
        proof {
            assert(all.take(texts.len() as int) =~= all);
        }
        out
    }

    /// Reads every text of a batch and folds the records, in their order, into
    /// totals per product, largest total first.
    pub fn analyze(&self, texts: &Vec<String>) -> (r: Vec<AggregateEntry>)
        ensures
            is_outcome(
                self.cascade.patterns(),
                self.vocabulary@,
                texts_view(texts@),
                entries_view(r@),
            ),
            descending(entries_view(r@)),
    {
        aggregate_products(self.parse_texts(texts))
    }
}

} // verus!
