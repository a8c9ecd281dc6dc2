use receipt_analyzer::aggregate::{aggregate_products, copy_entries, sort_by_total, AggregateEntry, Aggregator};
use receipt_analyzer::price::Price;
use receipt_analyzer::product::Product;
use receipt_analyzer::report::{summarize, Summary};
use receipt_analyzer::similarity::{effective_score, score, MAX_SCORED_CHARS, THRESHOLD};

fn product(name: &str, cents: u64) -> Product {
    Product { name: name.to_string(), price: Price { cents } }
}

fn entry(name: &str, total: u128) -> AggregateEntry {
    AggregateEntry { canonical_name: name.to_string(), total }
}

#[test]
fn a_near_miss_spelling_joins_its_product() {
    let mut state = Aggregator::new();
    state.absorb(product("cheeseburger", 119));
    state.absorb(product("cheesburger", 119));
    assert_eq!(state.snapshot(), vec![entry("cheeseburger", 238)]);
    state.absorb(product("fries", 250));
    assert_eq!(state.snapshot(), vec![entry("cheeseburger", 238), entry("fries", 250)]);
    assert_eq!(state.len(), 2);
    assert_eq!(state.grand_total(), 488);
}

#[test]
fn scores_of_the_examples() {
    assert_eq!(score("cheeseburger", "cheesburger"), Some(223));
    assert_eq!(score("cheeseburger", "fries"), None);
    assert_eq!(score("pommes frites", "pommes"), Some(131));
    assert_eq!(score("pommes", "pommes frites"), None);
    assert_eq!(score("tea", "tea"), Some(71));
    assert_eq!(score("", ""), Some(0));
    assert_eq!(score("abc", ""), Some(0));
    assert_eq!(score("", "a"), None);
}

#[test]
fn a_score_does_not_depend_on_earlier_calls() {
    let first = score("aab", "aab");
    for other in ["x", "aaaa bbbb", "Aab/aAb", "cheeseburger deluxe", ""] {
        let _ = score(other, "ab");
        let _ = score("a/b/c a.b.c", other);
        assert_eq!(score("aab", "aab"), first);
    }
    assert_eq!(first, Some(71));
}

#[test]
fn names_too_long_to_score_match_nothing() {
    let long = "a".repeat(MAX_SCORED_CHARS + 1);
    assert_eq!(score(&long, "a"), None);
    assert_eq!(score("a", &long), None);
    let fits = "a".repeat(MAX_SCORED_CHARS);
    assert!(score(&fits, "a").is_some());
}

#[test]
fn the_threshold_is_strict() {
    assert_eq!(THRESHOLD, 80);
    assert_eq!(effective_score(Some(80)), 80);
    assert_eq!(effective_score(Some(81)), 81);
    assert_eq!(effective_score(Some(79)), 80);
    assert_eq!(effective_score(Some(-5)), 80);
    assert_eq!(effective_score(None), 80);
    assert_eq!(effective_score(Some(223)), 223);
}

#[test]
fn a_score_at_or_below_the_threshold_opens_a_new_entry() {
    assert_eq!(score("x cola", "cola"), Some(83));
    assert_eq!(score("abcd", "abc"), Some(71));
    let mut state = Aggregator::new();
    state.absorb(product("abcd", 100));
    state.absorb(product("abc", 200));
    assert_eq!(state.snapshot(), vec![entry("abcd", 100), entry("abc", 200)]);
    state.absorb(product("x cola", 100));
    state.absorb(product("cola", 200));
    assert_eq!(state.snapshot(), vec![entry("abcd", 100), entry("abc", 200), entry("x cola", 300)]);
}

#[test]
fn the_highest_score_wins() {
    assert_eq!(score("coca cola", "cola"), Some(83));
    assert_eq!(score("cola light", "cola"), Some(91));
    let mut state = Aggregator::new();
    state.absorb(product("coca cola", 100));
    state.absorb(product("cola light", 200));
    state.absorb(product("cola", 50));
    assert_eq!(state.snapshot(), vec![entry("coca cola", 100), entry("cola light", 250)]);
    assert_eq!(state.find_best("cola"), Some(1));
}

#[test]
fn among_equal_scores_the_first_entry_wins() {
    assert_eq!(score("cola light", "cola"), Some(91));
    assert_eq!(score("cola zero", "cola"), Some(91));
    let mut state = Aggregator::new();
    state.absorb(product("cola light", 100));
    state.absorb(product("cola zero", 200));
    state.absorb(product("cola", 50));
    assert_eq!(state.snapshot(), vec![entry("cola light", 150), entry("cola zero", 200)]);
    let mut state = Aggregator::new();
    state.absorb(product("cola zero", 200));
    state.absorb(product("cola light", 100));
    state.absorb(product("cola", 50));
    assert_eq!(state.snapshot(), vec![entry("cola zero", 250), entry("cola light", 100)]);
}

#[test]
fn a_name_that_scores_low_against_itself_still_has_one_entry() {
    assert_eq!(score("tea", "tea"), Some(71));
    let mut state = Aggregator::new();
    state.absorb(product("tea", 100));
    state.absorb(product("tea", 200));
    state.absorb(product("ab", 5));
    state.absorb(product("ab", 6));
    assert_eq!(state.snapshot(), vec![entry("tea", 300), entry("ab", 11)]);
    assert_eq!(state.find_best("tea"), None);
    assert_eq!(state.find_key("tea"), Some(0));
    assert_eq!(state.find_key("ab"), Some(1));
    assert_eq!(state.find_key("te"), None);
}

#[test]
fn the_first_spelling_stays_the_key() {
    let mut state = Aggregator::new();
    state.absorb(product("cheesburger", 100));
    state.absorb(product("cheesburger", 100));
    assert_eq!(state.snapshot(), vec![entry("cheesburger", 200)]);
    assert_eq!(score("cheesburger", "cheeseburger"), None);
    state.absorb(product("cheeseburger", 100));
    assert_eq!(state.snapshot(), vec![entry("cheesburger", 200), entry("cheeseburger", 100)]);
}

#[test]
fn the_order_of_the_records_matters() {
    let one_way = aggregate_products(vec![product("pommes frites", 300), product("pommes", 250)]);
    assert_eq!(one_way, vec![entry("pommes frites", 550)]);
    let other_way = aggregate_products(vec![product("pommes", 250), product("pommes frites", 300)]);
    assert_eq!(other_way, vec![entry("pommes frites", 300), entry("pommes", 250)]);
}

#[test]
fn totals_add_up_to_the_prices() {
    let records = vec![
        product("cheeseburger", 119),
        product("pommes", 250),
        product("cheesburger", 119),
        product("tea", 100),
        product("pommes", 250),
        product("tea", 100),
        product("cola", 199),
    ];
    let sum: u128 = records.iter().map(|p| p.price.cents as u128).sum();
    let totals = aggregate_products(records);
    assert_eq!(totals, vec![entry("pommes", 500), entry("cheeseburger", 238), entry("tea", 200), entry("cola", 199)]);
    assert_eq!(totals.iter().map(|e| e.total).sum::<u128>(), sum);
    assert_eq!(summarize(&totals), Some(Summary { grand_total: sum, product_count: 4 }));
}

#[test]
fn the_largest_prices_add_up_without_loss() {
    let totals = aggregate_products(vec![product("gold", u64::MAX), product("gold", u64::MAX), product("gold", u64::MAX)]);
    assert_eq!(totals, vec![entry("gold", 3 * (u64::MAX as u128))]);
}

#[test]
fn no_records_give_no_entries() {
    assert_eq!(aggregate_products(Vec::new()), vec![]);
    let state = Aggregator::new();
    assert_eq!(state.len(), 0);
    assert_eq!(state.grand_total(), 0);
    assert_eq!(state.snapshot(), vec![]);
    assert_eq!(state.sorted(), vec![]);
    assert_eq!(state.find_best("x"), None);
    assert_eq!(state.find_key("x"), None);
}

#[test]
fn entries_are_ordered_by_total_largest_first() {
    let sorted = sort_by_total(&vec![entry("a", 1), entry("b", 3), entry("c", 2)]);
    assert_eq!(sorted, vec![entry("b", 3), entry("c", 2), entry("a", 1)]);
    assert_eq!(sort_by_total(&Vec::new()), vec![]);
    assert_eq!(sort_by_total(&vec![entry("a", 1)]), vec![entry("a", 1)]);
    let sorted = sort_by_total(&vec![entry("a", 1), entry("b", 2), entry("c", 3), entry("d", 4)]);
    assert_eq!(sorted, vec![entry("d", 4), entry("c", 3), entry("b", 2), entry("a", 1)]);
}

#[test]
fn equal_totals_keep_their_order() {
    let sorted = sort_by_total(&vec![entry("a", 2), entry("b", 5), entry("c", 2), entry("d", 5), entry("e", 2)]);
    assert_eq!(sorted, vec![entry("b", 5), entry("d", 5), entry("a", 2), entry("c", 2), entry("e", 2)]);
}

#[test]
fn ordering_leaves_the_entries_given_untouched() {
    let given = vec![entry("a", 1), entry("b", 3)];
    let sorted = sort_by_total(&given);
    assert_eq!(given, vec![entry("a", 1), entry("b", 3)]);
    assert_eq!(sorted, vec![entry("b", 3), entry("a", 1)]);
    let mut state = Aggregator::new();
    state.absorb(product("brot", 100));
    state.absorb(product("wasser", 300));
    assert_eq!(state.sorted(), vec![entry("wasser", 300), entry("brot", 100)]);
    assert_eq!(state.snapshot(), vec![entry("brot", 100), entry("wasser", 300)]);
    assert_eq!(copy_entries(&given), given);
}

#[test]
fn the_summary_counts_and_adds() {
    assert_eq!(summarize(&Vec::new()), Some(Summary { grand_total: 0, product_count: 0 }));
    assert_eq!(
        summarize(&vec![entry("a", 119), entry("b", 250)]),
        Some(Summary { grand_total: 369, product_count: 2 })
    );
    assert_eq!(
        summarize(&vec![entry("a", u128::MAX - 1), entry("b", 1)]),
        Some(Summary { grand_total: u128::MAX, product_count: 2 })
    );
    assert_eq!(summarize(&vec![entry("a", u128::MAX), entry("b", 1)]), None);
    assert_eq!(summarize(&vec![entry("a", u128::MAX), entry("b", 1), entry("c", 0)]), None);
}
