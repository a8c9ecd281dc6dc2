//! The cascade: an ordered list of line patterns, from the most specific to the
//! loosest. A line is read by the first pattern that matches it, and by no
//! other.
//!
//! Each pattern is a regular expression with a group for the product's name, a
//! group for its price and, in some, a group for the quantity. Matching is the
//! `regex` crate's; what it finds is named here, and everything that is done
//! with what it finds is proved.

use crate::name::{clean_product_name, normalized};
use crate::price::{parse_european_price, parsed_price};
use crate::product::{Product, ProductView};
use crate::quantity::{parse_quantity, quantity_of};
use crate::text::{chars_of, is_numeral, is_numeral_char, trim, trimmed};
use vstd::prelude::*;

verus! {

/// `regex::Regex`, a compiled regular expression, as an opaque value.
#[verifier::external_type_specification]
#[verifier::external_body]
pub struct ExRegex(regex::Regex);

/// `regex::Error`, the reason why a pattern was refused, as an opaque value.
#[verifier::external_type_specification]
#[verifier::external_body]
pub struct ExRegexError(regex::Error);

/// Whether `Regex::new` accepts the pattern text: whether it is a regular
/// expression in the crate's syntax that compiles within the crate's default
/// size limit.
pub uninterp spec fn regex_accepts(pattern: Seq<char>) -> bool;

/// The pattern text from which `Regex::new` made a compiled expression: what
/// `Regex::as_str` returns for it.
pub uninterp spec fn regex_source(re: regex::Regex) -> Seq<char>;

/// What `Regex::captures` finds when the expression that `Regex::new` makes of
/// `pattern` is searched for in `haystack`: `None` where nothing matches; else,
/// for the leftmost match, one entry for each group of the expression in the
/// order of their opening parentheses, group 0 being the whole match, each with
/// the text it matched if it took part.
pub uninterp spec fn regex_captures(pattern: Seq<char>, haystack: Seq<char>) -> Option<
    Seq<Option<Seq<char>>>,
>;

/// Calls `Regex::new`. Nothing is proved of it: whether an expression comes
/// back is the named decision of the crate on this pattern text, and an
/// expression that comes back was made from this pattern text. This is the
/// only place where expressions are made, so none has a builder's options set.
#[verifier::external_body]
fn compile_regex(pattern: &str) -> (r: Result<regex::Regex, regex::Error>)
    ensures
        r is Ok == regex_accepts(pattern@),
        r matches Ok(re) ==> regex_source(re) == pattern@,
{
    regex::Regex::new(pattern)
}

/// Calls `Regex::captures` on an expression made by `compile_regex`, and copies
/// out the text of each group. Nothing is proved of it: the result is the named
/// outcome of searching the expression's pattern in `haystack`.
#[verifier::external_body]
fn regex_groups(re: &regex::Regex, haystack: &str) -> (r: Option<Vec<Option<String>>>)
    ensures
        r.deep_view() == regex_captures(regex_source(*re), haystack@),
{
    re.captures(haystack).map(|found| found.iter().map(|g| g.map(|m| m.as_str().to_string())).collect())
}

/// One pattern of a cascade: what it is for, its regular expression, and the
/// numbers of the groups that hold the quantity, the name and the price.
#[derive(Clone, Copy, Debug)]
pub struct PatternDef {
    pub purpose: &'static str,
    pub source: &'static str,
    pub quantity_group: Option<usize>,
    pub name_group: usize,
    pub price_group: usize,
}

/// What a pattern definition holds.
pub struct PatternView {
    pub purpose: Seq<char>,
    pub source: Seq<char>,
    pub quantity_group: Option<int>,
    pub name_group: int,
    pub price_group: int,
}

impl View for PatternDef {
    type V = PatternView;

    open spec fn view(&self) -> PatternView {
        PatternView {
            purpose: self.purpose@,
            source: self.source@,
            quantity_group: match self.quantity_group {
                Some(q) => Some(q as int),
                None => None,
            },
            name_group: self.name_group as int,
            price_group: self.price_group as int,
        }
    }
}

/// What a list of pattern definitions holds.
pub open spec fn patterns_view(defs: Seq<PatternDef>) -> Seq<PatternView> {
    defs.map_values(|d: PatternDef| d@)
}

/// A quantity, a name that may run over several words, the word "a" and a unit
/// price where they are printed, and the line's total, which is the price.
pub open spec fn quantity_and_total() -> PatternView {
    PatternView {
        purpose: "quantity, name, unit price if any, total"@,
        source: r"(\d+|[IilL])x?\s+([A-Za-zÄÖÜäöüß][A-Za-zÄÖÜäöüß0-9\s\-.]{2,40}?)\s+(?:a\s+)?(?:\d+[,.]\d{2}\s+)?(\d+[,.]\d{2})"@,
        quantity_group: Some(1),
        name_group: 2,
        price_group: 3,
    }
}

/// A quantity, a name in capitals, a euro sign and the price.
pub open spec fn quantity_and_euro_price() -> PatternView {
    PatternView {
        purpose: "quantity, name in capitals, euro sign and price"@,
        source: r"(\d+)°?\s+([A-Z][A-Z0-9\s\-.]{2,30})\s+€(\d+[,.]?\d{2})"@,
        quantity_group: Some(1),
        name_group: 2,
        price_group: 3,
    }
}

/// A name in capitals, a euro sign and the price.
pub open spec fn name_and_euro_price() -> PatternView {
    PatternView {
        purpose: "name in capitals, euro sign and price"@,
        source: r"([A-Z][A-Z0-9\s\-.]{2,30})\s+€(\d+[,.]?\d{2})"@,
        quantity_group: None,
        name_group: 1,
        price_group: 2,
    }
}

/// A quantity, a name that may carry an asterisk, and the price.
pub open spec fn quantity_and_price() -> PatternView {
    PatternView {
        purpose: "quantity, name and price"@,
        source: r"(\d+|[IilL])x?\s+([A-Za-zÄÖÜäöüß][A-Za-zÄÖÜäöüß0-9\s\-.*]{2,30})\s+(\d+[,.]\d{2})"@,
        quantity_group: Some(1),
        name_group: 2,
        price_group: 3,
    }
}

/// The last resort: a name and a price.
pub open spec fn name_and_price() -> PatternView {
    PatternView {
        purpose: "name and price"@,
        source: r"([A-Za-zÄÖÜäöüß][A-Za-zÄÖÜäöüß0-9\s\-.]{2,30})\s+(\d+[,.]\d{2})"@,
        quantity_group: None,
        name_group: 1,
        price_group: 2,
    }
}

/// The standard cascade, most specific pattern first.
pub open spec fn standard_patterns() -> Seq<PatternView> {
    seq![
        quantity_and_total(),
        quantity_and_euro_price(),
        name_and_euro_price(),
        quantity_and_price(),
        name_and_price(),
    ]
}

/// The definitions of the standard cascade.
pub fn standard_pattern_defs() -> (r: Vec<PatternDef>)
    ensures
        patterns_view(r@) == standard_patterns(),
{
    let defs: Vec<PatternDef> = vec![
        PatternDef {
            purpose: "quantity, name, unit price if any, total",
            source: r"(\d+|[IilL])x?\s+([A-Za-zÄÖÜäöüß][A-Za-zÄÖÜäöüß0-9\s\-.]{2,40}?)\s+(?:a\s+)?(?:\d+[,.]\d{2}\s+)?(\d+[,.]\d{2})",
            quantity_group: Some(1),
            name_group: 2,
            price_group: 3,
        },
        PatternDef {
            purpose: "quantity, name in capitals, euro sign and price",
            source: r"(\d+)°?\s+([A-Z][A-Z0-9\s\-.]{2,30})\s+€(\d+[,.]?\d{2})",
            quantity_group: Some(1),
            name_group: 2,
            price_group: 3,
        },
        PatternDef {
            purpose: "name in capitals, euro sign and price",
            source: r"([A-Z][A-Z0-9\s\-.]{2,30})\s+€(\d+[,.]?\d{2})",
            quantity_group: None,
            name_group: 1,
            price_group: 2,
        },
        PatternDef {
            purpose: "quantity, name and price",
            source: r"(\d+|[IilL])x?\s+([A-Za-zÄÖÜäöüß][A-Za-zÄÖÜäöüß0-9\s\-.*]{2,30})\s+(\d+[,.]\d{2})",
            quantity_group: Some(1),
            name_group: 2,
            price_group: 3,
        },
        PatternDef {
            purpose: "name and price",
            source: r"([A-Za-zÄÖÜäöüß][A-Za-zÄÖÜäöüß0-9\s\-.]{2,30})\s+(\d+[,.]\d{2})",
            quantity_group: None,
            name_group: 1,
            price_group: 2,
        },
    ];
    defs
}

/// What a pattern read from a line.
#[derive(Debug, PartialEq, Eq)]
pub struct LineMatch {
    /// The place in the cascade of the pattern that matched.
    pub pattern: usize,
    /// The quantity, where the pattern has a group for it.
    pub quantity: Option<u32>,
    /// The name as printed.
    pub name: String,
    /// The price as printed.
    pub price: String,
}

/// What a line match holds.
pub struct LineMatchView {
    pub pattern: int,
    pub quantity: Option<nat>,
    pub name: Seq<char>,
    pub price: Seq<char>,
}

impl View for LineMatch {
    type V = LineMatchView;

    open spec fn view(&self) -> LineMatchView {
        LineMatchView {
            pattern: self.pattern as int,
            quantity: match self.quantity {
                Some(q) => Some(q as nat),
                None => None,
            },
            name: self.name@,
            price: self.price@,
        }
    }
}

/// The text of group `g` of a match, if the expression has such a group and it
/// took part in the match.
pub open spec fn group_text(groups: Seq<Option<Seq<char>>>, g: int) -> Option<Seq<char>> {
    if 0 <= g < groups.len() {
        groups[g]
    } else {
        None
    }
}

/// What the pattern at place `index` reads from the groups of its match:
/// nothing unless the name, the price and, where the pattern has one, the
/// quantity all took part.
pub open spec fn reading(pattern: PatternView, index: int, groups: Seq<Option<Seq<char>>>)
    -> Option<LineMatchView> {
    match (group_text(groups, pattern.name_group), group_text(groups, pattern.price_group)) {
        (Some(name), Some(price)) => match pattern.quantity_group {
            Some(q) => match group_text(groups, q) {
                Some(text) => Some(
                    LineMatchView { pattern: index, quantity: Some(quantity_of(text)), name, price },
                ),
                None => None,
            },
            None => Some(LineMatchView { pattern: index, quantity: None, name, price }),
        },
        _ => None,
    }
}

/// What the patterns from place `from` on read from `line`: the reading of
/// the first of them that matches.
pub open spec fn extraction_from(patterns: Seq<PatternView>, line: Seq<char>, from: int)
    -> Option<LineMatchView>
    decreases patterns.len() - from,
{
    if from < 0 || from >= patterns.len() {
        None
    } else {
        match regex_captures(patterns[from].source, line) {
            Some(groups) => reading(patterns[from], from, groups),
            None => extraction_from(patterns, line, from + 1),
        }
    }
}

/// What a cascade reads from `line`.
pub open spec fn extraction(patterns: Seq<PatternView>, line: Seq<char>) -> Option<LineMatchView> {
    extraction_from(patterns, line, 0)
}

/// Precedence: where a pattern matches a line and none before it does, the line
/// is read by that pattern, whatever the patterns after it would find.
pub proof fn lemma_first_match_wins(patterns: Seq<PatternView>, line: Seq<char>, k: int)
    requires
        0 <= k < patterns.len(),
        regex_captures(patterns[k].source, line) is Some,
        forall|j: int| 0 <= j < k ==> regex_captures(#[trigger] patterns[j].source, line) is None,
    ensures
        extraction(patterns, line) == reading(
            patterns[k],
            k,
            regex_captures(patterns[k].source, line).unwrap(),
        ),
{
    lemma_skip_unmatched(patterns, line, 0, k);
}

/// Patterns that do not match are passed over.
proof fn lemma_skip_unmatched(patterns: Seq<PatternView>, line: Seq<char>, from: int, k: int)
    requires
        0 <= from <= k < patterns.len(),
        forall|j: int| from <= j < k ==> regex_captures(#[trigger] patterns[j].source, line) is None,
    ensures
        extraction_from(patterns, line, from) == extraction_from(patterns, line, k),
    decreases k - from,
{
    if from < k {
        lemma_skip_unmatched(patterns, line, from + 1, k);
    }
}

/// Precedence, read the other way: a reading names a pattern that matches the
/// line, and no pattern before it does.
pub proof fn lemma_reading_is_of_first_match(patterns: Seq<PatternView>, line: Seq<char>)
    ensures
        extraction(patterns, line) matches Some(m) ==> {
            &&& 0 <= m.pattern < patterns.len()
            &&& regex_captures(patterns[m.pattern].source, line) matches Some(groups)
            &&& Some(m) == reading(patterns[m.pattern], m.pattern, groups)
            &&& forall|j: int|
                0 <= j < m.pattern ==> regex_captures(#[trigger] patterns[j].source, line) is None
        },
{
    lemma_reading_from(patterns, line, 0);
}

/// A reading by the patterns from `from` on is that of the first of them that
/// matches.
proof fn lemma_reading_from(patterns: Seq<PatternView>, line: Seq<char>, from: int)
    requires
        0 <= from,
    ensures
        extraction_from(patterns, line, from) matches Some(m) ==> {
            &&& from <= m.pattern < patterns.len()
            &&& regex_captures(patterns[m.pattern].source, line) matches Some(groups)
            &&& Some(m) == reading(patterns[m.pattern], m.pattern, groups)
            &&& forall|j: int|
                from <= j < m.pattern ==> regex_captures(#[trigger] patterns[j].source, line) is None
        },
    decreases patterns.len() - from,
{
    if from < patterns.len() {
        if regex_captures(patterns[from].source, line) is None {
            lemma_reading_from(patterns, line, from + 1);
        }
    }
}

/// The place, in its list, of the first pattern that the `regex` crate refused
/// to compile.
#[derive(Clone, Copy, Debug, PartialEq, Eq, Structural)]
pub struct PatternError {
    pub index: usize,
}

/// Whether the `regex` crate accepts every one of the patterns.
pub open spec fn all_accepted(patterns: Seq<PatternView>) -> bool {
    forall|k: int| 0 <= k < patterns.len() ==> regex_accepts(#[trigger] patterns[k].source)
}

/// Whether the pattern at place `index` is the first that the `regex` crate
/// refuses.
pub open spec fn first_refused(patterns: Seq<PatternView>, index: int) -> bool {
    &&& 0 <= index < patterns.len()
    &&& !regex_accepts(patterns[index].source)
    &&& forall|k: int| 0 <= k < index ==> regex_accepts(#[trigger] patterns[k].source)
}

/// A pattern with the expression compiled from its text.
pub struct Rule {
    def: PatternDef,
    regex: regex::Regex,
}

impl Rule {
    #[verifier::type_invariant]
    spec fn compiled_from_definition(&self) -> bool {
        regex_source(self.regex) == self.def.source@
    }

    /// The pattern of the rule.
    pub closed spec fn pattern(&self) -> PatternView {
        self.def@
    }
}

/// A compiled cascade.
pub struct Cascade {
    rules: Vec<Rule>,
}

/// Reads the groups of a match as the pattern `def`, which stands at place
/// `index`, assigns them.
pub fn read_groups(def: &PatternDef, index: usize, groups: &Vec<Option<String>>) -> (r: Option<
    LineMatch,
>)
    ensures
        match r {
            Some(m) => reading(def@, index as int, groups.deep_view()) == Some(m@),
            None => reading(def@, index as int, groups.deep_view()) is None,
        },
{
    if def.name_group >= groups.len() || def.price_group >= groups.len() {
        return None;
    }
    let name: String = match &groups[def.name_group] {
        Some(text) => text.clone(),
        None => {
            return None;
        },
    };
    let price: String = match &groups[def.price_group] {
        Some(text) => text.clone(),
        None => {
            return None;
        },
    };
    match def.quantity_group {
        Some(q) => {
            if q >= groups.len() {
                return None;
            }
            match &groups[q] {
                Some(text) => {
                    let quantity: u32 = parse_quantity(text.as_str());
                    Some(LineMatch { pattern: index, quantity: Some(quantity), name, price })
                },
                None => None,
            }
        },
        None => Some(LineMatch { pattern: index, quantity: None, name, price }),
    }
}

impl Cascade {
    /// The patterns of the cascade, in the order in which they are tried.
    pub closed spec fn patterns(&self) -> Seq<PatternView> {
        self.rules@.map_values(|r: Rule| r.pattern())
    }

    /// Compiles the patterns in the order given. The cascade comes back exactly
    /// where the `regex` crate accepts every pattern; else the error names the
    /// first pattern that it refuses.
    pub fn compile(defs: Vec<PatternDef>) -> (r: Result<Cascade, PatternError>)
        ensures
            match r {
                Ok(cascade) => cascade.patterns() == patterns_view(defs@) && all_accepted(
                    patterns_view(defs@),
                ),
                Err(e) => first_refused(patterns_view(defs@), e.index as int),
            },
    {
        let mut rules: Vec<Rule> = Vec::new();
        let mut i: usize = 0;
        while i < defs.len()
            invariant
                i <= defs.len(),
                rules.len() == i,
                forall|k: int| 0 <= k < i ==> (#[trigger] rules@[k]).pattern() == defs@[k]@,
                forall|k: int| 0 <= k < i ==> regex_accepts(#[trigger] patterns_view(defs@)[k].source),
            decreases defs.len() - i,
        {
            let def: PatternDef = defs[i];
            match compile_regex(def.source) {
                Ok(regex) => {
                    rules.push(Rule { def, regex });
                },
                Err(_) => {
                    return Err(PatternError { index: i });
                },
            }
            i += 1;
        }
        let cascade = Cascade { rules };
        Ok(cascade)
    }

    /// Compiles the standard cascade. It comes back exactly where the `regex`
    /// crate accepts all of its patterns.
    pub fn standard() -> (r: Result<Cascade, PatternError>)
        ensures
            match r {
                Ok(cascade) => cascade.patterns() == standard_patterns() && all_accepted(
                    standard_patterns(),
                ),
                Err(e) => first_refused(standard_patterns(), e.index as int),
            },
    {
        Cascade::compile(standard_pattern_defs())
    }

    /// The number of patterns.
    pub fn len(&self) -> (r: usize)
        ensures
            r == self.patterns().len(),
    {
        self.rules.len()
    }

    /// Reads a line by the first pattern that matches it. Patterns after that one
    /// are not tried, even where the reading comes to nothing.
    pub fn extract(&self, line: &str) -> (r: Option<LineMatch>)
        ensures
            match r {
                Some(m) => extraction(self.patterns(), line@) == Some(m@),
                None => extraction(self.patterns(), line@) is None,
            },
    {
        let mut i: usize = 0;
        while i < self.rules.len()
            invariant
                i <= self.rules.len(),
                extraction(self.patterns(), line@) == extraction_from(
                    self.patterns(),
                    line@,
                    i as int,
                ),
            decreases self.rules.len() - i,
        {
            let rule: &Rule = &self.rules[i];
            proof {
                use_type_invariant(rule);
            }
            match regex_groups(&rule.regex, line) {
                Some(groups) => {
                    return read_groups(&rule.def, i, &groups);
                },
                None => {},
            }
            i += 1;
        }
        None
    }
}

/// Whether `name` is made of digits, dots, commas and hyphens alone.
pub open spec fn only_digits_and_marks(name: Seq<char>) -> bool {
    forall|i: int|
        0 <= i < name.len() ==> is_numeral(#[trigger] name[i]) || name[i] == '.' || name[i]
            == ',' || name[i] == '-'
}

/// Whether a name as printed can be a product's: trimmed, it has at least three
/// characters, and not only digits and punctuation.
pub open spec fn is_product_name(name: Seq<char>) -> bool {
    trimmed(name).len() >= 3 && !only_digits_and_marks(trimmed(name))
}

/// The record that a name and a price as printed make: none unless the price
/// reads as an amount above nothing and below one thousand units and the name
/// can be a product's; else the name in its canonical spelling with that
/// amount.
pub open spec fn product_of(name: Seq<char>, price: Seq<char>) -> Option<ProductView> {
    match parsed_price(price) {
        Ok(amount) => if amount.plausible() && is_product_name(name) {
            Some(ProductView { name: normalized(name), price: amount })
        } else {
            None
        },
        Err(_) => None,
    }
}

/// Whether a name as printed can be a product's.
pub fn check_product_name(name: &str) -> (r: bool)
    ensures
        r == is_product_name(name@),
{
    let chars = chars_of(name);
    let cut = trim(&chars);
    if cut.len() < 3 {
        return false;
    }
    let mut i: usize = 0;
    while i < cut.len()
        invariant
            i <= cut.len(),
            cut.len() >= 3,
            cut@ == trimmed(name@),
            forall|j: int|
                0 <= j < i ==> is_numeral(#[trigger] cut@[j]) || cut@[j] == '.' || cut@[j]
                    == ',' || cut@[j] == '-',
        decreases cut.len() - i,
    {
        let c: char = cut[i];
        if !(is_numeral_char(c) || c == '.' || c == ',' || c == '-') {
            return true;
        }
        i += 1;
    }
    false
}

impl LineMatch {
    /// The record that the match makes, if its price and its name pass.
    pub fn to_product(&self) -> (r: Option<Product>)
        ensures
            match r {
                Some(p) => product_of(self.name@, self.price@) == Some(p@),
                None => product_of(self.name@, self.price@) is None,
            },
    {
        match parse_european_price(self.price.as_str()) {
            Ok(amount) => {
                if amount.is_plausible() && check_product_name(self.name.as_str()) {
                    Some(Product { name: clean_product_name(self.name.as_str()), price: amount })
                } else {
                    None
                }
            },
            Err(_) => None,
        }
    }
}

/// No record has a price of nothing, or of one thousand units or more.
pub proof fn lemma_product_price_in_range(name: Seq<char>, price: Seq<char>)
    ensures
        product_of(name, price) matches Some(p) ==> 0 < p.price.cents < 100_000,
{
}

} // verus!
