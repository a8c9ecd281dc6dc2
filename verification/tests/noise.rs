use receipt_analyzer::noise::{is_noise, should_skip_line, NoiseVocabulary, MIN_LINE_CHARS};
use receipt_analyzer::text::chars_of;

#[test]
fn totals_taxes_and_bare_numbers_are_noise() {
    assert!(is_noise("Subtotal: 12.00"));
    assert!(is_noise("MwSt 19%"));
    assert!(is_noise("12345"));
}

#[test]
fn a_product_line_is_not_noise() {
    assert!(!is_noise("4x Gyros 8,90"));
    assert!(!should_skip_line("4x Gyros 8,90"));
}

#[test]
fn case_is_ignored() {
    assert!(should_skip_line("SUMME 3,69"));
    assert!(should_skip_line("summe 3,69"));
    assert!(should_skip_line("Vielen Dank"));
    assert!(should_skip_line("KARTENZAHLUNG Card"));
    assert!(should_skip_line("TOTAL"));
}

#[test]
fn every_term_marks_a_line() {
    for term in [
        "total", "subtotal", "summe", "netto", "brutto", "mwst", "tax", "steuer", "change",
        "wechselgeld", "receipt", "quittung", "rechnung", "datum", "date", "time", "uhrzeit",
        "tel:", "telefon", "adresse", "address", "vielen dank", "danke", "nr.", "nummer",
        "check:", "authorization", "approval", "payment", "card", "gratuity", "signature",
        "customer copy", "thanks", "inkl", "gegeben", "euro0", "eur0", "cust:", "albany",
        "street", "nyc", "food club", "%",
    ] {
        let line = format!("xx {} yy", term);
        assert!(should_skip_line(&line), "{}", line);
        let shouted = format!("xx {} yy", term.to_uppercase());
        assert!(should_skip_line(&shouted), "{}", shouted);
    }
}

#[test]
fn a_term_counts_inside_a_word() {
    assert!(should_skip_line("Taxi 12,00"));
    assert!(should_skip_line("Kartoffeltotal"));
}

#[test]
fn prefixes_count_at_the_beginning_only() {
    assert!(should_skip_line("#1234 Tisch"));
    assert!(should_skip_line("<<< Beleg"));
    assert!(should_skip_line("888 Kasse"));
    assert!(!should_skip_line("Tisch #1234"));
    assert!(!should_skip_line("Beleg <<<"));
    assert!(!should_skip_line("Kasse 888 x"));
}

#[test]
fn digits_and_white_space_alone_are_boilerplate() {
    assert!(should_skip_line("12345"));
    assert!(should_skip_line("12 345  6"));
    assert!(should_skip_line("١٢٣٤٥"));
    assert!(!should_skip_line("12,50"));
    assert!(!should_skip_line("12ab"));
    let vocabulary = NoiseVocabulary::standard();
    assert!(vocabulary.is_boilerplate("12345"));
    assert!(vocabulary.is_boilerplate("12 "));
    assert!(vocabulary.is_boilerplate(" \t "));
    assert!(vocabulary.is_boilerplate(""));
    assert!(vocabulary.is_boilerplate("١٢٣"));
    assert!(vocabulary.is_boilerplate("½ ²"));
    assert!(!vocabulary.is_boilerplate("12a"));
    assert!(!vocabulary.is_boilerplate("1,2"));
}

#[test]
fn short_lines_are_noise() {
    assert_eq!(MIN_LINE_CHARS, 4);
    assert!(is_noise(""));
    assert!(is_noise("a"));
    assert!(is_noise("abc"));
    assert!(is_noise("äöü"));
    assert!(!is_noise("abcd"));
    assert!(!is_noise("äöüß"));
    assert!(should_skip_line("Tee"));
    assert!(should_skip_line("abc"));
    assert!(should_skip_line("äöü"));
    assert!(!should_skip_line("abcd"));
    assert!(!should_skip_line("Tee 2,00"));
    let vocabulary = NoiseVocabulary::standard();
    assert!(!vocabulary.is_boilerplate("Tee"));
    assert!(!vocabulary.is_boilerplate("abc"));
    assert!(vocabulary.is_noise("Tee"));
}

#[test]
fn terms_can_be_added() {
    let mut vocabulary = NoiseVocabulary::standard();
    assert!(!vocabulary.is_boilerplate("Pfand 0,25"));
    vocabulary.add_term("pfand");
    assert!(vocabulary.is_boilerplate("Pfand 0,25"));
    assert!(vocabulary.is_boilerplate("Summe 3,69"));
    assert!(!vocabulary.is_boilerplate("Beleg 77"));
    vocabulary.add_prefix("beleg");
    assert!(vocabulary.is_boilerplate("Beleg 77"));
    assert!(!vocabulary.is_boilerplate("Mein Beleg"));
}

#[test]
fn the_empty_vocabulary_knows_bare_numbers_only() {
    let vocabulary = NoiseVocabulary::empty();
    assert!(!vocabulary.is_boilerplate("Summe 3,69"));
    assert!(!vocabulary.is_boilerplate("MwSt 19%"));
    assert!(vocabulary.is_boilerplate("12345"));
    assert!(vocabulary.is_noise("abc"));
    assert!(!vocabulary.is_noise("Summe 3,69"));
}

#[test]
fn the_standard_vocabulary_has_its_terms_and_prefixes() {
    let vocabulary = NoiseVocabulary::standard();
    assert_eq!(vocabulary.terms.len(), 44);
    assert_eq!(vocabulary.prefixes.len(), 3);
    assert_eq!(vocabulary.terms[0], chars_of("total"));
    assert_eq!(vocabulary.terms[43], chars_of("%"));
    assert_eq!(vocabulary.prefixes[1], chars_of("<<<"));
}

#[test]
fn classifying_goes_by_the_lower_case_form_given() {
    let vocabulary = NoiseVocabulary::standard();
    assert!(vocabulary.classify(&chars_of("SUMME"), &chars_of("summe")));
    assert!(!vocabulary.classify(&chars_of("SUMME"), &chars_of("SUMME")));
    assert!(vocabulary.classify(&chars_of("12 3"), &chars_of("anything")));
    assert!(!vocabulary.classify(&chars_of("Brot"), &chars_of("brot")));
}
