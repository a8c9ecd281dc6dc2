use receipt_analyzer::cascade::{Cascade, PatternDef};
use receipt_analyzer::noise::NoiseVocabulary;
use receipt_analyzer::price::Price;
use receipt_analyzer::product::Product;
use receipt_analyzer::receipt::{parse_receipt_text, ReceiptParser};
use receipt_analyzer::text::{chars_of, split_lines};

fn product(name: &str, cents: u64) -> Product {
    Product { name: name.to_string(), price: Price { cents } }
}

#[test]
fn a_receipt_yields_its_product_lines() {
    let products = parse_receipt_text("1x Cheeseburger* 1,19\n2x Pommes 2,50\nSumme 3,69\n").unwrap();
    assert_eq!(products, vec![product("cheeseburger", 119), product("pommes", 250)]);
}

#[test]
fn prices_out_of_range_yield_nothing() {
    assert_eq!(parse_receipt_text("1x Wasser 0,00").unwrap(), vec![]);
    assert_eq!(parse_receipt_text("1x Laptop 1500,00").unwrap(), vec![]);
    assert_eq!(parse_receipt_text("1x Laptop 1000,00").unwrap(), vec![]);
    assert_eq!(
        parse_receipt_text("1x Wasser 0,01\n1x Laptop 999,99").unwrap(),
        vec![product("wasser", 1), product("laptop", 99_999)]
    );
}

#[test]
fn every_record_has_a_price_in_range() {
    let text = "1x Wasser 0,00\n2x Bier 7,00\n1x Laptop 1500,00\nBrot 2,50\nGold 1000,00\nTee 999,99";
    let products = parse_receipt_text(text).unwrap();
    assert_eq!(products.len(), 3);
    for p in products.iter() {
        assert!(0 < p.price.cents && p.price.cents < 100_000);
    }
}

#[test]
fn an_empty_text_yields_nothing() {
    assert_eq!(parse_receipt_text("").unwrap(), vec![]);
    assert_eq!(parse_receipt_text("\n\n  \n").unwrap(), vec![]);
}

#[test]
fn lines_are_trimmed_first() {
    let products =
        parse_receipt_text("   2x Pommes 2,50   \r\n\t#1x Bier 3,00\n1x Bier 3,00 #\n \t ab \n").unwrap();
    assert_eq!(products, vec![product("pommes", 250), product("bier", 300)]);
}

#[test]
fn noise_is_dropped_though_it_looks_like_a_product() {
    assert_eq!(parse_receipt_text("Subtotal 12,00\nMwSt 19% 2,28\nTotal 14,28").unwrap(), vec![]);
    assert_eq!(parse_receipt_text("Taxi 12,00").unwrap(), vec![]);
}

#[test]
fn records_come_in_the_order_of_the_lines() {
    let products = parse_receipt_text("Brot 2,50\nGuten Appetit\n1 COLA €3.00\n4x Gyros 8,90").unwrap();
    assert_eq!(products, vec![product("brot", 250), product("cola", 300), product("gyros", 890)]);
}

#[test]
fn a_line_read_by_an_early_pattern_is_not_read_again() {
    let products = parse_receipt_text("1x A     1,19").unwrap();
    assert_eq!(products, vec![]);
}

#[test]
fn a_parser_can_be_made_of_other_parts() {
    let cascade = Cascade::compile(vec![PatternDef {
        purpose: "name, colon, price",
        source: r"^(\w+): (\d+[,.]\d{2})$",
        quantity_group: None,
        name_group: 1,
        price_group: 2,
    }])
    .unwrap();
    let mut vocabulary = NoiseVocabulary::empty();
    vocabulary.add_term("pfand");
    let parser = ReceiptParser { cascade, vocabulary };
    let products = parser.parse_text("Summe: 3,69\nPfand: 0,25\nBrot 2,50\nBrot: 2,50");
    assert_eq!(products, vec![product("summe", 369), product("brot", 250)]);
    assert_eq!(parser.parse_line(&chars_of("  Brot: 2,50  ")), Some(product("brot", 250)));
    assert_eq!(parser.parse_line(&chars_of("Pfand: 0,25")), None);
    assert_eq!(parser.parse_line(&chars_of("1: 2,50")), None);
}

#[test]
fn lines_end_at_line_feeds() {
    let rows = split_lines(&chars_of("a\nb\r\nc\rd\n\ne"));
    assert_eq!(rows, vec![chars_of("a"), chars_of("b"), chars_of("c\rd"), chars_of(""), chars_of("e")]);
    assert_eq!(split_lines(&chars_of("")), Vec::<Vec<char>>::new());
    assert_eq!(split_lines(&chars_of("\n")), vec![chars_of("")]);
    assert_eq!(split_lines(&chars_of("a\n")), vec![chars_of("a")]);
    assert_eq!(split_lines(&chars_of("a\r")), vec![chars_of("a\r")]);
    assert_eq!(split_lines(&chars_of("\r\n\r\n")), vec![chars_of(""), chars_of("")]);
    assert_eq!(split_lines(&chars_of("a\r\r\n")), vec![chars_of("a\r")]);
}

#[test]
fn lines_are_split_as_the_standard_library_splits_them() {
    for text in ["", "\n", "a", "a\n", "a\nb", "a\r\nb\r\n", "a\r", "\r", "\r\n", "a\n\nb\n\n", "a\r\r\n", "x\ny\rz\n\r\n"] {
        let expected: Vec<Vec<char>> = text.lines().map(|l| l.chars().collect()).collect();
        assert_eq!(split_lines(&chars_of(text)), expected, "{:?}", text);
    }
}
