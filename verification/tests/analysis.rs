use receipt_analyzer::aggregate::{aggregate_products, AggregateEntry};
use receipt_analyzer::intake::{contrast_level, extension_is_listed, is_image_extension};
use receipt_analyzer::price::Price;
use receipt_analyzer::product::Product;
use receipt_analyzer::receipt::{parse_receipt_text, ReceiptParser};
use receipt_analyzer::report::{format_amount, summarize, Summary};

fn entry(name: &str, total: u128) -> AggregateEntry {
    AggregateEntry { canonical_name: name.to_string(), total }
}

#[test]
fn from_text_to_totals() {
    let text = "1x Cheeseburger* 1,19\n2x Pommes 2,50\nSumme 3,69\n";
    let products = parse_receipt_text(text).unwrap();
    assert_eq!(
        products,
        vec![
            Product { name: "cheeseburger".to_string(), price: Price { cents: 119 } },
            Product { name: "pommes".to_string(), price: Price { cents: 250 } },
        ]
    );
    let totals = aggregate_products(products);
    assert_eq!(totals, vec![entry("pommes", 250), entry("cheeseburger", 119)]);
    let summary = summarize(&totals).unwrap();
    assert_eq!(summary, Summary { grand_total: 369, product_count: 2 });
    assert_eq!(format_amount(summary.grand_total), "3.69");
}

#[test]
fn a_batch_of_receipts() {
    let parser = ReceiptParser::standard().unwrap();
    let texts = vec![
        "Restaurant Akropolis\n1x Cheeseburger* 1,19\n2x Pommes 2,50\nSumme 3,69\n".to_string(),
        "".to_string(),
        "1 Cheesburger 1,19\nTee 2,00\nMwSt 7% 0,21\n".to_string(),
        "Tee 2,00\r\n4x Gyros 8,90\r\nVielen Dank\r\n".to_string(),
    ];
    let products = parser.parse_texts(&texts);
    assert_eq!(products.len(), 6);
    let totals = parser.analyze(&texts);
    assert_eq!(
        totals,
        vec![entry("gyros", 890), entry("tee", 400), entry("pommes", 250), entry("cheeseburger", 238)]
    );
    assert_eq!(summarize(&totals), Some(Summary { grand_total: 1778, product_count: 4 }));
}

#[test]
fn no_receipts_give_no_totals() {
    let parser = ReceiptParser::standard().unwrap();
    assert_eq!(parser.analyze(&Vec::new()), vec![]);
    assert_eq!(parser.analyze(&vec!["Summe 3,69".to_string()]), vec![]);
    assert_eq!(parser.parse_texts(&vec!["".to_string(), "\n".to_string()]), vec![]);
}

#[test]
fn two_runs_over_the_same_texts_agree() {
    let texts = vec![
        "1x Cola light 2,00\n1x Cola zero 2,00\n2x Cola 4,00\nTee 1,50\nTee 1,50".to_string(),
        "1x Pommes frites 3,00\n1x Pommes 2,50\nIx Bier 3,50\nl Bier 3,50".to_string(),
    ];
    let first = ReceiptParser::standard().unwrap().analyze(&texts);
    let second = ReceiptParser::standard().unwrap().analyze(&texts);
    assert_eq!(first, second);
    let parser = ReceiptParser::standard().unwrap();
    for _ in 0..5 {
        assert_eq!(parser.analyze(&texts), first);
    }
    assert_eq!(
        first,
        vec![entry("bier", 700), entry("cola light", 600), entry("pommes frites", 550), entry("tee", 300), entry("cola zero", 200)]
    );
}

#[test]
fn image_extensions() {
    for ext in ["jpg", "jpeg", "png", "tiff", "bmp", "JPG", "Jpeg", "PNG", "TifF", "BMP"] {
        assert!(is_image_extension(ext), "{}", ext);
    }
    for ext in ["", "gif", "pdf", "jpg ", ".jpg", "jp", "jpgx", "tif", "txt"] {
        assert!(!is_image_extension(ext), "{}", ext);
    }
    assert!(extension_is_listed("png"));
    assert!(!extension_is_listed("PNG"));
}

#[test]
fn contrast_levels() {
    assert_eq!(contrast_level(128), 128);
    assert_eq!(contrast_level(129), 129);
    assert_eq!(contrast_level(130), 131);
    assert_eq!(contrast_level(127), 126);
    assert_eq!(contrast_level(200), 236);
    assert_eq!(contrast_level(100), 86);
    assert_eq!(contrast_level(0), 0);
    assert_eq!(contrast_level(42), 0);
    assert_eq!(contrast_level(43), 0);
    assert_eq!(contrast_level(44), 2);
    assert_eq!(contrast_level(212), 254);
    assert_eq!(contrast_level(213), 255);
    assert_eq!(contrast_level(255), 255);
}

#[test]
fn contrast_levels_are_those_of_the_floating_point_formula() {
    for value in 0..=255u8 {
        let expected = ((value as f32 - 128.0) * 1.5 + 128.0).clamp(0.0, 255.0) as u8;
        assert_eq!(contrast_level(value), expected);
    }
}
