use receipt_analyzer::price::{parse_european_price, InvalidPrice, Price, PRICE_LIMIT_CENTS};
use receipt_analyzer::report::format_amount;

#[test]
fn comma_and_dot_read_alike() {
    assert_eq!(parse_european_price("12,00"), Ok(Price { cents: 1200 }));
    assert_eq!(parse_european_price("12.00"), Ok(Price { cents: 1200 }));
}

#[test]
fn two_separators_are_rejected() {
    assert_eq!(parse_european_price("12,0,0"), Err(InvalidPrice {}));
    assert_eq!(parse_european_price("12.0.0"), Err(InvalidPrice {}));
    assert_eq!(parse_european_price("1,2.3"), Err(InvalidPrice {}));
}

#[test]
fn letters_are_rejected() {
    assert_eq!(parse_european_price("abc"), Err(InvalidPrice {}));
    assert_eq!(parse_european_price("12a"), Err(InvalidPrice {}));
    assert_eq!(parse_european_price("1e3"), Err(InvalidPrice {}));
    assert_eq!(parse_european_price("inf"), Err(InvalidPrice {}));
    assert_eq!(parse_european_price("NaN"), Err(InvalidPrice {}));
}

#[test]
fn whole_numbers_count_as_units() {
    assert_eq!(parse_european_price("999"), Ok(Price { cents: 99_900 }));
    assert_eq!(parse_european_price("0"), Ok(Price { cents: 0 }));
    assert_eq!(parse_european_price("007"), Ok(Price { cents: 700 }));
}

#[test]
fn one_decimal_counts_as_tenths() {
    assert_eq!(parse_european_price("12.5"), Ok(Price { cents: 1250 }));
    assert_eq!(parse_european_price("12,5"), Ok(Price { cents: 1250 }));
    assert_eq!(parse_european_price("0.05"), Ok(Price { cents: 5 }));
}

#[test]
fn digits_may_stand_on_one_side_only() {
    assert_eq!(parse_european_price("12."), Ok(Price { cents: 1200 }));
    assert_eq!(parse_european_price(".5"), Ok(Price { cents: 50 }));
    assert_eq!(parse_european_price(",75"), Ok(Price { cents: 75 }));
    assert_eq!(parse_european_price("."), Err(InvalidPrice {}));
    assert_eq!(parse_european_price(","), Err(InvalidPrice {}));
    assert_eq!(parse_european_price(""), Err(InvalidPrice {}));
}

#[test]
fn a_fraction_of_a_hundredth_is_rejected() {
    assert_eq!(parse_european_price("12.345"), Err(InvalidPrice {}));
    assert_eq!(parse_european_price("12,001"), Err(InvalidPrice {}));
    assert_eq!(parse_european_price("0.0001"), Err(InvalidPrice {}));
    assert_eq!(parse_european_price("1.2300004"), Err(InvalidPrice {}));
    assert_eq!(parse_european_price("1.230a"), Err(InvalidPrice {}));
}

#[test]
fn zeros_after_the_second_decimal_change_nothing() {
    assert_eq!(parse_european_price("12.000"), Ok(Price { cents: 1200 }));
    assert_eq!(parse_european_price("12,340"), Ok(Price { cents: 1234 }));
    assert_eq!(parse_european_price("12.3400000"), Ok(Price { cents: 1234 }));
    assert_eq!(parse_european_price(".000"), Ok(Price { cents: 0 }));
    assert_eq!(parse_european_price("0.500"), Ok(Price { cents: 50 }));
}

#[test]
fn signs_and_blanks_are_rejected() {
    assert_eq!(parse_european_price("+1.00"), Err(InvalidPrice {}));
    assert_eq!(parse_european_price("-1.00"), Err(InvalidPrice {}));
    assert_eq!(parse_european_price(" 1.00"), Err(InvalidPrice {}));
    assert_eq!(parse_european_price("1.00 "), Err(InvalidPrice {}));
    assert_eq!(parse_european_price("1 000"), Err(InvalidPrice {}));
}

#[test]
fn other_scripts_digits_are_rejected() {
    assert_eq!(parse_european_price("١٢"), Err(InvalidPrice {}));
    assert_eq!(parse_european_price("１２.００"), Err(InvalidPrice {}));
}

#[test]
fn the_largest_amount_is_read_and_the_next_is_not() {
    assert_eq!(
        parse_european_price("184467440737095516.15"),
        Ok(Price { cents: u64::MAX })
    );
    assert_eq!(parse_european_price("184467440737095516.16"), Err(InvalidPrice {}));
    assert_eq!(parse_european_price("184467440737095517"), Err(InvalidPrice {}));
    assert_eq!(parse_european_price("184467440737095516"), Ok(Price { cents: 18_446_744_073_709_551_600 }));
    assert_eq!(
        parse_european_price("99999999999999999999999999999999999999999"),
        Err(InvalidPrice {})
    );
}

#[test]
fn plausible_prices_lie_strictly_between_nothing_and_a_thousand() {
    assert!(!Price { cents: 0 }.is_plausible());
    assert!(Price { cents: 1 }.is_plausible());
    assert!(Price { cents: 99_999 }.is_plausible());
    assert!(!Price { cents: 100_000 }.is_plausible());
    assert!(!Price { cents: 150_000 }.is_plausible());
    assert_eq!(PRICE_LIMIT_CENTS, 100_000);
}

#[test]
fn amounts_are_written_with_two_decimals() {
    assert_eq!(format_amount(0), "0.00");
    assert_eq!(format_amount(5), "0.05");
    assert_eq!(format_amount(50), "0.50");
    assert_eq!(format_amount(119), "1.19");
    assert_eq!(format_amount(1200), "12.00");
    assert_eq!(format_amount(123_456), "1234.56");
    assert_eq!(
        format_amount(u128::MAX),
        "3402823669209384634633746074317682114.55"
    );
}

#[test]
fn a_written_amount_reads_back() {
    for cents in [0u64, 1, 9, 10, 99, 100, 101, 1199, 99_999, 100_000, 12_345_678, u64::MAX] {
        let text = format_amount(cents as u128);
        assert_eq!(parse_european_price(&text), Ok(Price { cents }));
        let european = text.replace('.', ",");
        assert_eq!(parse_european_price(&european), Ok(Price { cents }));
    }
}
