use invoicer::money::{create_accounting_from_currency, plain_amount_text};
use invoicer::{Amount, Currency};

fn amount(mantissa: i128, scale: u32) -> Amount {
    Amount::new(mantissa, scale).unwrap()
}

fn currency(code: &str) -> Currency {
    Currency::from_code(code).unwrap()
}

#[test]
fn euro_and_dollar_use_their_separators() {
    assert_eq!(invoicer::money::format(&amount(12345, 1), &currency("EUR")), "€1.234,50");
    assert_eq!(invoicer::money::format(&amount(12345, 1), &currency("USD")), "$1,234.50");
}

#[test]
fn koruna_uses_the_default_rule() {
    assert_eq!(invoicer::money::format(&amount(12345, 1), &currency("CZK")), "1 234,50 Kč");
    assert_eq!(invoicer::money::format(&amount(123456789, 0), &currency("CZK")), "123 456 789,00 Kč");
}

#[test]
fn zero_uses_the_zero_pattern() {
    assert_eq!(invoicer::money::format(&Amount::zero(), &currency("CZK")), "0,00 Kč");
    assert_eq!(invoicer::money::format(&amount(0, 5), &currency("EUR")), "€0,00");
    assert_eq!(invoicer::money::format(&amount(-1, 3), &currency("USD")), "$0.00");
}

#[test]
fn negative_amounts_get_a_leading_minus() {
    assert_eq!(invoicer::money::format(&amount(-12345, 1), &currency("CZK")), "-1 234,50 Kč");
    assert_eq!(invoicer::money::format(&amount(-12345, 1), &currency("EUR")), "-€1.234,50");
    assert_eq!(invoicer::money::format(&amount(-5, 0), &currency("USD")), "-$5.00");
}

#[test]
fn rounding_is_half_to_even() {
    let czk = currency("CZK");
    assert_eq!(invoicer::money::format(&amount(5, 3), &czk), "0,00 Kč");
    assert_eq!(invoicer::money::format(&amount(15, 3), &czk), "0,02 Kč");
    assert_eq!(invoicer::money::format(&amount(25, 3), &czk), "0,02 Kč");
    assert_eq!(invoicer::money::format(&amount(251, 4), &czk), "0,03 Kč");
}

#[test]
fn currency_without_decimal_places() {
    let jpy = currency("JPY");
    assert_eq!(jpy.exponent, 0);
    assert_eq!(invoicer::money::format(&amount(12345, 1), &jpy), "1 234 ¥");
}

#[test]
fn unknown_currency_code_is_refused() {
    assert!(Currency::from_code("XYZ").is_none());
    assert!(Currency::from_code("czk").is_none());
    let czk = currency("CZK");
    assert_eq!(czk.symbol, "Kč");
    assert_eq!(czk.exponent, 2);
}

#[test]
fn format_rules_per_currency() {
    let f = create_accounting_from_currency(&currency("USD"));
    assert_eq!(f.decimal_separator, '.');
    assert_eq!(f.thousand_separator, ',');
    let f = create_accounting_from_currency(&currency("CZK"));
    assert_eq!(f.format_money(&amount(1000, 0)), "1 000,00 Kč");
}

#[test]
fn plain_amount_text_rounds_to_places() {
    assert_eq!(plain_amount_text(&amount(525, 0), 2), "525.00");
    assert_eq!(plain_amount_text(&amount(525000, 3), 2), "525.00");
    assert_eq!(plain_amount_text(&amount(-1234567, 4), 2), "-123.46");
    assert_eq!(plain_amount_text(&amount(202403, 0), 0), "202403");
}

#[test]
fn amounts_parse_and_add_exactly() {
    let a = Amount::parse("350.0").unwrap();
    assert_eq!((a.mantissa(), a.scale()), (3500, 1));
    assert!(Amount::parse("abc").is_none());
    let b = amount(25, 2);
    let s = a.checked_add(&b).unwrap();
    assert_eq!((s.mantissa(), s.scale()), (35025, 2));
    assert!(Amount::new(79228162514264337593543950336, 0).is_none());
    assert!(Amount::new(1, 29).is_none());
    let big = amount(79228162514264337593543950335, 0);
    assert!(big.checked_add(&amount(1, 0)).is_none());
}
