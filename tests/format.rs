use trading_bot::format::{format_currency, format_percentage};

fn micros(x: f64) -> i64 {
    (x * 1_000_000.0).round() as i64
}

#[test]
fn test_format_currency() {
    assert_eq!(format_currency(micros(1234.56)), "$1.23K");
    assert_eq!(format_currency(micros(1234567.89)), "$1.23M");
    assert_eq!(format_currency(micros(1234567890.12)), "$1.23B");
}

#[test]
fn test_format_percentage() {
    assert_eq!(format_percentage(micros(0.1234)), "12.34%");
    assert_eq!(format_percentage(micros(0.05)), "5.00%");
}

#[test]
fn currency_below_a_thousand_and_negative() {
    assert_eq!(format_currency(micros(999.994)), "$999.99");
    assert_eq!(format_currency(micros(999.996)), "$1000.00");
    assert_eq!(format_currency(0), "$0.00");
    assert_eq!(format_currency(micros(-5000.0)), "$-5000.00");
    assert_eq!(format_currency(micros(1000.0)), "$1.00K");
    assert_eq!(format_currency(i64::MAX), "$9223.37B");
}

#[test]
fn currency_rounds_ties_to_even() {
    assert_eq!(format_currency(micros(0.125)), "$0.12");
    assert_eq!(format_currency(micros(0.135)), "$0.14");
    assert_eq!(format_currency(micros(1.005)), "$1.00");
}

#[test]
fn percentage_of_negative_and_large_values() {
    assert_eq!(format_percentage(micros(-0.025)), "-2.50%");
    assert_eq!(format_percentage(micros(12.5)), "1250.00%");
    assert_eq!(format_percentage(0), "0.00%");
}
