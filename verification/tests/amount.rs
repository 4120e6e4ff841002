use oreos::amount::{parse_chain_height, parse_iron_amount};
use oreos::errors::PipelineError;

#[test]
fn integral_amount_is_exact() {
    assert_eq!(parse_iron_amount("1"), Ok(100_000_000));
    assert_eq!(parse_iron_amount("0"), Ok(0));
    assert_eq!(parse_iron_amount("42"), Ok(4_200_000_000));
}

#[test]
fn fractional_amount_is_exact() {
    assert_eq!(parse_iron_amount("1.23"), Ok(123_000_000));
    assert_eq!(parse_iron_amount("0.00000001"), Ok(1));
    assert_eq!(parse_iron_amount("10.5"), Ok(1_050_000_000));
}

#[test]
fn fraction_truncates_never_rounds() {
    assert_eq!(parse_iron_amount("0.123456789"), Ok(12_345_678));
    assert_eq!(parse_iron_amount("0.999999999"), Ok(99_999_999));
    assert_eq!(parse_iron_amount("1.000000009"), Ok(100_000_000));
}

#[test]
fn trailing_dot_reads_as_integral() {
    assert_eq!(parse_iron_amount("2."), Ok(200_000_000));
}

#[test]
fn malformed_amounts_are_rejected() {
    assert_eq!(parse_iron_amount(""), Err(PipelineError::MalformedInput));
    assert_eq!(parse_iron_amount(".5"), Err(PipelineError::MalformedInput));
    assert_eq!(parse_iron_amount("1..2"), Err(PipelineError::MalformedInput));
    assert_eq!(parse_iron_amount("1.2.3"), Err(PipelineError::MalformedInput));
    assert_eq!(parse_iron_amount("abc"), Err(PipelineError::MalformedInput));
    assert_eq!(parse_iron_amount("1e3"), Err(PipelineError::MalformedInput));
    assert_eq!(parse_iron_amount("-1"), Err(PipelineError::MalformedInput));
    assert_eq!(parse_iron_amount("1.2x"), Err(PipelineError::MalformedInput));
}

#[test]
fn chain_height_parses_decimal_digits_only() {
    assert_eq!(parse_chain_height("0"), Some(0));
    assert_eq!(parse_chain_height("123456"), Some(123_456));
    assert_eq!(parse_chain_height("4294967295"), Some(u32::MAX));
    assert_eq!(parse_chain_height("4294967296"), None);
    assert_eq!(parse_chain_height(""), None);
    assert_eq!(parse_chain_height("12a"), None);
    assert_eq!(parse_chain_height("-1"), None);
}

#[test]
fn amount_at_wire_limit_is_accepted() {
    // u64::MAX subunits exactly.
    assert_eq!(parse_iron_amount("184467440737.09551615"), Ok(u64::MAX));
}

#[test]
fn amount_over_wire_limit_overflows() {
    assert_eq!(
        parse_iron_amount("184467440737.09551616"),
        Err(PipelineError::AmountOverflow)
    );
    assert_eq!(
        parse_iron_amount("999999999999999999999999"),
        Err(PipelineError::AmountOverflow)
    );
}
