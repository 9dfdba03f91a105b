use paytoy::amount::Amount;
use paytoy::parse::{check_parsed, parse_amount, AmountError};
use paytoy::pipeline::{all_known_headers, is_known_header};

fn dec(mantissa: i128, scale: u32) -> Amount {
    Amount::new(mantissa, scale).unwrap()
}

#[test]
fn test_from_str() -> Result<(), AmountError> {
    assert_eq!(parse_amount("")?, None);
    assert_eq!(parse_amount("1.1")?, Some(dec(11, 1)));
    assert_eq!(parse_amount(" 1.1 ")?, Some(dec(11, 1)));

    assert!(parse_amount("0.0").is_err());
    assert!(parse_amount("0").is_err());
    assert!(parse_amount("0.23456").is_err());
    assert!(parse_amount("0.234.56").is_err());
    assert!(parse_amount("0.2345.6").is_err());
    assert!(parse_amount(".2345").is_err());
    assert!(parse_amount("10.23456").is_err());
    assert!(parse_amount("foo").is_err());
    assert!(parse_amount("-1.2345").is_err());
    assert!(parse_amount("-1.23456").is_err());

    assert_eq!(parse_amount("1.2345")?, Some(dec(12345, 4)));
    assert_eq!(parse_amount("0.0001")?, Some(dec(1, 4)));
    Ok(())
}

#[test]
fn parse_errors_by_kind() {
    assert_eq!(parse_amount(".5"), Err(AmountError::LeadingPoint));
    assert_eq!(parse_amount("foo"), Err(AmountError::NotANumber));
    assert_eq!(parse_amount("-1.5"), Err(AmountError::Negative));
    assert_eq!(parse_amount("0.00"), Err(AmountError::Zero));
    assert_eq!(parse_amount("1.00001"), Err(AmountError::TooManyDecimals));
    assert_eq!(
        parse_amount("1000000000000000000000"),
        Err(AmountError::TooLarge)
    );
    assert_eq!(parse_amount("   "), Ok(None));
    let a = parse_amount("2.50").unwrap().unwrap();
    assert_eq!(a.mantissa(), 250);
    assert_eq!(a.scale(), 2);
}

#[test]
fn check_parsed_on_given_parts() {
    assert_eq!(check_parsed(None), Err(AmountError::NotANumber));
    assert_eq!(check_parsed(Some((5, 1, true))), Err(AmountError::Negative));
    assert_eq!(check_parsed(Some((0, 1, true))), Err(AmountError::Negative));
    assert_eq!(check_parsed(Some((0, 2, false))), Err(AmountError::Zero));
    assert_eq!(check_parsed(Some((123456, 5, false))), Err(AmountError::TooManyDecimals));
    assert_eq!(check_parsed(Some((i128::MAX, 0, false))), Err(AmountError::TooLarge));
    assert_eq!(check_parsed(Some((15, 1, false))), Ok(dec(15, 1)));
}

#[test]
fn headers() {
    assert!(is_known_header("type"));
    assert!(is_known_header("amount"));
    assert!(!is_known_header("random"));
    let ok: Vec<String> = vec!["client".to_string(), "type".to_string(), "tx".to_string()];
    assert!(all_known_headers(&ok));
    let bad: Vec<String> = vec!["type".to_string(), "random".to_string()];
    assert!(!all_known_headers(&bad));
}
