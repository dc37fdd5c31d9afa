use radio_frequency::{ParseIntErrorKind, RadioFrequency, RadioFrequencyError};

#[test]
fn construction_keeps_parts() {
    for left in 118u16..=137 {
        for &code in &[0u16, 5, 10, 15, 25, 30, 35, 40, 50, 55, 60, 65, 75, 80, 85, 90] {
            let right = 900 + code;
            let f = RadioFrequency::new(left, right).unwrap();
            assert_eq!(f.frequency(), (left, right));
            assert_eq!(f.left(), left);
            assert_eq!(f.right(), right);
        }
    }
}

#[test]
fn left_out_of_band_is_rejected() {
    assert_eq!(
        RadioFrequency::new(117, 25),
        Err(RadioFrequencyError::InvalidFrequency)
    );
    assert_eq!(
        RadioFrequency::new(138, 25),
        Err(RadioFrequencyError::InvalidFrequency)
    );
    assert_eq!(
        RadioFrequency::new(0, 0),
        Err(RadioFrequencyError::InvalidFrequency)
    );
    assert_eq!(
        RadioFrequency::new(65535, 50),
        Err(RadioFrequencyError::InvalidFrequency)
    );
}

#[test]
fn bad_channel_code_is_rejected() {
    for &code in &[1u16, 3, 20, 45, 70, 95, 99] {
        assert_eq!(
            RadioFrequency::new(120, code),
            Err(RadioFrequencyError::InvalidFrequency)
        );
        assert_eq!(
            RadioFrequency::new(120, 900 + code),
            Err(RadioFrequencyError::InvalidFrequency)
        );
    }
}

#[test]
fn spacing_queries_are_complements() {
    let wide = RadioFrequency::new(121, 25).unwrap();
    assert!(wide.is_25_khz_spaced());
    assert!(!wide.is_8_33_khz_spaced());

    let narrow = RadioFrequency::new(121, 905).unwrap();
    assert!(!narrow.is_25_khz_spaced());
    assert!(narrow.is_8_33_khz_spaced());
}

#[test]
fn formatting_is_zero_padded() {
    assert_eq!(RadioFrequency::new(118, 0).unwrap().to_text(), "118.000");
    assert_eq!(RadioFrequency::new(118, 5).unwrap().to_text(), "118.005");
    assert_eq!(RadioFrequency::new(120, 905).unwrap().to_text(), "120.905");
    assert_eq!(RadioFrequency::new(137, 90).unwrap().to_text(), "137.090");
}

#[test]
fn formatting_does_not_truncate_wide_values() {
    // The fractional part is not reduced modulo 1000 for display.
    assert_eq!(RadioFrequency::new(120, 1000).unwrap().to_text(), "120.1000");
    assert_eq!(
        RadioFrequency::new(137, 65525).unwrap().to_text(),
        "137.65525"
    );
}

#[test]
fn parse_accepts_valid_frequency() {
    let f = RadioFrequency::parse("120.905").unwrap();
    assert_eq!(f.left(), 120);
    assert_eq!(f.right(), 905);
    assert!(f.is_8_33_khz_spaced());
}

#[test]
fn parse_rejects_left_out_of_range() {
    assert_eq!(
        RadioFrequency::parse("138.005"),
        Err(RadioFrequencyError::InvalidFrequency)
    );
}

#[test]
fn parse_rejects_bad_channel_code() {
    assert_eq!(
        RadioFrequency::parse("118.003"),
        Err(RadioFrequencyError::InvalidFrequency)
    );
}

#[test]
fn parse_rejects_single_segment() {
    assert_eq!(
        RadioFrequency::parse("120"),
        Err(RadioFrequencyError::NotEnoughParts)
    );
}

#[test]
fn parse_rejects_non_numeric_segment() {
    assert_eq!(
        RadioFrequency::parse("abc.005"),
        Err(RadioFrequencyError::ParseError(
            ParseIntErrorKind::InvalidDigit
        ))
    );
    assert_eq!(
        RadioFrequency::parse("120.9o5"),
        Err(RadioFrequencyError::ParseError(
            ParseIntErrorKind::InvalidDigit
        ))
    );
}

#[test]
fn parse_rejects_empty_segments() {
    assert_eq!(
        RadioFrequency::parse(""),
        Err(RadioFrequencyError::ParseError(ParseIntErrorKind::Empty))
    );
    assert_eq!(
        RadioFrequency::parse("120."),
        Err(RadioFrequencyError::ParseError(ParseIntErrorKind::Empty))
    );
    assert_eq!(
        RadioFrequency::parse(".905"),
        Err(RadioFrequencyError::ParseError(ParseIntErrorKind::Empty))
    );
}

#[test]
fn parse_rejects_overflowing_segment() {
    assert_eq!(
        RadioFrequency::parse("120.70000"),
        Err(RadioFrequencyError::ParseError(
            ParseIntErrorKind::PosOverflow
        ))
    );
    assert_eq!(
        RadioFrequency::parse("99999.905"),
        Err(RadioFrequencyError::ParseError(
            ParseIntErrorKind::PosOverflow
        ))
    );
}

#[test]
fn parse_tolerates_padding_and_signs() {
    // Leading zeros and a leading `+` follow standard integer parsing.
    let f = RadioFrequency::parse("0120.0905").unwrap();
    assert_eq!(f.frequency(), (120, 905));
    let g = RadioFrequency::parse("+120.+905").unwrap();
    assert_eq!(g.frequency(), (120, 905));
    assert_eq!(
        RadioFrequency::parse("+.905"),
        Err(RadioFrequencyError::ParseError(
            ParseIntErrorKind::InvalidDigit
        ))
    );
}

#[test]
fn parse_ignores_text_after_second_dot() {
    let f = RadioFrequency::parse("120.905.junk").unwrap();
    assert_eq!(f.frequency(), (120, 905));
    let g = RadioFrequency::parse("121.050.").unwrap();
    assert_eq!(g.frequency(), (121, 50));
}

#[test]
fn parse_through_from_str() {
    let f: RadioFrequency = "121.050".parse().unwrap();
    assert_eq!(f.frequency(), (121, 50));
    assert!(f.is_25_khz_spaced());
    assert!("x".parse::<RadioFrequency>().is_err());
}

#[test]
fn format_then_parse_round_trips() {
    for &(left, right) in &[
        (118u16, 0u16),
        (118, 5),
        (120, 905),
        (121, 50),
        (137, 990),
        (120, 1000),
        (137, 65525),
    ] {
        let f = RadioFrequency::new(left, right).unwrap();
        let text = f.to_text();
        assert_eq!(RadioFrequency::parse(&text), Ok(f));
    }
}

#[test]
fn ordering_is_by_left_then_right() {
    let a = RadioFrequency::new(118, 900).unwrap();
    let b = RadioFrequency::new(119, 5).unwrap();
    let c = RadioFrequency::new(119, 25).unwrap();
    let d = RadioFrequency::new(137, 0).unwrap();

    let mut sorted = vec![d, c, a, b];
    sorted.sort();
    assert_eq!(sorted, vec![a, b, c, d]);

    assert!(a < b);
    assert!(b < c);
    assert!(c < d);
    assert!(a <= a);
    assert!(d > a);
}

#[test]
fn error_messages_are_fixed_strings() {
    assert_eq!(RadioFrequencyError::InvalidFrequency.message(), "Invalid frequency");
    assert_eq!(RadioFrequencyError::NotEnoughParts.message(), "Not enough parts");
    assert_eq!(
        RadioFrequencyError::ParseError(ParseIntErrorKind::Empty).message(),
        "Int parse error"
    );
}
