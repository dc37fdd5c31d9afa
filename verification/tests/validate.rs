use radio_frequency::RadioFrequency;

#[test]
fn validate() {
    let valid = RadioFrequency::new(120, 905).unwrap();
    let invalid_a = RadioFrequency::new(110, 300);
    let invalid_b = RadioFrequency::new(118, 3);
    let invalid_c = RadioFrequency::new(138, 005);
    let invalid_d = RadioFrequency::new(121, 012);

    assert!(invalid_a.is_err());
    assert!(invalid_b.is_err());
    assert!(invalid_c.is_err());
    assert!(invalid_d.is_err());

    assert_eq!(valid.left(), 120);
    assert_eq!(valid.right(), 905);

    assert!(valid.is_8_33_khz_spaced())
}
