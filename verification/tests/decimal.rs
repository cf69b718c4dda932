use monitoring_agent::common::Decimal;

#[test]
fn text_of_whole_numbers_has_no_point() {
    assert_eq!(Decimal::from_thousandths(0).to_text(), "0");
    assert_eq!(Decimal::from_thousandths(1000).to_text(), "1");
    assert_eq!(Decimal::from_thousandths(2000).to_text(), "2");
    assert_eq!(Decimal::from_thousandths(120_000).to_text(), "120");
}

#[test]
fn text_drops_trailing_zeros_of_the_fraction() {
    assert_eq!(Decimal::from_thousandths(1100).to_text(), "1.1");
    assert_eq!(Decimal::from_thousandths(2100).to_text(), "2.1");
    assert_eq!(Decimal::from_thousandths(1230).to_text(), "1.23");
    assert_eq!(Decimal::from_thousandths(1234).to_text(), "1.234");
    assert_eq!(Decimal::from_thousandths(1004).to_text(), "1.004");
    assert_eq!(Decimal::from_thousandths(1040).to_text(), "1.04");
    assert_eq!(Decimal::from_thousandths(5).to_text(), "0.005");
    assert_eq!(Decimal::from_thousandths(50).to_text(), "0.05");
    assert_eq!(Decimal::from_thousandths(500).to_text(), "0.5");
}

#[test]
fn text_of_negative_numbers_begins_with_a_minus_sign() {
    assert_eq!(Decimal::from_thousandths(-500).to_text(), "-0.5");
    assert_eq!(Decimal::from_thousandths(-1).to_text(), "-0.001");
    assert_eq!(Decimal::from_thousandths(-3000).to_text(), "-3");
    assert_eq!(Decimal::from_thousandths(-12_345).to_text(), "-12.345");
}

#[test]
fn text_of_the_largest_and_smallest_numbers() {
    assert_eq!(Decimal::from_thousandths(i64::MAX).to_text(), "9223372036854775.807");
    assert_eq!(Decimal::from_thousandths(i64::MIN).to_text(), "-9223372036854775.808");
}

#[test]
fn text_agrees_with_the_shortest_notation_of_the_same_float() {
    let mut thousandths: i64 = -5000;
    while thousandths <= 5000 {
        if thousandths != 0 {
            let float = thousandths as f32 / 1000.0;
            assert_eq!(Decimal::from_thousandths(thousandths).to_text(), format!("{}", float));
        }
        thousandths += 1;
    }
    assert_eq!(Decimal::from_thousandths(0).to_text(), format!("{}", 0.0f32));
}

#[test]
fn thousandths_gives_back_what_was_put_in() {
    assert_eq!(Decimal::from_thousandths(1100).thousandths(), 1100);
    assert_eq!(Decimal::from_thousandths(-7).thousandths(), -7);
    assert_eq!(Decimal::from_thousandths(1100), Decimal::from_thousandths(1100));
    assert_ne!(Decimal::from_thousandths(1100), Decimal::from_thousandths(1101));
}

#[test]
fn exceeds_is_strictly_greater() {
    let one = Decimal::from_thousandths(1000);
    let more = Decimal::from_thousandths(1001);
    assert!(more.exceeds(&one));
    assert!(!one.exceeds(&one));
    assert!(!one.exceeds(&more));
    assert!(one.exceeds(&Decimal::from_thousandths(-1000)));
    assert!(!Decimal::from_thousandths(-1000).exceeds(&Decimal::from_thousandths(0)));
}

#[test]
fn parse_reads_load_averages_as_the_system_writes_them() {
    assert_eq!(Decimal::parse("0.20"), Some(Decimal::from_thousandths(200)));
    assert_eq!(Decimal::parse("0.00"), Some(Decimal::from_thousandths(0)));
    assert_eq!(Decimal::parse("12.07"), Some(Decimal::from_thousandths(12_070)));
    assert_eq!(Decimal::parse("2400.000"), Some(Decimal::from_thousandths(2_400_000)));
    assert_eq!(Decimal::parse("3593.248"), Some(Decimal::from_thousandths(3_593_248)));
}

#[test]
fn parse_reads_whole_numbers_signs_and_leading_zeros() {
    assert_eq!(Decimal::parse("1"), Some(Decimal::from_thousandths(1000)));
    assert_eq!(Decimal::parse("0"), Some(Decimal::from_thousandths(0)));
    assert_eq!(Decimal::parse("-0.5"), Some(Decimal::from_thousandths(-500)));
    assert_eq!(Decimal::parse("-3"), Some(Decimal::from_thousandths(-3000)));
    assert_eq!(Decimal::parse("007.5"), Some(Decimal::from_thousandths(7500)));
    assert_eq!(Decimal::parse("1.5"), Some(Decimal::from_thousandths(1500)));
    assert_eq!(Decimal::parse("1.05"), Some(Decimal::from_thousandths(1050)));
    assert_eq!(Decimal::parse("1.005"), Some(Decimal::from_thousandths(1005)));
    assert_eq!(Decimal::parse("-0"), Some(Decimal::from_thousandths(0)));
}

#[test]
fn parse_refuses_what_is_not_decimal_notation() {
    assert_eq!(Decimal::parse(""), None);
    assert_eq!(Decimal::parse("-"), None);
    assert_eq!(Decimal::parse("."), None);
    assert_eq!(Decimal::parse("1."), None);
    assert_eq!(Decimal::parse(".5"), None);
    assert_eq!(Decimal::parse("-.5"), None);
    assert_eq!(Decimal::parse("1.2345"), None);
    assert_eq!(Decimal::parse("1.2.3"), None);
    assert_eq!(Decimal::parse("1,5"), None);
    assert_eq!(Decimal::parse("+1"), None);
    assert_eq!(Decimal::parse("--1"), None);
    assert_eq!(Decimal::parse("1-"), None);
    assert_eq!(Decimal::parse(" 1"), None);
    assert_eq!(Decimal::parse("1 "), None);
    assert_eq!(Decimal::parse("1.5\n"), None);
    assert_eq!(Decimal::parse("abc"), None);
    assert_eq!(Decimal::parse("1e3"), None);
    assert_eq!(Decimal::parse("1.a"), None);
    assert_eq!(Decimal::parse("\u{0661}"), None);
    assert_eq!(Decimal::parse("NaN"), None);
    assert_eq!(Decimal::parse("inf"), None);
}

#[test]
fn parse_holds_the_range_of_a_decimal() {
    assert_eq!(
        Decimal::parse("9223372036854775.807"),
        Some(Decimal::from_thousandths(i64::MAX))
    );
    assert_eq!(Decimal::parse("9223372036854775.808"), None);
    assert_eq!(
        Decimal::parse("-9223372036854775.808"),
        Some(Decimal::from_thousandths(i64::MIN))
    );
    assert_eq!(Decimal::parse("-9223372036854775.809"), None);
    assert_eq!(Decimal::parse("9223372036854776"), None);
    assert_eq!(Decimal::parse("10000000000000000"), None);
    assert_eq!(Decimal::parse("99999999999999999999999999999999999999"), None);
    assert_eq!(
        Decimal::parse("00000000000000000000000000000000000001.5"),
        Some(Decimal::from_thousandths(1500))
    );
    assert_eq!(
        Decimal::parse("9999999999999999.999"),
        None
    );
    assert_eq!(
        Decimal::parse("9223372036854775"),
        Some(Decimal::from_thousandths(9_223_372_036_854_775_000))
    );
}

#[test]
fn parse_reads_back_every_text_that_to_text_writes() {
    let samples: [i64; 14] = [
        0,
        1,
        -1,
        10,
        100,
        999,
        1000,
        1001,
        -1100,
        123_456_789,
        -987_654_321,
        i64::MAX,
        i64::MIN,
        i64::MIN + 1,
    ];
    for thousandths in samples {
        let number = Decimal::from_thousandths(thousandths);
        assert_eq!(Decimal::parse(number.to_text().as_str()), Some(number));
    }
    let mut thousandths: i64 = -2500;
    while thousandths <= 2500 {
        let number = Decimal::from_thousandths(thousandths);
        assert_eq!(Decimal::parse(number.to_text().as_str()), Some(number));
        thousandths += 1;
    }
}
