use monx::decimal::{parse_u32, Decimal};
use monx::text::string_of;

fn cs(s: &str) -> Vec<char> {
    s.chars().collect()
}

fn one_place(milli: i64) -> String {
    let mut out = Vec::new();
    Decimal::from_milli(milli).push_one_place(&mut out);
    string_of(&out)
}

#[test]
fn decimal_shortest_text() {
    assert_eq!(Decimal::from_milli(95_000).to_text(), "95");
    assert_eq!(Decimal::from_milli(95_500).to_text(), "95.5");
    assert_eq!(Decimal::from_milli(95_250).to_text(), "95.25");
    assert_eq!(Decimal::from_milli(95_125).to_text(), "95.125");
    assert_eq!(Decimal::from_milli(5).to_text(), "0.005");
    assert_eq!(Decimal::from_milli(0).to_text(), "0");
    assert_eq!(Decimal::from_milli(-125).to_text(), "-0.125");
    assert_eq!(Decimal::from_milli(i64::MIN).to_text(), "-9223372036854775.808");
    assert_eq!(Decimal::from_milli(i64::MAX).to_text(), "9223372036854775.807");
}

#[test]
fn decimal_shortest_text_agrees_with_float_display() {
    for milli in [0i64, 500, 1000, 90_000, 95_500, 99_900, 100_000, 12_250] {
        let as_float = milli as f64 / 1000.0;
        assert_eq!(Decimal::from_milli(milli).to_text(), format!("{}", as_float));
    }
}

#[test]
fn decimal_one_place_text() {
    assert_eq!(one_place(85_500), "85.5");
    assert_eq!(one_place(78_200), "78.2");
    assert_eq!(one_place(95_000), "95.0");
    assert_eq!(one_place(0), "0.0");
    assert_eq!(one_place(85_549), "85.5");
    assert_eq!(one_place(85_551), "85.6");
    assert_eq!(one_place(85_550), "85.6");
    assert_eq!(one_place(85_450), "85.4");
    assert_eq!(one_place(99_960), "100.0");
    assert_eq!(one_place(-40), "-0.0");
    assert_eq!(one_place(-1_250), "-1.2");
}

#[test]
fn decimal_from_whole_and_comparison() {
    assert_eq!(Decimal::from_whole(90).milli, 90_000);
    assert!(Decimal::from_milli(90_001).gt_whole(90));
    assert!(!Decimal::from_milli(90_000).gt_whole(90));
    assert!(!Decimal::from_milli(-1).gt_whole(0));
    assert!(Decimal::from_milli(i64::MAX).gt_whole(u32::MAX));
}

#[test]
fn decimal_parse_numerals() {
    assert_eq!(Decimal::parse(&cs("0.85")), Some(Decimal::from_milli(850)));
    assert_eq!(Decimal::parse(&cs("1")), Some(Decimal::from_milli(1000)));
    assert_eq!(Decimal::parse(&cs("1.0")), Some(Decimal::from_milli(1000)));
    assert_eq!(Decimal::parse(&cs("-2.5")), Some(Decimal::from_milli(-2500)));
    assert_eq!(Decimal::parse(&cs("+3")), Some(Decimal::from_milli(3000)));
    assert_eq!(Decimal::parse(&cs(".5")), Some(Decimal::from_milli(500)));
    assert_eq!(Decimal::parse(&cs("5.")), Some(Decimal::from_milli(5000)));
    assert_eq!(Decimal::parse(&cs("0.8567")), Some(Decimal::from_milli(856)));
    assert_eq!(Decimal::parse(&cs("007.10")), Some(Decimal::from_milli(7100)));
    assert_eq!(
        Decimal::parse(&cs("9223372036854775.807")),
        Some(Decimal::from_milli(i64::MAX))
    );
}

#[test]
fn decimal_parse_refuses_other_text() {
    for s in ["", ".", "-", "+", "abc", "1e3", "1.2.3", " 1", "1 ", "0x10", "inf", "NaN", "--1"] {
        assert_eq!(Decimal::parse(&cs(s)), None, "for {:?}", s);
    }
    assert_eq!(Decimal::parse(&cs("9223372036854775.808")), None);
    assert_eq!(Decimal::parse(&cs("99999999999999999999999999")), None);
}

#[test]
fn parse_u32_agrees_with_std_parse() {
    for s in ["0", "7", "+7", "0042", "4294967295", "4294967296", "", "+", "-1", "1.0", "12a", " 1"] {
        assert_eq!(parse_u32(&cs(s)), s.parse::<u32>().ok(), "for {:?}", s);
    }
}

#[test]
fn parse_reads_what_to_text_writes() {
    for milli in [0i64, 1, -1, 10, 100, 999, 1000, -1000, 95_500, -125, 123_456, i64::MAX, i64::MIN] {
        let d = Decimal::from_milli(milli);
        assert_eq!(Decimal::parse(&cs(&d.to_text())), Some(d), "for {}", milli);
    }
}
