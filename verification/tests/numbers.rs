use lox::number::Number;

fn shown(x: f64) -> String {
    Number::from_bits(x.to_bits()).display()
}

fn number(x: f64) -> Number {
    Number::from_bits(x.to_bits())
}

#[test]
fn display_matches_the_host() {
    let samples: Vec<f64> = vec![
        0.0, -0.0, 1.0, -1.0, 7.0, 55.0, 2.5, 0.1, 0.2, 0.1 + 0.2, 1.0 / 3.0, 100.0, 1e21, 1e22,
        1e-7, 123456789.125, 9007199254740992.0, 5e-324, 1.7976931348623157e308, 0.000001,
        3.141592653589793, 1e23, 2.2250738585072014e-308, 4294967296.0, 0.5, 1234.5678,
    ];
    for x in samples {
        assert_eq!(shown(x), format!("{}", x));
        assert_eq!(shown(-x), format!("{}", -x));
    }
}

#[test]
fn display_of_specials() {
    assert_eq!(shown(f64::NAN), "NaN");
    assert_eq!(shown(f64::INFINITY), "inf");
    assert_eq!(shown(f64::NEG_INFINITY), "-inf");
}

#[test]
fn arithmetic_matches_the_host() {
    let samples: Vec<f64> = vec![0.0, -0.0, 1.0, 3.0, 0.1, 0.2, 1e308, -7.25, 1e-320, 2.5];
    for &a in &samples {
        for &b in &samples {
            assert_eq!(number(a).plus(number(b)).to_bits(), (a + b).to_bits());
            assert_eq!(number(a).minus(number(b)).to_bits(), (a - b).to_bits());
            assert_eq!(number(a).times(number(b)).to_bits(), (a * b).to_bits());
            let q = number(a).divided_by(number(b));
            if (a / b).is_nan() {
                assert!(q.is_nan());
            } else {
                assert_eq!(q.to_bits(), (a / b).to_bits());
            }
        }
    }
}

#[test]
fn comparisons_match_the_host() {
    let samples: Vec<f64> = vec![
        0.0, -0.0, 1.0, -1.0, 0.1, f64::NAN, f64::INFINITY, f64::NEG_INFINITY, 5e-324, -5e-324,
        1e308,
    ];
    for &a in &samples {
        for &b in &samples {
            assert_eq!(number(a).equals(number(b)), a == b);
            assert_eq!(number(a).less(number(b)), a < b);
            assert_eq!(number(a).less_equal(number(b)), a <= b);
            assert_eq!(number(a).greater(number(b)), a > b);
            assert_eq!(number(a).greater_equal(number(b)), a >= b);
        }
        assert_eq!(number(a).negate().to_bits(), (-a).to_bits());
        assert_eq!(number(a).is_nan(), a.is_nan());
    }
}

#[test]
fn parse_matches_the_host() {
    let samples = vec!["0", "1", "3.14", "0.1", "123456789", "1.5", "100.25", "0.30000000000000004"];
    for s in samples {
        let expected: f64 = s.parse().unwrap();
        assert_eq!(Number::parse(s).unwrap().to_bits(), expected.to_bits());
    }
    assert!(Number::parse("abc").is_none());
    assert!(Number::parse("").is_none());
}

#[test]
fn decimal_texts() {
    for s in ["0", "12", "-3", "1.5", "-0.25", "007"] {
        assert!(lox::number::is_decimal(s), "{}", s);
    }
    for s in ["", "-", ".", "1.", ".5", "1e5", "inf", "NaN", "+1", " 1", "1 ", "0x10", "1.2.3", "--1"] {
        assert!(!lox::number::is_decimal(s), "{}", s);
    }
}

#[test]
fn display_matches_the_host_on_many_values() {
    let mut state: u64 = 0x2545f4914f6cdd1d;
    let mut checked = 0;
    while checked < 3000 {
        state ^= state << 13;
        state ^= state >> 7;
        state ^= state << 17;
        let x = f64::from_bits(state);
        if x.is_finite() && x.abs() > 1e-300 && x.abs() < 1e300 {
            assert_eq!(shown(x), format!("{}", x));
            checked += 1;
        }
    }
}

#[test]
fn display_matches_the_host_on_short_values() {
    let mut i = 0;
    while i < 400 {
        let x = (i as f64) / 8.0 - 20.0;
        assert_eq!(shown(x), format!("{}", x));
        let y = (i as f64) * 0.1;
        assert_eq!(shown(y), format!("{}", y));
        i += 1;
    }
}
