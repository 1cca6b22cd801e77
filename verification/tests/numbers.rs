use loxy::number::{
    at_most, decimal, divide, equal, format_number, less, nan, negate, parse_number, scientific,
    to_positional,
};

fn next(seed: &mut u64) -> u64 {
    *seed = seed
        .wrapping_mul(6364136223846793005)
        .wrapping_add(1442695040888963407);
    *seed
}

fn samples() -> Vec<f64> {
    let mut values = vec![
        0.0,
        -0.0,
        1.0,
        -1.0,
        10.0,
        100.0,
        1.5,
        0.1,
        0.2,
        0.3,
        0.1 + 0.2,
        1.0 / 3.0,
        2.0 / 3.0,
        123.456,
        45.67,
        1e21,
        1e22,
        1e23,
        1.5e-7,
        1e-7,
        5e-324,
        f64::MAX,
        f64::MIN,
        f64::MIN_POSITIVE,
        f64::EPSILON,
        9007199254740992.0,
        9007199254740993.0,
        4294967296.0,
        144.0,
        0.000001,
        123456789.125,
        f64::INFINITY,
        f64::NEG_INFINITY,
        f64::NAN,
    ];
    let mut seed = 7;
    for _ in 0..300 {
        values.push(f64::from_bits(next(&mut seed)));
    }
    for _ in 0..300 {
        let whole = (next(&mut seed) % 2_000_000) as f64;
        values.push(whole / 1000.0 - 1000.0);
    }
    values
}

#[test]
fn numbers_are_written_as_the_host_writes_them() {
    for value in samples() {
        assert_eq!(
            format_number(value.to_bits()),
            format!("{}", value),
            "bits {:#x}",
            value.to_bits()
        );
    }
}

#[test]
fn written_numbers_read_back() {
    for value in samples() {
        if value.is_nan() {
            continue;
        }
        let text = format_number(value.to_bits());
        assert_eq!(parse_number(&text), Some(value.to_bits()), "{text}");
    }
}

#[test]
fn decimal_texts_read_as_the_host_reads_them() {
    for text in [
        "0", "1", "64", "-64", "+64", "0.23", "1.23", "45.67", "123.456", "1e3", "1E3", "1e-3",
        "1.5e+10", "5.", ".5", "-.5e2", "0.1", "0.2", "0.3", "1e400", "1e-400", "179769313486231570000000000000000000000000000000000000000000000000000000000000000000000000000000000000000000000000000000000000000000000000000000000000000000000000000000000000000000000000000000000000000000000000000000000000000000000000000000000000000000000000000000000000000000000000000000000000000000000000000000000",
        "2.2250738585072014e-308", "4.9e-324", "2.4703282292062327e-324", "9007199254740993",
        "0.30000000000000004", "3.141592653589793238462643383279",
    ] {
        let host: f64 = text.parse().unwrap();
        assert_eq!(parse_number(text), Some(host.to_bits()), "{text}");
    }
}

#[test]
fn named_numbers_read_as_the_host_reads_them() {
    for text in [
        "inf", "-inf", "+inf", "INF", "Infinity", "-infinity", "+INFINITY",
    ] {
        let host: f64 = text.parse().unwrap();
        assert_eq!(parse_number(text), Some(host.to_bits()), "{text}");
    }
    for text in ["nan", "NaN", "-nan", "+NAN"] {
        let host: f64 = text.parse().unwrap();
        assert!(host.is_nan());
        assert!(nan(parse_number(text).unwrap()), "{text}");
    }
}

#[test]
fn other_texts_are_no_numbers() {
    for text in [
        "", " ", ".", "-", "+", "e5", "1e", "1e+", "1.2.3", "1_000", "0x10", "abc", " 1", "1 ",
        "--1", "1e5.5", "infinit", "nano", "in", "i", "1f",
    ] {
        assert!(text.parse::<f64>().is_err(), "{text}");
        assert_eq!(parse_number(text), None, "{text}");
    }
}

#[test]
fn decimal_shape_is_recognised() {
    let shaped = |text: &str| decimal(&text.chars().collect());
    assert!(shaped("12"));
    assert!(shaped("12.5"));
    assert!(shaped("-12.5e-3"));
    assert!(shaped("12."));
    assert!(shaped(".5"));
    assert!(!shaped("."));
    assert!(!shaped(""));
    assert!(!shaped("12e"));
    assert!(!shaped("1.2.3"));
    assert!(!shaped("inf"));
}

#[test]
fn scientific_notation_is_written_out() {
    assert_eq!(to_positional("1.5E+0"), "1.5");
    assert_eq!(to_positional("1.0E+1"), "10");
    assert_eq!(to_positional("-1.25E+2"), "-125");
    assert_eq!(to_positional("1.25E+1"), "12.5");
    assert_eq!(to_positional("1.5E-7"), "0.00000015");
    assert_eq!(to_positional("1.0E+21"), "1000000000000000000000");
    assert_eq!(to_positional("5.0E-1"), "0.5");
    assert_eq!(to_positional("1.000E-0"), "1");
    assert_eq!(to_positional("NaN"), "NaN");
    assert_eq!(to_positional("1.5"), "1.5");
    assert_eq!(to_positional("1.5E+1000"), "1.5E+1000");
    assert!(scientific(&"1.5E+0".chars().collect()));
    assert!(!scientific(&"15E+0".chars().collect()));
    assert!(!scientific(&"1.5e+0".chars().collect()));
}

#[test]
fn order_is_that_of_the_host() {
    let values = samples();
    for a in values.iter().take(60) {
        for b in values.iter().take(60) {
            assert_eq!(less(a.to_bits(), b.to_bits()), a < b, "{a} < {b}");
            assert_eq!(at_most(a.to_bits(), b.to_bits()), a <= b, "{a} <= {b}");
            assert_eq!(equal(a.to_bits(), b.to_bits()), a == b, "{a} == {b}");
        }
    }
}

#[test]
fn negation_flips_the_sign() {
    for value in samples() {
        assert_eq!(negate(value.to_bits()), (-value).to_bits());
        assert_eq!(negate(negate(value.to_bits())), value.to_bits());
        assert_eq!(nan(value.to_bits()), value.is_nan());
    }
    assert_eq!(negate(0.0_f64.to_bits()), (-0.0_f64).to_bits());
}

#[test]
fn a_zero_divisor_gives_an_infinity_or_a_nan() {
    let inf = f64::INFINITY.to_bits();
    let minus_inf = f64::NEG_INFINITY.to_bits();
    for dividend in [1.0, 0.5, 5e-324, f64::MAX, f64::INFINITY] {
        assert_eq!(divide(f64::to_bits(dividend), f64::to_bits(0.0)), inf);
        assert_eq!(divide(f64::to_bits(-dividend), f64::to_bits(0.0)), minus_inf);
        assert_eq!(divide(f64::to_bits(dividend), f64::to_bits(-0.0)), minus_inf);
        assert_eq!(divide(f64::to_bits(-dividend), f64::to_bits(-0.0)), inf);
    }
    for dividend in [0.0, -0.0] {
        for divisor in [0.0, -0.0] {
            let nothing = divide(f64::to_bits(dividend), f64::to_bits(divisor));
            assert_eq!(nothing, 0x7FF8_0000_0000_0000);
            assert!(f64::from_bits(nothing).is_nan());
        }
    }
    assert_eq!(divide(f64::to_bits(1.0), f64::to_bits(4.0)), f64::to_bits(0.25));
    assert_eq!(divide(f64::to_bits(1.0), f64::to_bits(3.0)), f64::to_bits(1.0 / 3.0));
}
