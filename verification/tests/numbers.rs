use copilot_quota::binary64::Binary64;
use copilot_quota::decimal::{decimal_text, fixed_text, signed_decimal_text};
use copilot_quota::json::Field;
use copilot_quota::numeral::{parse_numeral, trim};
use copilot_quota::types::{count, nonnegative, percent, quota_from_fields, yes, Quota, QuotaFields};

fn number(value: f64) -> Binary64 {
    Binary64::from_bits(value.to_bits())
}

fn float(value: Binary64) -> f64 {
    f64::from_bits(value.to_bits())
}

fn quota(percent_remaining: f64, entitlement: Option<f64>, remaining: Option<f64>) -> Quota {
    Quota {
        percent_remaining: number(percent_remaining),
        entitlement: entitlement.map(number),
        remaining: remaining.map(number),
        unlimited: false,
        has_quota: true,
        token_based_billing: false,
    }
}

fn fields() -> QuotaFields {
    QuotaFields {
        unlimited: None,
        entitlement: None,
        quota_remaining: None,
        remaining: None,
        percent_remaining: None,
        has_quota: None,
        token_based_billing: None,
    }
}

/// A sequence of bit patterns without a pattern to it.
struct Patterns(u64);

impl Patterns {
    fn next(&mut self) -> u64 {
        self.0 ^= self.0 << 13;
        self.0 ^= self.0 >> 7;
        self.0 ^= self.0 << 17;
        self.0
    }

    /// A number of any size, of any kind.
    fn any(&mut self) -> f64 {
        f64::from_bits(self.next())
    }

    /// A number such as quotas have.
    fn usual(&mut self) -> f64 {
        let whole = (self.next() % 4000) as f64;
        match self.next() % 6 {
            0 => whole,
            1 => whole / 10.0,
            2 => whole / 8.0,
            3 => whole / 40.0,
            4 => whole / 20.0 + f64::EPSILON,
            _ => (self.next() as f64) / (u64::MAX as f64) * 110.0,
        }
    }
}

const EDGES: [f64; 26] = [
    0.0,
    -0.0,
    0.5,
    0.25,
    0.75,
    0.05,
    0.049999999999999996,
    0.95,
    1.25,
    1.35,
    2.5,
    99.5,
    99.49999999999999,
    99.95,
    100.0,
    100.00000000000001,
    0.5000000000000001,
    -3.7,
    9007199254740993.0,
    1e300,
    f64::MAX,
    f64::MIN_POSITIVE,
    5e-324,
    f64::INFINITY,
    f64::NEG_INFINITY,
    f64::NAN,
];

fn expected_used_pct(percent_remaining: f64) -> i32 {
    (100.0 - percent_remaining).round().clamp(0.0, 100.0) as i32
}

fn expected_count(value: f64) -> String {
    let text = format!("{value:.1}");
    match text.strip_suffix(".0") {
        Some(whole) => whole.to_string(),
        None => text,
    }
}

fn samples(n: usize) -> Vec<f64> {
    let mut patterns = Patterns(0x9e37_79b9_7f4a_7c15);
    let mut samples: Vec<f64> = EDGES.to_vec();
    for i in 0..n {
        samples.push(if i % 5 == 0 { patterns.any() } else { patterns.usual() });
    }
    samples
}

#[test]
fn used_percentages_round_as_floats_do() {
    for value in samples(400) {
        assert_eq!(quota(value, None, None).used_pct(), expected_used_pct(value), "{value:?}");
    }
    for k in 0..=1000 {
        let value = k as f64 / 10.0;
        assert_eq!(quota(value, None, None).used_pct(), expected_used_pct(value), "{value:?}");
    }
}

#[test]
fn counts_are_written_as_floats_are() {
    for value in samples(400) {
        assert_eq!(count(number(value)), expected_count(value), "{value:?}");
    }
    assert_eq!(count(number(1.6999999999999886)), "1.7");
    assert_eq!(count(number(200.0)), "200");
    assert_eq!(count(number(0.04)), "0");
    assert_eq!(count(number(0.05)), "0.1");
    assert_eq!(count(number(1.25)), "1.2");
    assert_eq!(count(number(7.94)), "7.9");
}

/// What is whole at one place after the point is written whole, from either side.
#[test]
fn a_count_never_grows_a_zero_behind_the_point() {
    assert_eq!(count(number(1.96)), "2");
    assert_eq!(count(number(7.96)), "8");
    assert_eq!(count(number(0.95)), format!("{:.1}", 0.95));
    assert_eq!(count(number(99.99)), "100");
    assert_eq!(count(number(1.04)), "1");
    assert_eq!(count(number(0.049999999999999996)), "0");
    let nearly = quota(0.0, Some(4.35), Some(1.35));
    assert_eq!(float(nearly.used_and_entitlement().unwrap().0), 2.9999999999999996);
    assert_eq!(nearly.used_of_entitlement().unwrap(), "3 of 4.3");
    for value in samples(400) {
        assert!(!count(number(value)).ends_with(".0"), "{value:?}");
    }
}

#[test]
fn fixed_notation_agrees_with_the_formatter() {
    for value in samples(400) {
        assert_eq!(fixed_text(&number(value), false), format!("{value:.0}"), "{value:?}");
        assert_eq!(fixed_text(&number(value), true), format!("{value:.1}"), "{value:?}");
    }
}

#[test]
fn used_amounts_agree_with_float_subtraction() {
    let values = samples(150);
    for (i, entitlement) in values.iter().enumerate() {
        for step in [0usize, 1, 7, 23] {
            let remaining = values[(i + step) % values.len()];
            let (used, limit) =
                quota(0.0, Some(*entitlement), Some(remaining)).used_and_entitlement().unwrap();
            let expected = (entitlement - remaining).max(0.0);
            assert_eq!(float(used), expected, "{entitlement:?} {remaining:?}");
            assert_eq!(limit.to_bits(), entitlement.to_bits());
        }
    }
    assert!(quota(0.0, None, Some(1.0)).used_and_entitlement().is_none());
    assert!(quota(0.0, Some(1.0), None).used_and_entitlement().is_none());
}

#[test]
fn shares_agree_with_float_division() {
    let values: Vec<f64> =
        samples(150).into_iter().filter(|v| v.is_finite() && *v >= 0.0).collect();
    for (i, entitlement) in values.iter().enumerate() {
        for step in [0usize, 1, 5, 17] {
            let remaining = values[(i + step) % values.len()];
            let quota = quota_from_fields(&QuotaFields {
                entitlement: Some(Field::Number(Some(number(*entitlement)))),
                remaining: Some(Field::Number(Some(number(remaining)))),
                ..fields()
            });
            if *entitlement > 0.0 {
                let expected = (remaining * 100.0 / entitlement).clamp(0.0, 100.0);
                assert_eq!(
                    quota.unwrap().percent_remaining.to_bits(),
                    expected.to_bits(),
                    "{remaining:?} of {entitlement:?}"
                );
            } else {
                assert!(quota.is_none());
            }
        }
    }
}

#[test]
fn amounts_agree_with_float_parsing() {
    let mut texts: Vec<String> = Vec::new();
    for value in samples(150) {
        texts.push(format!("{value}"));
        texts.push(format!("{value:e}"));
        texts.push(format!("{value:.3}"));
    }
    for text in [
        "", "+", "-", ".", "+.", "e5", ".e5", "1e", "1e+", "1.", ".5", "+1.5e-3", "-2E2", "00012",
        "1_000", "1,5", "0x10", "inf", "-Infinity", "INF", "infin", "nan", "NaN", "+nan", "nano",
        "1e400", "1e-400", "1e99999999999999999999999999999999999999999999", "0e99999999999999999",
        "1e-99999999999999999999999999999999999999999999", "4.9406564584124654e-324",
        "2.4703282292062327e-324", "2.4703282292062328e-324", "2.2250738585072011e-308",
        "1.7976931348623157e308", "1.7976931348623158e308", "1.7976931348623159e308",
        "9007199254740993", "9007199254740992.99999999999999999999999999999", "1 ", "1e5.0", "1..2",
        "100000000000000000000000000000000000000000000000000000000000000000000000000000e-76", "۳",
    ] {
        texts.push(text.to_string());
    }
    texts.push(format!("0.{}1e400", "0".repeat(399)));
    texts.push(format!("1{}e-500", "0".repeat(500)));
    for text in texts {
        match text.parse::<f64>() {
            Ok(expected) => {
                let read = float(parse_numeral(&text).unwrap());
                if expected.is_nan() {
                    assert!(read.is_nan(), "{text}");
                } else {
                    assert_eq!(read.to_bits(), expected.to_bits(), "{text}");
                }
            }
            Err(_) => assert!(parse_numeral(&text).is_none(), "{text}"),
        }
    }
}

#[test]
fn amounts_are_finite_and_not_below_zero() {
    let amount = |text: &str| nonnegative(&Field::Text(text.to_string())).map(float);
    assert_eq!(amount("\u{2003}250\n"), Some(250.0));
    assert_eq!(amount("-0"), Some(0.0));
    assert_eq!(amount("-1e-320"), None);
    assert_eq!(amount("infinity"), None);
    assert_eq!(amount("1e309"), None);
    assert_eq!(amount("2 50"), None);
    assert_eq!(nonnegative(&Field::Number(Some(number(3.5)))).map(float), Some(3.5));
    assert_eq!(nonnegative(&Field::Number(Some(number(-3.5)))).map(float), None);
    assert_eq!(nonnegative(&Field::Number(None)).map(float), None);
    assert_eq!(nonnegative(&Field::Bool(true)).map(float), None);
    assert_eq!(nonnegative(&Field::Null).map(float), None);
    assert_eq!(nonnegative(&Field::Array).map(float), None);
    assert_eq!(nonnegative(&Field::Object).map(float), None);
    assert_eq!(percent(&Field::Text("1e300".to_string())).map(float), Some(100.0));
    assert_eq!(percent(&Field::Number(Some(number(64.5)))).map(float), Some(64.5));
    assert_eq!(percent(&Field::Number(Some(number(-64.5)))).map(float), None);
}

#[test]
fn clamping_agrees_with_floats() {
    for value in samples(300) {
        let clamped = float(number(value).clamp_percentage());
        if value.is_nan() {
            assert!(clamped.is_nan());
        } else {
            assert_eq!(clamped.to_bits(), value.clamp(0.0, 100.0).to_bits(), "{value:?}");
        }
    }
}

#[test]
fn equality_agrees_with_floats() {
    for a in EDGES {
        for b in EDGES {
            assert_eq!(number(a) == number(b), a == b, "{a:?} {b:?}");
        }
    }
}

#[test]
fn white_space_is_what_the_standard_library_takes_for_it() {
    for c in '\0'..=char::MAX {
        let text = format!("{c}x {c} y{c}");
        assert_eq!(trim(&text), text.trim(), "{c:?}");
    }
    assert_eq!(trim(""), "");
    assert_eq!(trim(" \t "), "");
}

#[test]
fn whole_numbers_are_written_in_decimal() {
    for n in [0u64, 7, 10, 99, 100, 4294967295, 4294967296, u64::MAX] {
        assert_eq!(decimal_text(n), format!("{n}"));
    }
    for n in [0i64, 404, -1, -10, i64::MAX, i64::MIN] {
        assert_eq!(signed_decimal_text(n), format!("{n}"));
    }
}

#[test]
fn less_left_is_never_less_used() {
    let mut last = 100;
    for k in 0..=2000 {
        let used = quota(k as f64 / 20.0, None, None).used_pct();
        assert!(used <= last);
        last = used;
    }
    assert_eq!(last, 0);
}

#[test]
fn whole_percentages_leave_the_rest_to_a_hundred() {
    for k in 0..=100 {
        assert_eq!(quota(k as f64, None, None).used_pct(), 100 - k);
    }
}

#[test]
fn a_quota_outside_the_plan_is_never_used() {
    assert!(yes());
    let mut outside = quota(0.0, Some(0.0), Some(0.0));
    assert!(!outside.in_plan());
    assert_eq!(outside.used_pct(), 0);
    outside.entitlement = Some(number(-0.0));
    assert!(!outside.in_plan());
    outside.unlimited = true;
    assert!(outside.in_plan());
    assert_eq!(outside.used_pct(), 0);
    let mut denied = quota(0.0, Some(5.0), Some(0.0));
    denied.has_quota = false;
    assert!(!denied.in_plan());
    assert_eq!(denied.used_pct(), 0);
    denied.has_quota = true;
    assert!(denied.in_plan());
    assert_eq!(denied.used_pct(), 100);
    assert!(quota(0.0, None, None).in_plan());
}
