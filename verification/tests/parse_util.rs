use rspice::num::Num;
use rspice::parse_util::{parse_named_value, parse_unitvalue, parse_value};
use rspice::SpiceError;

fn num_f64(n: &Num) -> f64 {
    let mut s = String::new();
    if n.neg {
        s.push('-');
    }
    if n.digits.is_empty() {
        s.push('0');
    } else {
        for d in n.digits.iter() {
            s.push((b'0' + *d) as char);
        }
    }
    s.push('e');
    s += &n.exp.to_string();
    s.parse::<f64>().unwrap()
}

#[test]
fn test_parse_value_pass_normal() {
    let actual: f64 = num_f64(&parse_value("2.0").unwrap());
    let expected: f64 = 2.0;
    assert_eq!(actual, expected, "we are testing parse_value with {} and {}", actual, expected);
}

#[test]
fn test_parse_value_pass_start_point() {
    let actual: f64 = num_f64(&parse_value(".03").unwrap());
    let expected: f64 = 0.03;
    assert_eq!(actual, expected, "we are testing parse_value with {} and {}", actual, expected);
}

#[test]
fn test_parse_value_pass_exp() {
    let actual: f64 = num_f64(&parse_value("4e3").unwrap());
    let expected: f64 = 4e3;
    assert_eq!(actual, expected, "we are testing parse_value with {} and {}", actual, expected);
}

#[test]
fn test_parse_value_pass_u() {
    let actual: f64 = num_f64(&parse_value("4u").unwrap());
    let expected: f64 = 4e-6;
    assert_eq!(actual, expected, "we are testing parse_value with {} and {}", actual, expected);
}

#[test]
fn test_parse_value_pass_meg() {
    let actual: f64 = num_f64(&parse_value("4MEG").unwrap());
    let expected: f64 = 4e6;
    assert_eq!(actual, expected, "we are testing parse_value with {} and {}", actual, expected);
}

#[test]
fn test_parse_value_error() {
    let actual = parse_value("a");
    assert!(actual.is_err(), "Expected an error, but got a result: {:?}", actual);
}

#[test]
fn test_parse_unitvalue_pass_normal() {
    let actual: f64 = num_f64(&parse_unitvalue("2.0V", &["V", "v"]).unwrap());
    let expected: f64 = 2.0;
    assert_eq!(actual, expected, "we are testing parse_value with {} and {}", actual, expected);
}

#[test]
fn test_parse_unitvalue_pass_start_point() {
    let actual: f64 = num_f64(&parse_unitvalue(".03A", &["A"]).unwrap());
    let expected: f64 = 0.03;
    assert_eq!(actual, expected, "we are testing parse_value with {} and {}", actual, expected);
}

#[test]
fn test_parse_unitvalue_pass_exp() {
    let actual: f64 = num_f64(&parse_unitvalue("4e3", &["s"]).unwrap());
    let expected: f64 = 4e3;
    assert_eq!(actual, expected, "we are testing parse_value with {} and {}", actual, expected);
}

#[test]
fn test_parse_unitvalue_pass_u() {
    let actual: f64 = num_f64(&parse_unitvalue("4uF", &["F"]).unwrap());
    let expected: f64 = 4e-6;
    assert_eq!(actual, expected, "we are testing parse_value with {} and {}", actual, expected);
}

#[test]
fn test_parse_unitvalue_pass_meg() {
    let actual: f64 = num_f64(&parse_unitvalue("4MEGHz", &["Hz"]).unwrap());
    let expected: f64 = 4e6;
    assert_eq!(actual, expected, "we are testing parse_value with {} and {}", actual, expected);
}

#[test]
fn test_parse_unitvalue_error() {
    let actual = parse_unitvalue("a", &["Hz"]);
    assert!(actual.is_err(), "Expected an error, but got a result: {:?}", actual);
}

#[test]
fn test_parse_named_value_pass_normal() {
    let actual: f64 = num_f64(&parse_named_value("IC=2.0V", "IC", &["V", "v"]).unwrap());
    let expected: f64 = 2.0;
    assert_eq!(actual, expected, "we are testing parse_value with {} and {}", actual, expected);
}

#[test]
fn test_suffix_table() {
    assert_eq!(num_f64(&parse_value("2k").unwrap()), 2e3);
    assert_eq!(num_f64(&parse_value("2K").unwrap()), 2e3);
    assert_eq!(num_f64(&parse_value("2M").unwrap()), 2e6);
    assert_eq!(num_f64(&parse_value("2G").unwrap()), 2e9);
    assert_eq!(num_f64(&parse_value("2m").unwrap()), 2e-3);
    assert_eq!(num_f64(&parse_value("2u").unwrap()), 2e-6);
    assert_eq!(num_f64(&parse_value("2n").unwrap()), 2e-9);
    assert_eq!(num_f64(&parse_value("2p").unwrap()), 2e-12);
}

#[test]
fn test_meg_takes_precedence_over_single_char() {
    // The whole token ends in 'G', which alone selects 1e9 — but the
    // exact "MEG" suffix is checked first, so the value is 7e6.
    assert_eq!(num_f64(&parse_value("7MEG").unwrap()), 7e6);
}

#[test]
fn test_plain_value_without_suffix() {
    assert_eq!(num_f64(&parse_value("-12.5").unwrap()), -12.5);
    assert_eq!(num_f64(&parse_value("+3").unwrap()), 3.0);
    assert_eq!(num_f64(&parse_value("5.").unwrap()), 5.0);
    assert_eq!(num_f64(&parse_value("1e-2").unwrap()), 0.01);
    assert_eq!(num_f64(&parse_value("1E2").unwrap()), 100.0);
}

#[test]
fn test_malformed_number_variant() {
    assert!(matches!(parse_value(""), Err(SpiceError::MalformedNumber)));
    assert!(matches!(parse_value("--3"), Err(SpiceError::MalformedNumber)));
    assert!(matches!(parse_value("1e"), Err(SpiceError::MalformedNumber)));
    assert!(matches!(parse_value("."), Err(SpiceError::MalformedNumber)));
    assert!(matches!(parse_unitvalue("xV", &["V"]), Err(SpiceError::MalformedNumber)));
}

#[test]
fn test_unitvalue_no_matching_unit_is_plain_resolve() {
    // No unit of the set matches the token's end: the unit set changes
    // nothing and the token resolves as a bare value.
    let with_units = num_f64(&parse_unitvalue("3.3k", &["V", "v"]).unwrap());
    let plain = num_f64(&parse_value("3.3k").unwrap());
    assert_eq!(with_units, plain);
    assert_eq!(with_units, 3.3e3);
}

#[test]
fn test_unitvalue_first_match_wins() {
    // "4m" ends with the unit "m" of the set, which is stripped before
    // the magnitude suffix is looked at.
    assert_eq!(num_f64(&parse_unitvalue("4m", &["m"]).unwrap()), 4.0);
}

#[test]
fn test_named_value_short_token_skips_prefix_check() {
    // A token shorter than 3 characters never has its name prefix
    // stripped, so "C=" two-character forms resolve as bare values.
    assert!(parse_named_value("C=", "C", &[]).is_err());
    assert_eq!(num_f64(&parse_named_value("C=2", "C", &[]).unwrap()), 2.0);
}
