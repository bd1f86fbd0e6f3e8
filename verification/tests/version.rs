use jgnash_launcher::decimal::Decimal;
use jgnash_launcher::version::combined_output;
use jgnash_launcher::version::parse_version;
use jgnash_launcher::version::scan_version;
use jgnash_launcher::version::validate;
use jgnash_launcher::version::ParsedVersion;
use jgnash_launcher::version::MINIMUM_DECIMALS;
use jgnash_launcher::version::MINIMUM_SCALED;
use jgnash_launcher::version::NOMINAL_MINIMUM;

/// The value of a version without exponent, as a floating-point number.
fn value(version: &ParsedVersion) -> f64 {
    match version {
        ParsedVersion::Number(Decimal::Finite { negative, digits, decimals, exponent, .. }) => {
            assert!(!*negative);
            assert!(exponent.is_empty());
            let mut number = 0.0_f64;
            for d in digits {
                number = number * 10.0 + f64::from(*d);
            }
            number / 10.0_f64.powi(*decimals as i32)
        }
        other => panic!("not a finite number: {:?}", other),
    }
}

fn finite(digits: Vec<u8>, decimals: usize) -> ParsedVersion {
    ParsedVersion::Number(Decimal::Finite {
        negative: false,
        digits,
        decimals,
        exponent_negative: false,
        exponent: vec![],
    })
}

/// What a single-precision reader decides about the collected text.
fn single_precision_accepts(collected: &str) -> bool {
    match collected.parse::<f32>() {
        Ok(v) => v >= 11.0 - (2.0 * f32::EPSILON),
        Err(_) => false,
    }
}

#[test]
fn patch_component_is_discarded() {
    let v = parse_version("11.0.2");
    assert_eq!(v, finite(vec![1, 1, 0], 1));
    assert_eq!(value(&v), 11.0);
}

#[test]
fn major_version_alone_is_a_version() {
    let v = parse_version("17");
    assert_eq!(v, finite(vec![1, 7], 0));
    assert_eq!(value(&v), 17.0);
}

#[test]
fn legacy_version_scheme() {
    let v = parse_version("1.8.0_292");
    assert_eq!(v, finite(vec![1, 8], 1));
    assert_eq!(value(&v), 1.8);
    assert!(!v.meets_minimum());
}

#[test]
fn leading_words_and_trailing_date_are_skipped() {
    let v = parse_version("openjdk 21.0.1 2023-10-17");
    assert_eq!(v, finite(vec![2, 1, 0], 1));
    assert_eq!(value(&v), 21.0);
    assert!(v.meets_minimum());
}

#[test]
fn white_space_after_the_point_ends_the_scan() {
    assert_eq!(parse_version("17.2 LTS 2024"), finite(vec![1, 7, 2], 1));
    assert_eq!(parse_version("17.2\t9"), finite(vec![1, 7, 2], 1));
    assert_eq!(parse_version("17.2\n9"), finite(vec![1, 7, 2], 1));
    assert_eq!(parse_version("17.2\r9"), finite(vec![1, 7, 2], 1));
    assert_eq!(parse_version("17.2\x0C9"), finite(vec![1, 7, 2], 1));
}

#[test]
fn vertical_tab_is_no_white_space() {
    assert_eq!(parse_version("17.2\x0B9"), finite(vec![1, 7, 2, 9], 2));
}

#[test]
fn white_space_before_the_point_does_not_end_the_scan() {
    assert_eq!(parse_version("java 8 build 21.0"), finite(vec![8, 2, 1, 0], 1));
    assert_eq!(parse_version("openjdk 17 2021-09-14"), finite(vec![1, 7, 2, 0, 2, 1, 0, 9, 1, 4], 0));
}

#[test]
fn qualifier_after_the_version_is_dropped() {
    assert_eq!(parse_version("openjdk 22.1-ea 2024"), finite(vec![2, 2, 1], 1));
}

#[test]
fn point_without_decimals() {
    assert_eq!(parse_version("17. "), finite(vec![1, 7], 0));
    assert_eq!(parse_version("x.5"), finite(vec![5], 1));
}

#[test]
fn empty_input_is_unparseable() {
    let v = parse_version("");
    assert_eq!(v, ParsedVersion::Unparseable);
    assert!(v.is_unparseable());
    assert!(!v.meets_minimum());
    assert!(!validate(""));
}

#[test]
fn input_without_digits_is_unparseable() {
    for text in ["no version here", "java", " \t\n", "-", "inf", "nan", "e", "v.", ". .", "a.b.c"] {
        let v = parse_version(text);
        assert_eq!(v, ParsedVersion::Unparseable, "{:?}", text);
        assert!(!v.meets_minimum(), "{:?}", text);
        assert!(!validate(text), "{:?}", text);
    }
}

#[test]
fn non_ascii_digits_are_no_digits() {
    assert_eq!(parse_version("\u{ff11}\u{ff17}"), ParsedVersion::Unparseable);
    assert_eq!(parse_version("\u{0661}\u{0667}.\u{0660}"), ParsedVersion::Unparseable);
}

#[test]
fn lone_point_is_surfaced_as_unread_text() {
    let scan = scan_version("version . unknown");
    assert_eq!(scan.version, ParsedVersion::Unparseable);
    assert_eq!(scan.unread, Some(String::from(".")));
}

#[test]
fn nothing_is_unread_where_nothing_was_collected() {
    let scan = scan_version("unknown");
    assert_eq!(scan.version, ParsedVersion::Unparseable);
    assert_eq!(scan.unread, None);
}

#[test]
fn nothing_is_unread_where_a_version_was_found() {
    let scan = scan_version("openjdk 11.0.2");
    assert_eq!(scan.version, finite(vec![1, 1, 0], 1));
    assert_eq!(scan.unread, None);
}

#[test]
fn exact_nominal_minimum_is_accepted() {
    for text in ["11.0", "11", "11.", "11.000000000000000000000000000000", "011.0", "openjdk 11.0.2"] {
        assert!(parse_version(text).meets_minimum(), "{:?}", text);
        assert!(validate(text), "{:?}", text);
    }
}

#[test]
fn versions_above_the_minimum_are_accepted() {
    for text in ["11.1", "12", "17.0.9", "21.0.1", "100", "99999999999999999999999999999999999999999999.5"] {
        assert!(validate(text), "{:?}", text);
    }
}

#[test]
fn versions_below_the_minimum_are_rejected() {
    for text in ["10.9", "10", "1.8.0_292", "9.0.4", "0.11", "0", "0.0", "10.99999", "1.1"] {
        assert!(!validate(text), "{:?}", text);
    }
}

#[test]
fn minimum_is_eleven_less_two_to_the_minus_twenty_one() {
    // 2^-21 = 0.000000476837158203125
    assert_eq!(NOMINAL_MINIMUM, 11);
    assert_eq!(MINIMUM_DECIMALS, 21);
    assert_eq!(MINIMUM_SCALED, 11 * 10_u128.pow(21) - 476_837_158_203_125);
    assert_eq!(MINIMUM_SCALED * (1 << 21) + 10_u128.pow(21), 11 * (1 << 21) * 10_u128.pow(21));
}

#[test]
fn margin_below_the_nominal_minimum() {
    assert!(validate("10.999999523162841796875"));
    assert!(validate("10.9999995231628417968750000"));
    assert!(validate("10.999999523162841796875000000000000000000000000001"));
    assert!(validate("10.9999996"));
    assert!(validate("10.99999999"));
    assert!(!validate("10.999999523162841796874"));
    assert!(!validate("10.999999523162841796874999999999999999999999999999"));
    assert!(!validate("10.9999995"));
    assert!(!validate("10.999999"));
}

#[test]
fn decision_is_that_of_a_single_precision_reader() {
    let texts = [
        "11.0",
        "11",
        "10.9",
        "10.99999",
        "10.999999",
        "10.9999994",
        "10.9999995",
        "10.99999952",
        "10.99999953",
        "10.9999996",
        "10.9999999",
        "10.999999523162841796874",
        "10.999999523162841796875",
        "10.999999523162841796876",
        "10.9999990463256835937",
        "11.0000001",
        "1.8",
        "17.0",
        "21.",
        ".5",
        "0",
        "00000000000000000000000000011.0",
        "340282366920938463463374607431768211456",
        "340282366920938463463374607431768211456000000000000000000000000000",
        "0.000000000000000000000000000000000000000000000000000000000000001",
    ];
    for text in texts {
        assert_eq!(validate(text), single_precision_accepts(text), "{:?}", text);
    }
}

/// A plain scan, character by character, with a single-precision reader at its end.
fn plain_scan_accepts(text: &str) -> bool {
    let mut collected = String::new();
    let mut point_seen = false;
    for c in text.chars() {
        if c.is_ascii_digit() {
            collected.push(c);
        }
        if c == '.' {
            if point_seen {
                break;
            }
            collected.push(c);
            point_seen = true;
        }
        if c.is_ascii_whitespace() && point_seen {
            break;
        }
    }
    single_precision_accepts(&collected)
}

#[test]
fn generated_texts_are_decided_as_by_a_plain_scan() {
    let alphabet: Vec<char> = "0123456789019..  \t\n-_+eEaj\u{e9}".chars().collect();
    let mut state: u64 = 0x2545_f491_4f6c_dd1d;
    let mut accepted = 0;
    for _ in 0..20000 {
        let mut text = String::new();
        state = state.wrapping_mul(6364136223846793005).wrapping_add(1442695040888963407);
        let length = (state >> 59) as usize;
        for _ in 0..length {
            state = state.wrapping_mul(6364136223846793005).wrapping_add(1442695040888963407);
            text.push(alphabet[(state >> 33) as usize % alphabet.len()]);
        }
        let expected = plain_scan_accepts(&text);
        assert_eq!(validate(&text), expected, "{:?}", text);
        assert_eq!(parse_version(&text).meets_minimum(), expected, "{:?}", text);
        if expected {
            accepted += 1;
        }
    }
    assert!(accepted > 1000);
    assert!(accepted < 19000);
}

#[test]
fn standard_output_comes_before_standard_error() {
    assert_eq!(combined_output("openjdk 17.0.2\n", "warning 1.8\n"), "openjdk 17.0.2\nwarning 1.8\n");
    assert_eq!(combined_output("", ""), "");
    assert_eq!(combined_output("a", ""), "a");
    assert_eq!(combined_output("", "b"), "b");
}

#[test]
fn version_on_standard_output_is_found_first() {
    assert!(validate(&combined_output("openjdk 17.0.2 2022-01-18\n", "java version \"1.8.0_292\"\n")));
    assert!(!validate(&combined_output("java 1.8.0_292\n", "openjdk 17.0.2\n")));
}

#[test]
fn version_on_standard_error_is_found_where_standard_output_holds_none() {
    assert!(validate(&combined_output("", "openjdk version \"17.0.2\" 2022-01-18\n")));
    assert!(!validate(&combined_output("", "java version \"1.8.0_292\"\n")));
    assert!(!validate(&combined_output("", "")));
}
