use potd::engine::{generate, generate_range, seed_to_des, PotdError, DEFAULT_SEED};

const ALPHABET_CHARS: &str = "23456789ABCDEFGHJKLMNPQRSTUVWXYZ";

#[test]
fn generate_is_deterministic() {
    let a = generate("2023-01-01", "admin").unwrap();
    let b = generate("2023-01-01", "admin").unwrap();
    assert_eq!(a, b);
}

#[test]
fn distinct_seeds_yield_distinct_passwords() {
    let a = generate("2023-01-01", "admin").unwrap();
    let b = generate("2023-01-01", "admiN").unwrap();
    let c = generate("2023-01-01", "bdmin").unwrap();
    assert_ne!(a, b);
    assert_ne!(a, c);
}

#[test]
fn distinct_dates_yield_distinct_passwords() {
    let a = generate("2023-01-01", "admin").unwrap();
    let b = generate("2023-01-02", "admin").unwrap();
    let c = generate("2024-01-01", "admin").unwrap();
    assert_ne!(a, b);
    assert_ne!(a, c);
}

#[test]
fn passwords_have_fixed_length_and_alphabet() {
    for (date, seed) in [
        ("2023-01-01", "admin"),
        ("1999-12-31", "abcd"),
        ("2400-02-29", "zzzzzzzz"),
        ("0001-01-01", "!!!!"),
        ("9999-12-31", "~~~~~~~"),
    ] {
        let p = generate(date, seed).unwrap();
        assert_eq!(p.len(), 8);
        assert!(p.chars().all(|c| ALPHABET_CHARS.contains(c)));
    }
}

#[test]
fn range_matches_single_date_results() {
    let entries = generate_range("2023-01-01", "2023-01-03", "admin").unwrap();
    assert_eq!(entries.len(), 3);
    let expected_keys = ["2023-01-01", "2023-01-02", "2023-01-03"];
    for (i, (key, password)) in entries.iter().enumerate() {
        assert_eq!(key, expected_keys[i]);
        assert_eq!(password, &generate(key, "admin").unwrap());
    }
}

#[test]
fn range_of_one_day_has_one_entry() {
    let entries = generate_range("2023-06-15", "2023-06-15", "admin").unwrap();
    assert_eq!(entries.len(), 1);
    assert_eq!(entries[0].0, "2023-06-15");
    assert_eq!(entries[0].1, generate("2023-06-15", "admin").unwrap());
}

#[test]
fn range_crosses_month_and_year_boundaries() {
    let entries = generate_range("2023-12-30", "2024-01-02", "admin").unwrap();
    let keys: Vec<&str> = entries.iter().map(|(k, _)| k.as_str()).collect();
    assert_eq!(keys, ["2023-12-30", "2023-12-31", "2024-01-01", "2024-01-02"]);
}

#[test]
fn short_and_long_seeds_are_rejected() {
    assert!(matches!(
        generate("2023-01-01", "abc"),
        Err(PotdError::InvalidSeed { .. })
    ));
    assert!(matches!(
        generate("2023-01-01", "abcdefghi"),
        Err(PotdError::InvalidSeed { .. })
    ));
}

#[test]
fn unprintable_seed_is_rejected() {
    assert!(matches!(
        generate("2023-01-01", "ab\tcd"),
        Err(PotdError::InvalidSeed { .. })
    ));
}

#[test]
fn invalid_seed_error_carries_the_input() {
    match generate("2023-01-01", "abc") {
        Err(PotdError::InvalidSeed { input }) => assert_eq!(input, "abc"),
        other => panic!("expected InvalidSeed, got {:?}", other.map(|_| ())),
    }
}

#[test]
fn seed_is_checked_before_date() {
    assert!(matches!(
        generate("not-a-date", "abc"),
        Err(PotdError::InvalidSeed { .. })
    ));
}

#[test]
fn impossible_dates_are_rejected() {
    for bad in [
        "2023-02-30",
        "2023-13-01",
        "2023-00-10",
        "2023-04-31",
        "2023-01-00",
        "0000-01-01",
    ] {
        assert!(
            matches!(generate(bad, "admin"), Err(PotdError::InvalidDate { .. })),
            "{} should be rejected",
            bad
        );
    }
}

#[test]
fn malformed_date_strings_are_rejected() {
    for bad in ["", "2023-1-01", "20230101", "2023/01/01", "23-01-0199", "2023-01-01 "] {
        assert!(
            matches!(generate(bad, "admin"), Err(PotdError::InvalidDate { .. })),
            "{:?} should be rejected",
            bad
        );
    }
}

#[test]
fn leap_years_are_honoured() {
    assert!(generate("2024-02-29", "admin").is_ok());
    assert!(generate("2000-02-29", "admin").is_ok());
    assert!(matches!(
        generate("2023-02-29", "admin"),
        Err(PotdError::InvalidDate { .. })
    ));
    assert!(matches!(
        generate("1900-02-29", "admin"),
        Err(PotdError::InvalidDate { .. })
    ));
}

#[test]
fn reversed_range_is_rejected() {
    assert!(matches!(
        generate_range("2023-01-03", "2023-01-01", "admin"),
        Err(PotdError::InvalidDateRange { .. })
    ));
}

#[test]
fn range_reports_first_invalid_boundary() {
    assert!(matches!(
        generate_range("2023-02-30", "2023-01-01", "admin"),
        Err(PotdError::InvalidDate { .. })
    ));
    match generate_range("2023-01-01", "2023-02-30", "admin") {
        Err(PotdError::InvalidDate { input }) => assert_eq!(input, "2023-02-30"),
        other => panic!("expected InvalidDate, got {:?}", other.map(|_| ())),
    }
}

#[test]
fn default_seed_is_usable() {
    let p = generate("2023-01-01", DEFAULT_SEED).unwrap();
    assert_eq!(p.len(), 8);
}

#[test]
fn seed_to_des_renders_cycled_key_in_hex() {
    assert_eq!(seed_to_des("admin").unwrap(), "61646D696E61646D");
    assert_eq!(seed_to_des("ABCDEFGH").unwrap(), "4142434445464748");
}

#[test]
fn seed_to_des_rejects_bad_seeds() {
    assert!(matches!(seed_to_des("abc"), Err(PotdError::InvalidSeed { .. })));
    assert!(matches!(
        seed_to_des("abcdefghi"),
        Err(PotdError::InvalidSeed { .. })
    ));
}

#[test]
fn golden_single_date_vector() {
    assert_eq!(generate("2023-01-01", "admin").unwrap(), "Y6X4EA5A");
    assert_eq!(generate("2024-02-29", "zzzz").unwrap(), "KRXBKGQ7");
}

#[test]
fn golden_range_vector() {
    let entries = generate_range("2023-01-01", "2023-01-03", "admin").unwrap();
    assert_eq!(
        entries,
        vec![
            ("2023-01-01".to_string(), "Y6X4EA5A".to_string()),
            ("2023-01-02".to_string(), "YGC5542Q".to_string()),
            ("2023-01-03".to_string(), "LP6S5NZS".to_string()),
        ]
    );
}
