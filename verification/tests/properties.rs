use cpf_gen::structs::CpfUtils;
use cpf_gen::utils::{cpf_state, generate_cpf, validate_cpf};

#[test]
fn round_trip_for_fixed_seeds() {
    let seeds: [[u8; 9]; 4] = [
        [0, 0, 0, 0, 0, 0, 0, 0, 0],
        [9, 9, 9, 9, 9, 9, 9, 9, 9],
        [2, 8, 0, 0, 1, 2, 3, 8, 9],
        [1, 1, 1, 4, 4, 4, 7, 7, 7],
    ];
    for seed in seeds {
        let cpf = generate_cpf(None, Some(seed));
        assert_eq!(validate_cpf(&cpf.cpf).ok(), Some("Valid CPF.".to_string()));
        assert_eq!(validate_cpf(&cpf.cpf_formatted).ok(), Some("Valid CPF.".to_string()));
    }
}

#[test]
fn known_check_digits() {
    let cpf = generate_cpf(None, Some([1, 1, 1, 4, 4, 4, 7, 7, 7]));
    assert_eq!(cpf.cpf, "11144477735");
    assert_eq!(cpf.cpf_formatted, "111.444.777-35");
}

#[test]
fn region_digit_survives_generation() {
    for r in 0..=9u8 {
        let cpf = generate_cpf(Some(r), None);
        assert_eq!(cpf.cpf.as_bytes()[8], b'0' + r);
    }
}

#[test]
fn region_table_is_total() {
    for r in 0..=9u8 {
        let cpf = generate_cpf(Some(r), None);
        assert!(!cpf.cpf_state.is_empty());
    }
}

#[test]
fn region_table_entries() {
    let expected: [&[&str]; 10] = [
        &["RS"],
        &["DF", "GO", "MT", "MS", "TO"],
        &["AC", "AM", "AP", "PA", "RO", "RR"],
        &["CE", "MA", "PI"],
        &["AL", "PB", "PE", "RN"],
        &["BA", "SE"],
        &["MG"],
        &["ES", "RJ"],
        &["SP"],
        &["PR", "SC"],
    ];
    for d in 0..=9u8 {
        let raw = format!("00000000{}00", d);
        let regions = cpf_state(&raw);
        let want: Vec<String> = expected[d as usize].iter().map(|s| s.to_string()).collect();
        assert_eq!(regions, want);
    }
}

#[test]
fn formatted_matches_pattern() {
    let cpf = generate_cpf(None, None);
    let bytes = cpf.cpf_formatted.as_bytes();
    assert_eq!(bytes.len(), 14);
    for (i, b) in bytes.iter().enumerate() {
        match i {
            3 | 7 => assert_eq!(*b, b'.'),
            11 => assert_eq!(*b, b'-'),
            _ => assert!(b.is_ascii_digit()),
        }
    }
}

#[test]
fn length_mismatch_reports_actual_count() {
    assert_eq!(
        validate_cpf("123").err().unwrap(),
        "Invalid CPF. Must have 11 digits. It has 3"
    );
    assert_eq!(
        validate_cpf("").err().unwrap(),
        "Invalid CPF. Must have 11 digits. It has 0"
    );
    assert_eq!(
        validate_cpf("...---").err().unwrap(),
        "Invalid CPF. Must have 11 digits. It has 0"
    );
    assert_eq!(
        validate_cpf("1234567890").err().unwrap(),
        "Invalid CPF. Must have 11 digits. It has 10"
    );
    assert_eq!(
        validate_cpf("123456789012").err().unwrap(),
        "Invalid CPF. Must have 11 digits. It has 12"
    );
}

#[test]
fn non_digit_among_first_nine_is_rejected() {
    assert_eq!(
        validate_cpf("1234a678901").err().unwrap(),
        "Invalid character in CPF. Must have 11 digits."
    );
    // Eleven Arabic-Indic digits: the count is right, but they are not ASCII
    // digits.
    assert_eq!(
        validate_cpf("\u{661}\u{661}\u{661}\u{661}\u{661}\u{661}\u{661}\u{661}\u{661}\u{661}\u{661}")
            .err()
            .unwrap(),
        "Invalid character in CPF. Must have 11 digits."
    );
}

#[test]
fn combining_mark_counts_as_one_grapheme() {
    // Twelve characters but eleven grapheme clusters: the first cluster is a
    // digit with a combining tilde, which is not a plain digit. A byte- or
    // character-based count would report a length mismatch instead.
    assert_eq!(
        validate_cpf("2\u{0303}8001238938").err().unwrap(),
        "Invalid character in CPF. Must have 11 digits."
    );
}

#[test]
fn trailing_characters_only_fail_the_comparison() {
    // The first nine digits parse, so validation recomputes the identifier
    // and only then compares it against the whole stripped candidate.
    assert_eq!(validate_cpf("280012389xx").err().unwrap(), "Invalid CPF.");
    assert_eq!(validate_cpf("28001238933").err().unwrap(), "Invalid CPF.");
}

#[test]
fn separators_are_stripped_wherever_they_stand() {
    assert_eq!(
        validate_cpf("2.8.0-0.1-2.3.8-9.3-8").ok(),
        Some("Valid CPF.".to_string())
    );
}

#[test]
fn staged_verifier_numbers() {
    let mut utils = CpfUtils::new(Some([2, 8, 0, 0, 1, 2, 3, 8, 9]), None);
    utils.set_verifier_numbers();
    assert_eq!(utils.get_verifier_numbers(), [3, 8]);
    assert_eq!(utils.set_cpf_seed_with_first_verifier(), [8, 0, 0, 1, 2, 3, 8, 9, 3]);
    // A second call recomputes the second verifier from the staged seed and
    // changes nothing.
    utils.set_verifier_numbers();
    assert_eq!(utils.get_verifier_numbers(), [3, 8]);
    assert_eq!(utils.seed, [2, 8, 0, 0, 1, 2, 3, 8, 9]);
}

#[test]
fn new_seed_honours_state_code() {
    let utils = CpfUtils::new(None, Some(7));
    assert_eq!(utils.seed[8], 7);
    for d in utils.seed {
        assert!(d < 10);
    }
}
