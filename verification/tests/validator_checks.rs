use validator::engine::validator::Validator;
use validator::validators::email_validator::Email;
use validator::validators::max_length::MaxLength;
use validator::validators::min_length::MinLength;
use validator::validators::not_allowed_chars::NotAllowedChars;
use validator::validators::positive_number_validator::Positive;
use validator::ValidationError;

fn param<'a>(e: &'a ValidationError, key: &str) -> Option<&'a str> {
    e.params
        .iter()
        .find(|p| p.0 == key)
        .map(|p| p.1.as_str())
}

#[test]
fn mail_test_email_validator_valid_and_invalid_samples() {
    let email = Email::default();

    assert!(
        email.validate(&"john@example.com".to_string()).is_ok(),
        "john@example.com should be valid"
    );
    assert!(
        email
            .validate(&"alice.smith+tag@sub.example.co.uk".to_string())
            .is_ok(),
        "alice.smith+tag@sub.example.co.uk should be valid"
    );
    assert!(
        email.validate(&"ZTeam@example.com".to_string()).is_ok(),
        "ZTeam@example.com should be valid by format"
    );

    let err = email.validate(&"invalid@".to_string()).unwrap_err();
    assert_eq!(err.code, "email");
    let err = email.validate(&"no-at-symbol".to_string()).unwrap_err();
    assert_eq!(err.code, "email");
    let e = email
        .validate(&"spaces not allowed@example.com".to_string())
        .unwrap_err();
    assert_eq!(e.code, "email");
}

#[test]
fn mail_test_email_validator_more_samples() {
    let email = Email::default();

    assert!(
        email
            .validate(&"example_indeed@strange_example.com".to_string())
            .is_ok(),
        "example_indeed@strange_example.com should be a valid email"
    );
    assert!(
        email
            .validate(&"example-indeed@strange-example.com".to_string())
            .is_ok(),
        "example-indeed@strange-example.com should be a valid email"
    );

    let e = email.validate(&"Abc.example.com".to_string()).unwrap_err();
    assert_eq!(e.code, "email");
    let e = email.validate(&"A@b@c@example.com".to_string()).unwrap_err();
    assert_eq!(e.code, "email");
    let e = email
        .validate(&" leadingwhitespace@example.com".to_string())
        .unwrap_err();
    assert_eq!(e.code, "email");
    let e = email
        .validate(&"trailingwhitespace@example.com ".to_string())
        .unwrap_err();
    assert_eq!(e.code, "email");
}

#[test]
fn validator_tests_email_validator_valid_and_invalid_samples() {
    let email = Email::default();
    let samples: Vec<String> = vec![
        "john@example.com".to_string(),
        "alice.smith+tag@sub.example.co.uk".to_string(),
        "invalid@".to_string(),
        "no-at-symbol".to_string(),
        "spaces not allowed@example.com".to_string(),
        "ZTeam@example.com".to_string(),
    ];

    assert!(
        email.validate(&samples[0]).is_ok(),
        "john@example.com should be valid"
    );
    assert!(
        email.validate(&samples[1]).is_ok(),
        "alice.smith+tag@sub.example.co.uk should be valid"
    );
    assert!(
        email.validate(&samples[5]).is_ok(),
        "ZTeam@example.com should be valid by format"
    );

    assert_eq!(
        email.validate(&samples[2]).unwrap_err().code,
        "email",
        "invalid@ should be invalid"
    );
    assert_eq!(
        email.validate(&samples[3]).unwrap_err().code,
        "email",
        "no-at-symbol should be invalid"
    );
    assert_eq!(
        email.validate(&samples[4]).unwrap_err().code,
        "email",
        "spaces not allowed@example.com should be invalid"
    );
}

#[test]
fn validator_tests_email_validator_more_samples() {
    let email = Email::default();
    let valid_samples: Vec<String> = vec!["example-indeed@strange-example.com".to_string()];

    let invalid_samples: Vec<String> = vec![
        "Abc.example.com".to_string(),
        "A@b@c@example.com".to_string(),
        "this is\"not\\allowed@example.com".to_string(),
        "this\\ still\\\"not\\\\allowed@example.com".to_string(),
        " leadingwhitespace@example.com".to_string(),
        "trailingwhitespace@example.com ".to_string(),
    ];

    for sample in valid_samples {
        assert!(
            email.validate(&sample).is_ok(),
            "'{}' should be a valid email",
            sample
        );
    }

    for sample in invalid_samples {
        assert_eq!(
            email.validate(&sample).unwrap_err().code,
            "email",
            "'{}' should be an invalid email",
            sample
        );
    }
}

#[test]
fn max_length_test_validate_max_length() {
    let v = MaxLength::new(10);
    assert!(
        v.validate(&"0123456789".to_string()).is_ok(),
        "Length of 10 is ok"
    );
    let err = v.validate(&"0123456789123".to_string()).unwrap_err();
    assert_eq!(err.code, "max_length");
    assert_eq!(param(&err, "limit"), Some("10"));
    assert_eq!(param(&err, "len"), Some("13"));
}

#[test]
fn max_length_test_validate_variable_max_length() {
    let v = MaxLength::new(5);
    assert!(v.validate(&"12345".to_string()).is_ok());
    let err = v.validate(&"123456".to_string()).unwrap_err();
    assert_eq!(err.code, "max_length");
    assert_eq!(param(&err, "limit"), Some("5"));
    assert_eq!(param(&err, "len"), Some("6"));
}

#[test]
fn min_length_test_validate_max_length() {
    let v = MinLength::new(10);
    assert!(
        v.validate(&"0123456789".to_string()).is_ok(),
        "Length of 10 is ok"
    );
    let err = v.validate(&"123456789".to_string()).unwrap_err();
    assert_eq!(err.code, "min_length", "Length of 9 is not ok");
    assert_eq!(param(&err, "limit"), Some("10"));
    assert_eq!(param(&err, "len"), Some("9"));
}

#[test]
fn min_length_test_validate_variable_max_length() {
    let v = MinLength::new(5);
    assert!(v.validate(&"12345".to_string()).is_ok());
    let err = v.validate(&"1234".to_string()).unwrap_err();
    assert_eq!(err.code, "min_length");
    assert_eq!(param(&err, "limit"), Some("5"));
    assert_eq!(param(&err, "len"), Some("4"));
}

#[test]
fn not_allowed_chars_test_not_allowed_chars_validator_empty_string() {
    let v = NotAllowedChars::new(vec!["Z".to_string()]);
    assert!(
        v.validate(&"".to_string()).is_ok(),
        "Empty string should be valid"
    );
}

#[test]
fn not_allowed_chars_test_not_allowed_chars_validator_checks() {
    let v = NotAllowedChars::new(vec!["Z".to_string()]);

    assert!(
        v.validate(&"john@example.com".to_string()).is_ok(),
        "'john@example.com' should pass not-allowed-chars check"
    );
    assert!(
        v.validate(&"alice.smith+tag@sub.example.co.uk".to_string())
            .is_ok(),
        "'alice.smith+tag@sub.example.co.uk' should pass not-allowed-chars check"
    );
    assert!(
        v.validate(&"invalid@".to_string()).is_ok(),
        "'invalid@' should pass not-allowed-chars check"
    );
    assert!(
        v.validate(&"no-at-symbol".to_string()).is_ok(),
        "'no-at-symbol' should pass not-allowed-chars check"
    );
    assert!(
        v.validate(&"spaces not allowed@example.com".to_string())
            .is_ok(),
        "'spaces not allowed@example.com' should pass not-allowed-chars check"
    );

    let err = v.validate(&"ZTeam@example.com".to_string()).unwrap_err();
    assert_eq!(err.code, "not_allowed_chars");
    assert_eq!(param(&err, "hit"), Some("Z"));

    let v = NotAllowedChars::new(vec!["P".to_string()]);
    let err = v.validate(&"Player1".to_string()).unwrap_err();
    assert_eq!(err.code, "not_allowed_chars");
    assert_eq!(param(&err, "hit"), Some("P"));
}

#[test]
fn validator_tests_not_allowed_chars_validator_empty_string() {
    let v = NotAllowedChars::new(vec!["Z".to_string()]);
    let sample = "".to_string();
    assert!(v.validate(&sample).is_ok(), "Empty string should be valid");
}

#[test]
fn validator_tests_not_allowed_chars_validator_checks() {
    let v = NotAllowedChars::new(vec!["Z".to_string()]);
    let samples: Vec<String> = vec![
        "john@example.com".to_string(),
        "alice.smith+tag@sub.example.co.uk".to_string(),
        "invalid@".to_string(),
        "no-at-symbol".to_string(),
        "spaces not allowed@example.com".to_string(),
        "ZTeam@example.com".to_string(),
    ];

    for sample in samples.iter().take(samples.len() - 1) {
        assert!(
            v.validate(sample).is_ok(),
            "'{}' should pass not-allowed-chars check",
            sample
        );
    }
    let err = v.validate(&samples[5]).unwrap_err();
    assert_eq!(
        err.code, "not_allowed_chars",
        "'ZTeam@example.com' should fail not-allowed-chars check"
    );
    assert_eq!(param(&err, "hit"), Some("Z"));
}

#[test]
fn positive_test_positive_validator_checks_numbers() {
    let v = Positive::default();

    assert!(v.validate(&5).is_ok(), "5 should be valid (> 0)");
    let err = v.validate(&0).unwrap_err();
    assert_eq!(err.code, "positive");
    let err = v.validate(&(-3)).unwrap_err();
    assert_eq!(err.code, "positive");
    assert!(v.validate(&42).is_ok(), "42 should be valid");
    assert!(v.validate(&i32::MAX).is_ok(), "i32::MAX should be valid");
    let err = v.validate(&i32::MIN).unwrap_err();
    assert_eq!(err.code, "positive");
}

#[test]
fn validator_tests_positive_validator_checks_numbers() {
    let v = Positive::default();
    let samples = [5, 0, -3, 42, i32::MAX, i32::MIN];

    assert!(v.validate(&samples[0]).is_ok(), "5 should be valid (> 0)");
    assert_eq!(
        v.validate(&samples[1]).unwrap_err().code,
        "positive",
        "0 should be invalid"
    );
    assert_eq!(
        v.validate(&samples[2]).unwrap_err().code,
        "positive",
        "-3 should be invalid"
    );
    assert!(v.validate(&samples[3]).is_ok(), "42 should be valid");
    assert!(v.validate(&samples[4]).is_ok(), "i32::MAX should be valid");
    assert_eq!(
        v.validate(&samples[5]).unwrap_err().code,
        "positive",
        "i32::MIN should be invalid"
    );
}
