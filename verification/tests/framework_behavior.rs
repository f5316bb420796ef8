use validator::aggregate::Arena;
use validator::aggregate::Entity;
use validator::aggregate::ExecutionContext;
use validator::engine::validator::Validator;
use validator::print_check;
use validator::schema::FieldBinding;
use validator::schema::FieldValue;
use validator::schema::MemberField;
use validator::schema::SchemaError;
use validator::schema::ValidatorInvocation;
use validator::validate::Validate;
use validator::validate::With;
use validator::validators::email_validator::Email;
use validator::validators::min_length::MinLength;
use validator::validators::not_allowed_chars::NotAllowedChars;
use validator::validators::positive_number_validator::Positive;
use validator::ValidationError;

fn text_field(key: &str, value: &str, validators: Vec<ValidatorInvocation>) -> FieldBinding {
    FieldBinding {
        key: key.to_string(),
        value: FieldValue::Text(value.to_string()),
        validators,
    }
}

fn param_of<'a>(e: &'a ValidationError, key: &str) -> Option<&'a str> {
    e.params
        .iter()
        .find(|p| p.0 == key)
        .map(|p| p.1.as_str())
}

#[test]
fn fail_fast_returns_first_error_across_fields() {
    let entity = Entity {
        type_key: "Pair".to_string(),
        fields: vec![
            text_field("first", "x", vec![ValidatorInvocation::MinLength(3)]),
            text_field("second", "also-way-too-long", vec![ValidatorInvocation::MaxLength(4)]),
        ],
        members: vec![],
    };
    let arena = Arena::compile(vec![entity]).unwrap();
    let err = arena.validate(0).unwrap_err();
    assert_eq!(err.code, "min_length");
    let map = arena.complete_validate(0).unwrap_err();
    assert_eq!(map.len(), 2);
    assert_eq!(map.get("first").map(|v| v.len()), Some(1));
    assert_eq!(map.get("second").map(|v| v.len()), Some(1));
    assert!(map.get("missing").is_none());
    assert_eq!(map.entries[0].0, "first");
    assert_eq!(map.entries[1].0, "second");
}

#[test]
fn validators_on_one_field_run_in_declared_order() {
    let entity = Entity {
        type_key: "Ordered".to_string(),
        fields: vec![text_field(
            "value",
            "ZY",
            vec![
                ValidatorInvocation::NotAllowedChars(vec!["Y".to_string()]),
                ValidatorInvocation::NotAllowedChars(vec!["Z".to_string()]),
            ],
        )],
        members: vec![],
    };
    let arena = Arena::compile(vec![entity]).unwrap();
    let err = arena.validate(0).unwrap_err();
    assert_eq!(param_of(&err, "hit"), Some("Y"));
    let map = arena.complete_validate(0).unwrap_err();
    let errs = map.get("value").unwrap();
    assert_eq!(errs.len(), 2);
    assert_eq!(param_of(&errs[0], "hit"), Some("Y"));
    assert_eq!(param_of(&errs[1], "hit"), Some("Z"));
}

#[test]
fn single_failure_agrees_across_strategies() {
    let entity = Entity {
        type_key: "Single".to_string(),
        fields: vec![
            text_field("ok_field", "long enough", vec![ValidatorInvocation::MinLength(3)]),
            text_field("bad_field", "x", vec![ValidatorInvocation::MinLength(3)]),
        ],
        members: vec![],
    };
    let arena = Arena::compile(vec![entity]).unwrap();
    let fail_fast = arena.validate(0).unwrap_err();
    let map = arena.complete_validate(0).unwrap_err();
    assert_eq!(map.len(), 1);
    let sole = map.get("bad_field").unwrap();
    assert_eq!(sole.len(), 1);
    assert_eq!(sole[0], fail_fast);
}

#[test]
fn repeated_validation_is_idempotent() {
    let arena = Arena::compile(vec![Entity {
        type_key: "Again".to_string(),
        fields: vec![text_field("name", "T", vec![ValidatorInvocation::MinLength(3)])],
        members: vec![],
    }])
    .unwrap();
    assert_eq!(arena.validate(0), arena.validate(0));
    let m1 = arena.complete_validate(0).unwrap_err();
    let m2 = arena.complete_validate(0).unwrap_err();
    assert_eq!(m1.entries, m2.entries);
}

#[test]
fn cycle_across_two_types_is_cut_at_the_repeated_type() {
    // parent -> child -> parent: the nested parent validation is cut by
    // the guard, while the child's own fields are still checked.
    let parent = Entity {
        type_key: "Parent".to_string(),
        fields: vec![text_field("name", "okay", vec![ValidatorInvocation::MinLength(3)])],
        members: vec![MemberField { key: "child".to_string(), targets: vec![1] }],
    };
    let child = Entity {
        type_key: "Child".to_string(),
        fields: vec![text_field("name", "fine", vec![ValidatorInvocation::MinLength(3)])],
        members: vec![MemberField { key: "parent".to_string(), targets: vec![0] }],
    };
    let arena = Arena::compile(vec![parent, child]).unwrap();
    assert!(arena.validate(0).is_ok());
    assert!(arena.validate(1).is_ok());
}

#[test]
fn referenced_entity_of_another_type_is_really_checked() {
    let parent = Entity {
        type_key: "Parent".to_string(),
        fields: vec![text_field("name", "okay", vec![ValidatorInvocation::MinLength(3)])],
        members: vec![MemberField { key: "child".to_string(), targets: vec![1] }],
    };
    let child = Entity {
        type_key: "Child".to_string(),
        fields: vec![text_field("name", "x", vec![ValidatorInvocation::MinLength(3)])],
        members: vec![],
    };
    let arena = Arena::compile(vec![parent, child]).unwrap();
    let err = arena.validate(0).unwrap_err();
    assert_eq!(err.code, "min_length");
    let map = arena.complete_validate(0).unwrap_err();
    assert_eq!(map.len(), 1);
    assert_eq!(map.get("child").map(|v| v.len()), Some(1));
}

#[test]
fn guarded_context_short_circuits_nested_call() {
    let arena = Arena::compile(vec![Entity {
        type_key: "Guarded".to_string(),
        fields: vec![text_field("name", "x", vec![ValidatorInvocation::MinLength(3)])],
        members: vec![],
    }])
    .unwrap();
    let mut ctx = ExecutionContext::new();
    ctx.enter(&"Guarded".to_string());
    // The entity is invalid, but a nested call for its type reports
    // success without looking at it.
    assert!(arena.validate_at(0, &mut ctx).is_ok());
    assert!(arena.complete_validate_at(0, &mut ctx).is_ok());
    // A fresh top-level call still sees the failure.
    assert!(arena.validate(0).is_err());
}

#[test]
fn field_without_validators_contributes_nothing() {
    let arena = Arena::compile(vec![Entity {
        type_key: "Sparse".to_string(),
        fields: vec![text_field("ignored", "anything at all", vec![])],
        members: vec![],
    }])
    .unwrap();
    assert!(arena.validate(0).is_ok());
    assert!(arena.complete_validate(0).is_ok());
}

#[test]
fn schema_rejects_invocation_on_wrong_value_type() {
    let entity = Entity {
        type_key: "Broken".to_string(),
        fields: vec![FieldBinding {
            key: "age".to_string(),
            value: FieldValue::Number(30),
            validators: vec![ValidatorInvocation::Positive, ValidatorInvocation::Email],
        }],
        members: vec![],
    };
    let err = Arena::compile(vec![entity]).unwrap_err();
    assert_eq!(
        err,
        SchemaError::InvalidValidator { entity: 0, field: 0, validator: 1 }
    );
}

#[test]
fn schema_rejects_duplicate_field_key() {
    let entity = Entity {
        type_key: "Dup".to_string(),
        fields: vec![
            text_field("name", "abc", vec![ValidatorInvocation::MinLength(1)]),
            text_field("name", "def", vec![ValidatorInvocation::MinLength(1)]),
        ],
        members: vec![],
    };
    let err = Arena::compile(vec![entity]).unwrap_err();
    assert_eq!(err, SchemaError::DuplicateFieldKey { entity: 0, field: 1 });
}

#[test]
fn schema_rejects_duplicate_member_key() {
    let entity = Entity {
        type_key: "Dup".to_string(),
        fields: vec![text_field("name", "abc", vec![ValidatorInvocation::MinLength(1)])],
        members: vec![MemberField { key: "name".to_string(), targets: vec![] }],
    };
    let err = Arena::compile(vec![entity]).unwrap_err();
    assert_eq!(err, SchemaError::DuplicateMemberKey { entity: 0, member: 0 });
}

#[test]
fn schema_rejects_reference_outside_arena() {
    let entity = Entity {
        type_key: "Oob".to_string(),
        fields: vec![],
        members: vec![MemberField { key: "other".to_string(), targets: vec![1] }],
    };
    let err = Arena::compile(vec![entity]).unwrap_err();
    assert_eq!(
        err,
        SchemaError::TargetOutOfRange { entity: 0, member: 0, target: 0 }
    );
}

#[test]
fn default_messages_render_the_bound() {
    let err = MinLength::new(5).validate(&"1234".to_string()).unwrap_err();
    assert_eq!(err.message, "String too short (min 5)");
    let err = MinLength::new(120).validate(&"x".to_string()).unwrap_err();
    assert_eq!(err.message, "String too short (min 120)");
    assert_eq!(param_of(&err, "limit"), Some("120"));
    assert_eq!(param_of(&err, "len"), Some("1"));
    let err = validator::validators::max_length::MaxLength::new(1000)
        .validate(&"0123456789".repeat(200))
        .unwrap_err();
    assert_eq!(err.message, "String too long (max 1000)");
    assert_eq!(param_of(&err, "len"), Some("2000"));
}

#[test]
fn custom_messages_replace_the_default() {
    let err = MinLength::new(5)
        .with_message("give me more")
        .validate(&"1234".to_string())
        .unwrap_err();
    assert_eq!(err.message, "give me more");
    assert_eq!(err.code, "min_length");
    let err = Email::default()
        .with_message("that is no address")
        .validate(&"nope".to_string())
        .unwrap_err();
    assert_eq!(err.message, "that is no address");
    let err = Positive::default()
        .with_message("negative")
        .validate(&(-1))
        .unwrap_err();
    assert_eq!(err.message, "negative");
}

#[test]
fn empty_forbidden_string_hits_everything() {
    let v = NotAllowedChars::new(vec!["".to_string()]);
    let err = v.validate(&"abc".to_string()).unwrap_err();
    assert_eq!(err.code, "not_allowed_chars");
    assert_eq!(param_of(&err, "hit"), Some(""));
}

#[test]
fn error_builder_keeps_parameter_order() {
    let e = ValidationError::new("code", "message")
        .with_param("b", "2")
        .with_param("a", "1");
    assert_eq!(e.params, vec![
        ("b".to_string(), "2".to_string()),
        ("a".to_string(), "1".to_string()),
    ]);
}

#[test]
fn with_adapter_validates_the_wrapped_value() {
    let good = With::<Email, String>::new("john@example.com".to_string());
    assert!(good.validate().is_ok());
    assert!(good.complete_validate().is_ok());
    let bad = With::<Email, String>::new("invalid@".to_string());
    assert_eq!(bad.validate().unwrap_err().code, "email");
    let map = bad.complete_validate().unwrap_err();
    assert_eq!(map.len(), 1);
    assert_eq!(map.get("value").map(|v| v.len()), Some(1));
    assert_eq!(With::<Positive, i32>::new(9).into_inner(), 9);
    assert!(With::<Positive, i32>::new(9).validate().is_ok());
    assert!(With::<Positive, i32>::new(0).validate().is_err());
}

#[test]
fn print_check_calls_the_matching_callback() {
    let v = Positive::default();
    print_check(&v, &5, |_| {}, |_, _| panic!("5 is positive"));
    print_check(
        &v,
        &0,
        |_| panic!("0 is not positive"),
        |_, e| assert_eq!(e.code, "positive"),
    );
}
