use validator::aggregate::Arena;
use validator::aggregate::Entity;
use validator::schema::FieldBinding;
use validator::schema::FieldValue;
use validator::schema::ValidatorInvocation;

fn text_field(key: &str, value: &str, validators: Vec<ValidatorInvocation>) -> FieldBinding {
    FieldBinding {
        key: key.to_string(),
        value: FieldValue::Text(value.to_string()),
        validators,
    }
}

fn number_field(key: &str, value: i32, validators: Vec<ValidatorInvocation>) -> FieldBinding {
    FieldBinding {
        key: key.to_string(),
        value: FieldValue::Number(value),
        validators,
    }
}

fn user_arena(name: &str, address: &str, role: &str, email: &str, age: i32) -> Arena {
    let user = Entity {
        type_key: "User".to_string(),
        fields: vec![
            text_field("name", name, vec![ValidatorInvocation::MaxLength(10)]),
            text_field("address", address, vec![ValidatorInvocation::MinLength(10)]),
            text_field(
                "role",
                role,
                vec![ValidatorInvocation::NotAllowedChars(vec!["CHEF".to_string()])],
            ),
            text_field("email", email, vec![ValidatorInvocation::Email]),
            number_field("age", age, vec![ValidatorInvocation::Positive]),
        ],
        members: vec![],
    };
    Arena::compile(vec![user]).unwrap()
}

fn string_range_arena(name: &str) -> Arena {
    let entity = Entity {
        type_key: "StringRange".to_string(),
        fields: vec![text_field(
            "name",
            name,
            vec![
                ValidatorInvocation::MinLength(3),
                ValidatorInvocation::MaxLength(10),
            ],
        )],
        members: vec![],
    };
    Arena::compile(vec![entity]).unwrap()
}

#[test]
fn user_valid_ok() {
    let arena = user_arena(
        "Test",
        "Boulevard Null Pointer",
        "Admin",
        "john@example.com",
        30,
    );
    assert!(arena.validate(0).is_ok());
}

#[test]
fn user_invalid_email_first() {
    let arena = user_arena(
        "Test",
        "Boulevard Null Pointer",
        "Admin",
        "invalid@",
        30,
    );
    let err = arena.validate(0).unwrap_err();
    assert_eq!(err.code, "email");
}

#[test]
fn user_invalid_age() {
    let arena = user_arena(
        "Test",
        "Boulevard Null Pointer",
        "Admin",
        "john@example.com",
        0,
    );
    let err = arena.validate(0).unwrap_err();
    assert_eq!(err.code, "positive");
}

#[test]
fn user_invalid_length() {
    let arena = user_arena(
        "Test1234567890",
        "Boulevard Null Pointer",
        "Admin",
        "john@example.com",
        30,
    );
    let err = arena.validate(0).unwrap_err();
    assert_eq!(err.code, "max_length");
}

#[test]
fn address_invalid_length() {
    let arena = user_arena("Test", "NULL", "Admin", "john@example.com", 30);
    let err = arena.validate(0).unwrap_err();
    assert_eq!(err.code, "min_length");
}

#[test]
fn user_not_allowed_chars() {
    let arena = user_arena(
        "Test",
        "Boulevard Null Pointer",
        "CHEF",
        "john@example.com",
        30,
    );
    let err = arena.validate(0).unwrap_err();
    assert_eq!(err.code, "not_allowed_chars");
}

#[test]
fn range_ok() {
    let arena = string_range_arena("Test");
    assert!(arena.validate(0).is_ok());
}

#[test]
fn range_min_error() {
    let arena = string_range_arena("T");
    let err = arena.validate(0).unwrap_err();
    assert_eq!(err.code, "min_length");
}

#[test]
fn mutliple_validate_range_max_error() {
    let arena = string_range_arena("Test1234567890");
    let err = arena.validate(0).unwrap_err();
    assert_eq!(err.code, "max_length");
}

#[test]
fn complete_validate_range_max_error() {
    let multi = Entity {
        type_key: "MultiError".to_string(),
        fields: vec![
            text_field(
                "first_name",
                "AC",
                vec![
                    ValidatorInvocation::MinLength(3),
                    ValidatorInvocation::NotAllowedChars(vec!["C".to_string()]),
                ],
            ),
            text_field(
                "last_name",
                "AB",
                vec![
                    ValidatorInvocation::MinLength(3),
                    ValidatorInvocation::NotAllowedChars(vec!["C".to_string()]),
                ],
            ),
        ],
        members: vec![],
    };
    let arena = Arena::compile(vec![multi]).unwrap();
    let err = arena.complete_validate(0).unwrap_err();
    assert_eq!(err.len(), 2);
    assert_eq!(err.get("first_name").map(|v| v.len()), Some(2));
    assert_eq!(err.get("last_name").map(|v| v.len()), Some(1));
}
