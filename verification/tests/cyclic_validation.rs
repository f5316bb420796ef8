use validator::aggregate::Arena;
use validator::aggregate::Entity;
use validator::schema::FieldBinding;
use validator::schema::FieldValue;
use validator::schema::MemberField;
use validator::schema::ValidatorInvocation;

fn user(email: &str, members: Vec<usize>) -> Entity {
    Entity {
        type_key: "User".to_string(),
        fields: vec![FieldBinding {
            key: "email".to_string(),
            value: FieldValue::Text(email.to_string()),
            validators: vec![ValidatorInvocation::Email],
        }],
        members: vec![MemberField {
            key: "members".to_string(),
            targets: members,
        }],
    }
}

#[test]
fn validate_good_members() {
    let good_child = user("good_child@test.com", vec![]);
    let root = user("root@example.com", vec![0]);
    let arena = Arena::compile(vec![good_child, root]).unwrap();
    assert!(arena.validate(1).is_ok());
}

#[test]
fn validate_bad_members() {
    let bad_child = user("not-an-email", vec![]);
    let root = user("root@example.com", vec![0]);
    let arena = Arena::compile(vec![bad_child, root]).unwrap();
    assert!(arena.validate(1).is_ok());
}

#[test]
fn validate_cyclic_good_members() {
    let root = user("root@example.com", vec![0]);
    let arena = Arena::compile(vec![root]).unwrap();
    assert!(arena.validate(0).is_ok());
}

#[test]
fn validate_cyclic_bad_members() {
    let root = user("not-an-email", vec![0]);
    let arena = Arena::compile(vec![root]).unwrap();
    assert!(arena.validate(0).is_err());
}
