//! The declarative schema surface: field values, validator invocations and
//! field bindings, together with the evaluation of a single invocation and
//! the folds over one field's invocation list that the two generated
//! evaluation strategies are specified against.

use vstd::pervasive::arbitrary;
use vstd::prelude::*;

use crate::engine::error::ErrorModel;
use crate::engine::error::ValidationError;
use crate::engine::validator::Validator;
use crate::text::spec_contains;
use crate::validators::email_validator::email_failure;
use crate::validators::email_validator::email_format_ok;
use crate::validators::email_validator::Email;
use crate::validators::max_length::max_length_failure;
use crate::validators::max_length::MaxLength;
use crate::validators::min_length::min_length_failure;
use crate::validators::min_length::MinLength;
use crate::validators::not_allowed_chars::not_allowed_failure;
use crate::validators::not_allowed_chars::spec_first_hit;
use crate::validators::not_allowed_chars::NotAllowedChars;
use crate::validators::positive_number_validator::positive_failure;
use crate::validators::positive_number_validator::Positive;

verus! {

/// The value of one field of an entity, as handed to the validators.
#[derive(Debug)]
pub enum FieldValue {
    /// A string-valued field.
    Text(String),
    /// A number-valued field.
    Number(i32),
}

/// One validator reference in a schema: the validator type together with
/// the literal constructor arguments, forwarded verbatim when the
/// invocation is evaluated. A variant without arguments stands for the
/// default-constructed validator.
#[derive(Debug)]
pub enum ValidatorInvocation {
    /// [`Email`], default-constructed.
    Email,
    /// [`Positive`], default-constructed.
    Positive,
    /// [`MinLength`] with the given bound.
    MinLength(u32),
    /// [`MaxLength`] with the given bound.
    MaxLength(u32),
    /// [`NotAllowedChars`] with the given forbidden strings.
    NotAllowedChars(Vec<String>),
}

/// Whether an invocation fits the type of a field value: the string
/// checks apply to text, the sign check to numbers.
pub open spec fn spec_applies_to(inv: ValidatorInvocation, value: FieldValue) -> bool {
    match inv {
        ValidatorInvocation::Email => value is Text,
        ValidatorInvocation::MinLength(_) => value is Text,
        ValidatorInvocation::MaxLength(_) => value is Text,
        ValidatorInvocation::NotAllowedChars(_) => value is Text,
        ValidatorInvocation::Positive => value is Number,
    }
}

/// Decide [`spec_applies_to`].
pub fn applies_to(inv: &ValidatorInvocation, value: &FieldValue) -> (b: bool)
    ensures
        b == spec_applies_to(*inv, *value),
{
    match inv {
        ValidatorInvocation::Positive => matches!(value, FieldValue::Number(_)),
        _ => matches!(value, FieldValue::Text(_)),
    }
}

/// Whether the validator named by `inv` passes `value`. Combinations that
/// do not type-check are rejected by the rule compiler and count as not
/// accepted here.
pub open spec fn check_accepts(inv: ValidatorInvocation, value: FieldValue) -> bool {
    match (inv, value) {
        (ValidatorInvocation::Email, FieldValue::Text(s)) => email_format_ok(s@),
        (ValidatorInvocation::MinLength(limit), FieldValue::Text(s)) => s@.len() >= limit,
        (ValidatorInvocation::MaxLength(limit), FieldValue::Text(s)) => s@.len() <= limit,
        (ValidatorInvocation::NotAllowedChars(f), FieldValue::Text(s)) => forall|i: int|
            0 <= i < f@.len() ==> !spec_contains(s@, #[trigger] f.deep_view()[i]),
        (ValidatorInvocation::Positive, FieldValue::Number(n)) => n > 0,
        _ => false,
    }
}

/// The diagnostic the validator named by `inv` reports when it does not
/// pass `value`. Only meaningful where [`spec_applies_to`] holds and
/// [`check_accepts`] does not.
pub open spec fn check_failure(inv: ValidatorInvocation, value: FieldValue) -> ErrorModel {
    match (inv, value) {
        (ValidatorInvocation::Email, FieldValue::Text(s)) => email_failure(None),
        (ValidatorInvocation::MinLength(limit), FieldValue::Text(s)) => min_length_failure(
            limit,
            None,
            s@,
        ),
        (ValidatorInvocation::MaxLength(limit), FieldValue::Text(s)) => max_length_failure(
            limit,
            None,
            s@,
        ),
        (ValidatorInvocation::NotAllowedChars(f), FieldValue::Text(s)) => not_allowed_failure(
            f.deep_view()[spec_first_hit(f.deep_view(), s@)],
            None,
        ),
        (ValidatorInvocation::Positive, FieldValue::Number(n)) => positive_failure(None),
        _ => arbitrary(),
    }
}

/// Evaluate one invocation against one value: construct the validator it
/// names, with its declared arguments, and run it.
pub fn apply_check(inv: &ValidatorInvocation, value: &FieldValue) -> (r: Result<
    (),
    ValidationError,
>)
    requires
        spec_applies_to(*inv, *value),
    ensures
        r is Ok <==> check_accepts(*inv, *value),
        r matches Err(e) ==> e@ == check_failure(*inv, *value),
{
    match inv {
        ValidatorInvocation::Email => match value {
            FieldValue::Text(s) => Email::default().validate(s),
            FieldValue::Number(_) => {
                proof {
                    assert(false);
                }
                Ok(())
            },
        },
        ValidatorInvocation::Positive => match value {
            FieldValue::Number(n) => Positive::default().validate(n),
            FieldValue::Text(_) => {
                proof {
                    assert(false);
                }
                Ok(())
            },
        },
        ValidatorInvocation::MinLength(limit) => match value {
            FieldValue::Text(s) => MinLength::new(*limit).validate(s),
            FieldValue::Number(_) => {
                proof {
                    assert(false);
                }
                Ok(())
            },
        },
        ValidatorInvocation::MaxLength(limit) => match value {
            FieldValue::Text(s) => MaxLength::new(*limit).validate(s),
            FieldValue::Number(_) => {
                proof {
                    assert(false);
                }
                Ok(())
            },
        },
        ValidatorInvocation::NotAllowedChars(f) => match value {
            FieldValue::Text(s) => {
                let c = f.clone();
                proof {
                    assert(c@ =~= f@);
                    assert(c.deep_view() =~= f.deep_view());
                }
                NotAllowedChars::new(c).validate(s)
            },
            FieldValue::Number(_) => {
                proof {
                    assert(false);
                }
                Ok(())
            },
        },
    }
}

/// One annotated field: its reporting key, its current value and the
/// ordered list of validator invocations declared for it. Fields without
/// any invocation never appear in a schema.
#[derive(Debug)]
pub struct FieldBinding {
    pub key: String,
    pub value: FieldValue,
    pub validators: Vec<ValidatorInvocation>,
}

/// One reference field: its reporting key and the entities it references,
/// as indices into the arena that holds them.
#[derive(Debug)]
pub struct MemberField {
    pub key: String,
    pub targets: Vec<usize>,
}

/// A schema-authoring error, reported once when the schema is compiled
/// and never at validation time. Each variant names the first offending
/// position, in declaration order.
#[derive(Debug, PartialEq, Eq, Structural)]
pub enum SchemaError {
    /// The named validator invocation does not fit the type of its field's
    /// value.
    InvalidValidator { entity: usize, field: usize, validator: usize },
    /// The annotated field at `field` repeats an earlier annotated
    /// field's reporting key.
    DuplicateFieldKey { entity: usize, field: usize },
    /// The reference field at `member` repeats the reporting key of an
    /// annotated field or of an earlier reference field.
    DuplicateMemberKey { entity: usize, member: usize },
    /// A reference field points outside the arena.
    TargetOutOfRange { entity: usize, member: usize, target: usize },
}

/// Whether every invocation declared for `f` fits the field's value.
pub open spec fn field_wf(f: FieldBinding) -> bool {
    forall|i: int|
        0 <= i < f.validators@.len() ==> spec_applies_to(#[trigger] f.validators@[i], f.value)
}

/// The first failing invocation's diagnostic, in declaration order, or
/// `None` when every invocation passes.
pub open spec fn spec_checks_first_failure(
    value: FieldValue,
    checks: Seq<ValidatorInvocation>,
) -> Option<ErrorModel>
    decreases checks.len(),
{
    if checks.len() == 0 {
        None
    } else if !check_accepts(checks.first(), value) {
        Some(check_failure(checks.first(), value))
    } else {
        spec_checks_first_failure(value, checks.drop_first())
    }
}

/// The diagnostics of all failing invocations, in declaration order.
pub open spec fn spec_checks_failures(
    value: FieldValue,
    checks: Seq<ValidatorInvocation>,
) -> Seq<ErrorModel>
    decreases checks.len(),
{
    if checks.len() == 0 {
        Seq::empty()
    } else {
        let init = spec_checks_failures(value, checks.drop_last());
        if check_accepts(checks.last(), value) {
            init
        } else {
            init.push(check_failure(checks.last(), value))
        }
    }
}

/// Fail-fast evaluation of one field: run its invocations in declaration
/// order and stop at the first failure.
pub fn validate_field(field: &FieldBinding) -> (r: Result<(), ValidationError>)
    requires
        field_wf(*field),
    ensures
        r is Ok <==> spec_checks_first_failure(field.value, field.validators@) is None,
        r matches Err(e) ==> Some(e@) == spec_checks_first_failure(field.value, field.validators@),
{
    let n = field.validators.len();
    proof {
        assert(field.validators@.subrange(0, n as int) =~= field.validators@);
    }
    let mut i: usize = 0;
    while i < n
        invariant
            field_wf(*field),
            n == field.validators@.len(),
            i <= n,
            spec_checks_first_failure(field.value, field.validators@)
                == spec_checks_first_failure(
                field.value,
                field.validators@.subrange(i as int, n as int),
            ),
        decreases n - i,
    {
        let ghost rest = field.validators@.subrange(i as int, n as int);
        proof {
            assert(rest.first() == field.validators@[i as int]);
            assert(rest.drop_first() =~= field.validators@.subrange(i as int + 1, n as int));
        }
        match apply_check(&field.validators[i], &field.value) {
            Err(e) => {
                return Err(e);
            },
            Ok(()) => {
                i = i + 1;
            },
        }
    }
    Ok(())
}

/// Complete evaluation of one field: run every invocation in declaration
/// order and collect each failure.
pub fn collect_field_failures(field: &FieldBinding) -> (errs: Vec<ValidationError>)
    requires
        field_wf(*field),
    ensures
        errs.deep_view() == spec_checks_failures(field.value, field.validators@),
{
    let n = field.validators.len();
    let mut errs: Vec<ValidationError> = Vec::new();
    proof {
        assert(errs.deep_view() =~= spec_checks_failures(
            field.value,
            field.validators@.subrange(0, 0),
        ));
    }
    let mut i: usize = 0;
    while i < n
        invariant
            field_wf(*field),
            n == field.validators@.len(),
            i <= n,
            errs.deep_view() == spec_checks_failures(
                field.value,
                field.validators@.subrange(0, i as int),
            ),
        decreases n - i,
    {
        let ghost prefix = field.validators@.subrange(0, i as int + 1);
        proof {
            assert(prefix.last() == field.validators@[i as int]);
            assert(prefix.drop_last() =~= field.validators@.subrange(0, i as int));
        }
        let ghost before = errs.deep_view();
        match apply_check(&field.validators[i], &field.value) {
            Err(e) => {
                let ghost em = e@;
                errs.push(e);
                proof {
                    assert(errs.deep_view() =~= before.push(em));
                }
            },
            Ok(()) => {
            },
        }
        i = i + 1;
    }
    proof {
        assert(field.validators@.subrange(0, n as int) =~= field.validators@);
    }
    errs
}

} // verus!
