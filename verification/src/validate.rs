//! Self-validating values: the contract every generated validation pair
//! meets, and the composition adapter that pairs one bare value with one
//! validator type for ad-hoc use outside the compiled-schema path.

use core::marker::PhantomData;
use vstd::pervasive::arbitrary;
use vstd::prelude::*;

use crate::aggregate::ErrorMap;
use crate::engine::error::ErrorModel;
use crate::engine::error::ValidationError;
use crate::engine::validator::Validator;
use crate::validators::email_validator::email_failure;
use crate::validators::email_validator::email_format_ok;
use crate::validators::email_validator::Email;
use crate::validators::max_length::max_length_failure;
use crate::validators::max_length::MaxLength;
use crate::validators::min_length::min_length_failure;
use crate::validators::min_length::MinLength;
use crate::validators::not_allowed_chars::NotAllowedChars;
use crate::validators::positive_number_validator::positive_failure;
use crate::validators::positive_number_validator::Positive;

verus! {

/// A value that can validate itself.
///
/// Implementors say, as specification functions, exactly when they are
/// valid, which diagnostic fail-fast validation reports, and which
/// error-map entries complete validation reports.
pub trait Validate {
    /// Whether the value is valid.
    spec fn spec_valid(&self) -> bool;

    /// The diagnostic fail-fast validation reports when the value is not
    /// valid.
    spec fn spec_failure(&self) -> ErrorModel;

    /// The error-map entries complete validation reports: by default a
    /// single entry under the key `value`, holding the fail-fast
    /// diagnostic.
    open spec fn spec_error_entries(&self) -> Seq<(Seq<char>, Seq<ErrorModel>)> {
        if self.spec_valid() {
            Seq::empty()
        } else {
            seq![("value"@, seq![self.spec_failure()])]
        }
    }

    /// Validate, stopping at the first failing check.
    fn validate(&self) -> (r: Result<(), ValidationError>)
        ensures
            r is Ok <==> self.spec_valid(),
            r matches Err(e) ==> e@ == self.spec_failure(),
    ;

    /// Validate every check and group the failures per field.
    fn complete_validate(&self) -> (r: Result<(), ErrorMap>)
        ensures
            r is Ok <==> self.spec_valid(),
            r matches Err(m) ==> m@ == self.spec_error_entries(),
    ;
}

/// The fallback from fail-fast to complete validation: report the single
/// fail-fast error under the key `value`.
pub fn fallback_complete(r: Result<(), ValidationError>) -> (out: Result<(), ErrorMap>)
    ensures
        out is Ok <==> r is Ok,
        r matches Err(e) ==> out matches Err(m) && m@ == seq![("value"@, seq![e@])],
{
    match r {
        Ok(()) => Ok(()),
        Err(e) => {
            let ghost em = e@;
            let mut errs: Vec<ValidationError> = Vec::new();
            errs.push(e);
            let mut entries: Vec<(String, Vec<ValidationError>)> = Vec::new();
            entries.push(("value".to_owned(), errs));
            let m = ErrorMap { entries };
            proof {
                assert(m@[0].1 =~= seq![em]);
                assert(m@ =~= seq![("value"@, seq![em])]);
            }
            Err(m)
        },
    }
}

/// The composition adapter: pairs a bare value of type `T` with a
/// validator type `V`, and validates the value with the
/// default-constructed `V`. This lets a single value be validated without
/// going through a compiled schema.
pub struct With<V, T>(pub T, pub PhantomData<V>);

impl<V, T> With<V, T> {
    /// Wrap a bare value.
    pub fn new(value: T) -> (r: Self)
        ensures
            r.0 == value,
    {
        With(value, PhantomData)
    }

    /// Hand the wrapped value back.
    pub fn into_inner(self) -> (r: T)
        ensures
            r == self.0,
    {
        self.0
    }
}

impl Validate for With<Email, String> {
    open spec fn spec_valid(&self) -> bool {
        email_format_ok(self.0@)
    }

    open spec fn spec_failure(&self) -> ErrorModel {
        email_failure(None)
    }

    fn validate(&self) -> (r: Result<(), ValidationError>) {
        Email::default().validate(&self.0)
    }

    fn complete_validate(&self) -> (r: Result<(), ErrorMap>) {
        fallback_complete(self.validate())
    }
}

impl Validate for With<MinLength, String> {
    open spec fn spec_valid(&self) -> bool {
        self.0@.len() >= u32::MAX
    }

    open spec fn spec_failure(&self) -> ErrorModel {
        min_length_failure(u32::MAX, None, self.0@)
    }

    fn validate(&self) -> (r: Result<(), ValidationError>) {
        MinLength::default().validate(&self.0)
    }

    fn complete_validate(&self) -> (r: Result<(), ErrorMap>) {
        fallback_complete(self.validate())
    }
}

impl Validate for With<MaxLength, String> {
    open spec fn spec_valid(&self) -> bool {
        self.0@.len() <= u32::MAX
    }

    open spec fn spec_failure(&self) -> ErrorModel {
        max_length_failure(u32::MAX, None, self.0@)
    }

    fn validate(&self) -> (r: Result<(), ValidationError>) {
        MaxLength::default().validate(&self.0)
    }

    fn complete_validate(&self) -> (r: Result<(), ErrorMap>) {
        fallback_complete(self.validate())
    }
}

impl Validate for With<NotAllowedChars, String> {
    /// The default [`NotAllowedChars`] forbids nothing, so the wrapped
    /// value is always valid.
    open spec fn spec_valid(&self) -> bool {
        true
    }

    open spec fn spec_failure(&self) -> ErrorModel {
        arbitrary()
    }

    fn validate(&self) -> (r: Result<(), ValidationError>) {
        NotAllowedChars::default().validate(&self.0)
    }

    fn complete_validate(&self) -> (r: Result<(), ErrorMap>) {
        fallback_complete(self.validate())
    }
}

impl Validate for With<Positive, i32> {
    open spec fn spec_valid(&self) -> bool {
        self.0 > 0
    }

    open spec fn spec_failure(&self) -> ErrorModel {
        positive_failure(None)
    }

    fn validate(&self) -> (r: Result<(), ValidationError>) {
        Positive::default().validate(&self.0)
    }

    fn complete_validate(&self) -> (r: Result<(), ErrorMap>) {
        fallback_complete(self.validate())
    }
}

} // verus!
