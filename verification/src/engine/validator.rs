//! The capability every concrete check implements.

use vstd::prelude::*;

use crate::engine::error::ErrorModel;
use crate::engine::error::ValidationError;

verus! {

/// A validator checks one value of type `T` and either passes or reports a
/// structured diagnostic.
///
/// Each implementor says, as specification functions, exactly which values
/// it `accepts` and which diagnostic (`failure`) it reports when it does
/// not. A validator is pure: for fixed construction parameters the outcome
/// depends on the value alone, so one instance may be shared across any
/// number of calls.
pub trait Validator<T> {
    /// Whether this validator passes `value`.
    spec fn accepts(&self, value: &T) -> bool;

    /// The diagnostic reported when `value` is not accepted.
    spec fn failure(&self, value: &T) -> ErrorModel;

    /// Check `value`: `Ok(())` exactly when the value is accepted, the
    /// implementor's diagnostic otherwise.
    fn validate(&self, value: &T) -> (r: Result<(), ValidationError>)
        ensures
            r is Ok <==> self.accepts(value),
            r matches Err(e) ==> e@ == self.failure(value),
    ;
}

} // verus!
