//! A declarative validation framework.
//!
//! Fields of an aggregate are bound to an ordered list of validator
//! invocations; the rule compiler checks the bindings once, at schema
//! registration time, and the engine then evaluates them with two
//! strategies: fail-fast (stop at the first failing validator) and
//! complete (collect every failure, grouped per field). Validation of
//! entities that reference other entities is kept from recursing without
//! bound by a reentrancy guard keyed on entity type.

use vstd::prelude::*;

pub mod aggregate;
pub mod compiler;
pub mod engine;
pub mod laws;
pub mod schema;
pub mod text;
pub mod validate;
pub mod validators;

pub use crate::engine::error::ValidationError;

verus! {

/// Run one validator against one value and hand the outcome to one of two
/// callbacks: `on_ok` for a pass, `on_err` for a failure together with the
/// diagnostic the validator produced.
pub fn print_check<T, V, FOK, FERR>(v: &V, value: &T, on_ok: FOK, on_err: FERR) where
    V: crate::engine::validator::Validator<T>,
    FOK: Fn(&T),
    FERR: Fn(&T, &ValidationError),

    requires
        on_ok.requires((value,)),
        forall|e: ValidationError| on_err.requires((value, &e)),
{
    match v.validate(value) {
        Ok(()) => on_ok(value),
        Err(e) => on_err(value, &e),
    }
}

} // verus!
