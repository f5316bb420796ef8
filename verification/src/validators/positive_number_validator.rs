//! A sign check on a number.

use vstd::prelude::*;
use vstd::string::StringExecFns;

use crate::engine::error::ErrorModel;
use crate::engine::error::ValidationError;
use crate::engine::error::spec_message;
use crate::engine::validator::Validator;

verus! {

/// The diagnostic a failing [`Positive`] check reports: code `positive`
/// and no parameters.
pub open spec fn positive_failure(message: Option<Seq<char>>) -> ErrorModel {
    ErrorModel {
        code: "positive"@,
        message: match message {
            Some(m) => m,
            None => "Value must be a positive number"@,
        },
        params: Seq::empty(),
    }
}

/// Marker for checks that validate the sign of a number.
pub trait PositiveNumberValidator: Validator<i32> {

}

/// Checks that a number is strictly greater than zero.
pub struct Positive {
    pub message: Option<String>,
}

impl Default for Positive {
    fn default() -> (r: Self)
        ensures
            r.message is None,
    {
        Positive { message: None }
    }
}

impl Positive {
    /// Replace the default diagnostic message.
    pub fn with_message(self, msg: &str) -> (r: Self)
        ensures
            r.message matches Some(m) && m@ == msg@,
    {
        Positive { message: Some(msg.to_owned()) }
    }
}

impl Validator<i32> for Positive {
    open spec fn accepts(&self, value: &i32) -> bool {
        *value > 0
    }

    open spec fn failure(&self, value: &i32) -> ErrorModel {
        positive_failure(spec_message(self.message))
    }

    fn validate(&self, value: &i32) -> (r: Result<(), ValidationError>) {
        if *value > 0 {
            Ok(())
        } else {
            let e = match &self.message {
                Some(m) => ValidationError::new("positive", m.as_str()),
                None => ValidationError::new("positive", "Value must be a positive number"),
            };
            proof {
                assert(e@ =~= self.failure(value));
            }
            Err(e)
        }
    }
}

impl PositiveNumberValidator for Positive {

}

} // verus!
