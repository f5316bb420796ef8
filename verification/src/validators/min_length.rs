//! A lower bound on the length of a string, counted in characters.

use vstd::prelude::*;
use vstd::string::StrSliceExecFns;
use vstd::string::StringExecFns;

use crate::engine::error::ErrorModel;
use crate::engine::error::ValidationError;
use crate::engine::error::spec_message;
use crate::engine::validator::Validator;
use crate::text::spec_digits;
use crate::text::u64_to_string;

verus! {

/// The default message of a failing [`MinLength`] check.
pub open spec fn min_length_default_message(limit: u32) -> Seq<char> {
    "String too short (min "@ + spec_digits(limit as nat) + ")"@
}

/// The diagnostic a failing [`MinLength`] check reports: code
/// `min_length`, with the bound and the actual length as parameters.
pub open spec fn min_length_failure(
    limit: u32,
    message: Option<Seq<char>>,
    value: Seq<char>,
) -> ErrorModel {
    ErrorModel {
        code: "min_length"@,
        message: match message {
            Some(m) => m,
            None => min_length_default_message(limit),
        },
        params: seq![("limit"@, spec_digits(limit as nat)), ("len"@, spec_digits(value.len()))],
    }
}

/// Marker for checks that put a lower bound on string length.
pub trait MinLengthValidator: Validator<String> {

}

/// Checks that a string has at least `limit` characters.
pub struct MinLength {
    pub limit: u32,
    pub message: Option<String>,
}

impl MinLength {
    /// A check with the given lower bound and the default message.
    pub fn new(max: u32) -> (r: Self)
        ensures
            r.limit == max,
            r.message is None,
    {
        Self { limit: max, message: None }
    }

    /// Replace the default diagnostic message.
    pub fn with_message(self, msg: &str) -> (r: Self)
        ensures
            r.limit == self.limit,
            r.message matches Some(m) && m@ == msg@,
    {
        Self { limit: self.limit, message: Some(msg.to_owned()) }
    }
}

impl Default for MinLength {
    /// The default check bounds by the largest representable limit.
    fn default() -> (r: Self)
        ensures
            r.limit == u32::MAX,
            r.message is None,
    {
        MinLength { limit: u32::MAX, message: None }
    }
}

/// Build the default message text for a failing lower-bound check.
fn min_length_message_string(limit: u32) -> (s: String)
    ensures
        s@ == min_length_default_message(limit),
{
    let mut s = "String too short (min ".to_owned();
    let digits = u64_to_string(limit as u64);
    s.append(digits.as_str());
    s.append(")");
    s
}

impl Validator<String> for MinLength {
    open spec fn accepts(&self, value: &String) -> bool {
        value@.len() >= self.limit
    }

    open spec fn failure(&self, value: &String) -> ErrorModel {
        min_length_failure(self.limit, spec_message(self.message), value@)
    }

    fn validate(&self, value: &String) -> (r: Result<(), ValidationError>) {
        let len = value.as_str().unicode_len();
        if len >= self.limit as usize {
            Ok(())
        } else {
            let limit_digits = u64_to_string(self.limit as u64);
            let len_digits = u64_to_string(len as u64);
            let e = match &self.message {
                Some(m) => ValidationError::new("min_length", m.as_str()),
                None => {
                    let msg = min_length_message_string(self.limit);
                    ValidationError::new("min_length", msg.as_str())
                },
            };
            let e = e.with_param("limit", limit_digits.as_str()).with_param(
                "len",
                len_digits.as_str(),
            );
            proof {
                assert(e@.params =~= self.failure(value).params);
                assert(e@ =~= self.failure(value));
            }
            Err(e)
        }
    }
}

impl MinLengthValidator for MinLength {

}

} // verus!
