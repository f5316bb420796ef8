//! A check that a string looks like an email address.

use vstd::prelude::*;

use crate::engine::error::spec_message;
use crate::engine::error::ErrorModel;
use crate::engine::error::ValidationError;
use crate::engine::validator::Validator;

verus! {

/// Whether a string has the shape of an email address: one run of
/// characters without whitespace or `@`, an `@`, then a domain that
/// contains a dot, again without whitespace or further `@`s. The exact
/// boundary is drawn by the pattern given to the regex engine in
/// [`email_format_matches`]; this name stands for that judgement.
pub uninterp spec fn email_format_ok(s: Seq<char>) -> bool;

/// Relies on `regex::Regex::new` and `regex::Regex::is_match`: the pattern
/// is the fixed literal `^[^@\s]+@[^@\s]+\.[^@\s]+$`, so whether it matches
/// the whole string is a function of the string's characters alone. The
/// pattern is a valid regex, so compiling it cannot fail; the `Err` arm is
/// unreachable and kept only to avoid a panic path.
#[verifier::external_body]
fn email_format_matches(value: &str) -> (r: bool)
    ensures
        r == email_format_ok(value@),
{
    match regex::Regex::new(r"^[^@\s]+@[^@\s]+\.[^@\s]+$") {
        Ok(re) => re.is_match(value),
        Err(_) => false,
    }
}

/// The diagnostic an [`Email`] check reports: code `email`, the custom
/// message when one was set, and no parameters.
pub open spec fn email_failure(message: Option<Seq<char>>) -> ErrorModel {
    ErrorModel {
        code: "email"@,
        message: match message {
            Some(m) => m,
            None => "Invalid email format"@,
        },
        params: Seq::empty(),
    }
}

/// Marker for checks that validate email-shaped strings.
pub trait EmailValidator: Validator<String> {

}

/// Checks that a string has the shape of an email address.
pub struct Email {
    pub message: Option<String>,
}

impl Default for Email {
    fn default() -> (r: Self)
        ensures
            r.message is None,
    {
        Email { message: None }
    }
}

impl Email {
    /// Replace the default diagnostic message.
    pub fn with_message(self, msg: &str) -> (r: Self)
        ensures
            r.message matches Some(m) && m@ == msg@,
    {
        Email { message: Some(msg.to_owned()) }
    }
}

impl Validator<String> for Email {
    open spec fn accepts(&self, value: &String) -> bool {
        email_format_ok(value@)
    }

    open spec fn failure(&self, value: &String) -> ErrorModel {
        email_failure(spec_message(self.message))
    }

    fn validate(&self, value: &String) -> (r: Result<(), ValidationError>) {
        if email_format_matches(value.as_str()) {
            Ok(())
        } else {
            let e = match &self.message {
                Some(m) => ValidationError::new("email", m.as_str()),
                None => ValidationError::new("email", "Invalid email format"),
            };
            proof {
                assert(e@ =~= self.failure(value));
            }
            Err(e)
        }
    }
}

impl EmailValidator for Email {

}

} // verus!
