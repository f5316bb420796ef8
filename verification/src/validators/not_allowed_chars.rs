//! A check that a string contains none of a list of forbidden substrings.

use vstd::prelude::*;
use vstd::string::StringExecFns;

use crate::engine::error::ErrorModel;
use crate::engine::error::ValidationError;
use crate::engine::error::spec_message;
use crate::engine::validator::Validator;
use crate::text::spec_contains;
use crate::text::str_contains;

verus! {

/// The diagnostic a failing [`NotAllowedChars`] check reports: code
/// `not_allowed_chars`, with the forbidden string that was found as the
/// `hit` parameter.
pub open spec fn not_allowed_failure(hit: Seq<char>, message: Option<Seq<char>>) -> ErrorModel {
    ErrorModel {
        code: "not_allowed_chars"@,
        message: match message {
            Some(m) => m,
            None => "Value contains not allowed string"@,
        },
        params: seq![("hit"@, hit)],
    }
}

/// The index of the first forbidden string that occurs in `value`, or
/// `forbidden.len()` when none does.
pub open spec fn spec_first_hit(forbidden: Seq<Seq<char>>, value: Seq<char>) -> int
    decreases forbidden.len(),
{
    if forbidden.len() == 0 {
        0
    } else if spec_contains(value, forbidden.first()) {
        0
    } else {
        1 + spec_first_hit(forbidden.drop_first(), value)
    }
}

/// What [`spec_first_hit`] returns: the first index whose forbidden string
/// occurs in `value`, with everything before it absent from `value`.
pub proof fn lemma_first_hit(forbidden: Seq<Seq<char>>, value: Seq<char>)
    ensures
        0 <= spec_first_hit(forbidden, value) <= forbidden.len(),
        forall|k: int|
            0 <= k < spec_first_hit(forbidden, value) ==> !spec_contains(
                value,
                #[trigger] forbidden[k],
            ),
        spec_first_hit(forbidden, value) < forbidden.len() ==> spec_contains(
            value,
            forbidden[spec_first_hit(forbidden, value)],
        ),
    decreases forbidden.len(),
{
    if forbidden.len() > 0 && !spec_contains(value, forbidden.first()) {
        lemma_first_hit(forbidden.drop_first(), value);
        assert forall|k: int|
            0 <= k < spec_first_hit(forbidden, value) implies !spec_contains(
            value,
            #[trigger] forbidden[k],
        ) by {
            if k > 0 {
                assert(forbidden.drop_first()[k - 1] == forbidden[k]);
            }
        }
        if spec_first_hit(forbidden, value) < forbidden.len() {
            let h = spec_first_hit(forbidden.drop_first(), value);
            assert(forbidden.drop_first()[h] == forbidden[h + 1]);
        }
    }
}

/// Marker for checks that reject forbidden substrings.
pub trait NotAllowedCharsValidator: Validator<String> {

}

/// Checks that a string contains none of the `forbidden` strings. The
/// forbidden strings are tried in order; the first one found is reported.
pub struct NotAllowedChars {
    pub forbidden: Vec<String>,
    pub message: Option<String>,
}

impl NotAllowedChars {
    /// A check against the given list of forbidden strings.
    pub fn new(forbidden: Vec<String>) -> (r: Self)
        ensures
            r.forbidden == forbidden,
            r.message is None,
    {
        Self { forbidden, message: None }
    }

    /// Replace the default diagnostic message.
    pub fn with_message(self, msg: &str) -> (r: Self)
        ensures
            r.forbidden == self.forbidden,
            r.message matches Some(m) && m@ == msg@,
    {
        Self { forbidden: self.forbidden, message: Some(msg.to_owned()) }
    }
}

impl Default for NotAllowedChars {
    /// The default check forbids nothing.
    fn default() -> (r: Self)
        ensures
            r.forbidden@.len() == 0,
            r.message is None,
    {
        NotAllowedChars { forbidden: Vec::new(), message: None }
    }
}

impl Validator<String> for NotAllowedChars {
    open spec fn accepts(&self, value: &String) -> bool {
        forall|i: int|
            0 <= i < self.forbidden@.len() ==> !spec_contains(
                value@,
                #[trigger] self.forbidden.deep_view()[i],
            )
    }

    open spec fn failure(&self, value: &String) -> ErrorModel {
        not_allowed_failure(
            self.forbidden.deep_view()[spec_first_hit(self.forbidden.deep_view(), value@)],
            spec_message(self.message),
        )
    }

    fn validate(&self, value: &String) -> (r: Result<(), ValidationError>) {
        let mut i: usize = 0;
        while i < self.forbidden.len()
            invariant
                i <= self.forbidden@.len(),
                forall|k: int|
                    0 <= k < i ==> !spec_contains(value@, #[trigger] self.forbidden.deep_view()[k]),
            decreases self.forbidden@.len() - i,
        {
            if str_contains(value.as_str(), self.forbidden[i].as_str()) {
                proof {
                    lemma_first_hit(self.forbidden.deep_view(), value@);
                    assert(self.forbidden.deep_view()[i as int] == self.forbidden@[i as int]@);
                    assert(spec_first_hit(self.forbidden.deep_view(), value@) == i);
                }
                let e = match &self.message {
                    Some(m) => ValidationError::new("not_allowed_chars", m.as_str()),
                    None => ValidationError::new(
                        "not_allowed_chars",
                        "Value contains not allowed string",
                    ),
                };
                let e = e.with_param("hit", self.forbidden[i].as_str());
                proof {
                    assert(e@.params =~= self.failure(value).params);
                    assert(e@ =~= self.failure(value));
                }
                return Err(e);
            }
            i = i + 1;
        }
        Ok(())
    }
}

impl NotAllowedCharsValidator for NotAllowedChars {

}

} // verus!
