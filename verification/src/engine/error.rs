//! The structured diagnostic a failing validator reports.

use vstd::prelude::*;

verus! {

/// The mathematical model of a [`ValidationError`]: the code, the message
/// and the parameter list, each as a sequence of characters.
pub ghost struct ErrorModel {
    pub code: Seq<char>,
    pub message: Seq<char>,
    pub params: Seq<(Seq<char>, Seq<char>)>,
}

/// The view of an optional custom message.
pub open spec fn spec_message(message: Option<String>) -> Option<Seq<char>> {
    match message {
        Some(m) => Some(m@),
        None => None,
    }
}

/// A structured diagnostic: a stable, machine-matchable `code`, a
/// human-readable `message`, and named parameters rendered as strings,
/// kept in the order they were attached.
///
/// Codes are free-form strings chosen by each validator; the engine never
/// interprets them.
#[derive(Debug, Clone, PartialEq, Eq)]
pub struct ValidationError {
    pub code: String,
    pub message: String,
    pub params: Vec<(String, String)>,
}

impl View for ValidationError {
    type V = ErrorModel;

    open spec fn view(&self) -> ErrorModel {
        ErrorModel {
            code: self.code@,
            message: self.message@,
            params: self.params@.map_values(|p: (String, String)| (p.0@, p.1@)),
        }
    }
}

impl DeepView for ValidationError {
    type V = ErrorModel;

    open spec fn deep_view(&self) -> ErrorModel {
        self.view()
    }
}

impl ValidationError {
    /// Start a diagnostic from its code and message; parameters are
    /// attached afterwards, builder style.
    pub fn new(code: &str, message: &str) -> (r: Self)
        ensures
            r@.code == code@,
            r@.message == message@,
            r@.params == Seq::<(Seq<char>, Seq<char>)>::empty(),
    {
        let r = ValidationError {
            code: code.to_owned(),
            message: message.to_owned(),
            params: Vec::new(),
        };
        proof {
            assert(r@.params =~= Seq::<(Seq<char>, Seq<char>)>::empty());
        }
        r
    }

    /// Attach one named, string-rendered parameter; the order of
    /// attachment is kept.
    pub fn with_param(self, key: &str, value: &str) -> (r: Self)
        ensures
            r@.code == self@.code,
            r@.message == self@.message,
            r@.params == self@.params.push((key@, value@)),
    {
        let mut r = self;
        let ghost before = r@.params;
        r.params.push((key.to_owned(), value.to_owned()));
        proof {
            assert(r@.params =~= before.push((key@, value@)));
        }
        r
    }
}

} // verus!
