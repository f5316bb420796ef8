//! The pieces every validator shares: the structured error value and the
//! validator capability trait.

pub mod error;
pub mod validator;
