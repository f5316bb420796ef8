//! The concrete checks shipped with the framework. Each one implements the
//! [`crate::engine::validator::Validator`] capability with an exact
//! specification of what it accepts and which diagnostic it reports.

pub mod email_validator;
pub mod max_length;
pub mod min_length;
pub mod not_allowed_chars;
pub mod positive_number_validator;

pub use email_validator::Email;
pub use max_length::MaxLength;
pub use min_length::MinLength;
pub use not_allowed_chars::NotAllowedChars;
pub use positive_number_validator::Positive;
