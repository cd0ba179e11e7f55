//! The library's error taxonomy.

use vstd::prelude::*;

verus! {

/// Why an operation was refused or could not answer.
#[derive(Clone, Copy, Debug, PartialEq, Eq, Structural)]
pub enum Error {
    /// The requested row does not exist.
    NotFound,
    /// An authorization gate evaluated to "no".
    PermissionDenied,
    /// Purge was attempted on a comment with direct replies.
    HasChildren,
    /// A group or user referenced during a permission check is missing:
    /// corrupted data, not a normal denial.
    IntegrityFault,
    /// A username holds a character outside letters, digits, `-` and `_`.
    UsernameInvalid,
    /// An article url holds a character that urls here may not use.
    UrlInvalid,
    /// A new password is shorter than the minimum length.
    PasswordTooShort,
    /// A supplied password does not match the stored credential.
    WrongPassword,
    /// The password hashing backend failed.
    CryptoFailure,
    /// An insert would reuse a key that a row already carries.
    Conflict,
    /// A spam trap field was filled out.
    SpamSuspected,
    /// Initial setup was requested although users already exist.
    SetupComplete,
}

impl Error {
    /// A short human-readable description, for the unverified outer layers.
    pub fn message(&self) -> &'static str {
        match self {
            Error::NotFound => "Not found",
            Error::PermissionDenied => "Permission denied",
            Error::HasChildren => "Can't purge comment with direct children",
            Error::IntegrityFault => "Referenced group or user is missing",
            Error::UsernameInvalid => "Username contains illegal character",
            Error::UrlInvalid => "Illegal character in article url",
            Error::PasswordTooShort => "Passwords must be at least 8 characters long",
            Error::WrongPassword => "Wrong password",
            Error::CryptoFailure => "Password hashing failed",
            Error::Conflict => "A row with this key already exists",
            Error::SpamSuspected => "You're not supposed to fill out this field",
            Error::SetupComplete => "Initial setup already complete",
        }
    }
}

} // verus!
