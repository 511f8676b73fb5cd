//! Errors of the endpoints.

use crate::saml::error::{ProfileError, ProfileErrorView};
use crate::text::concat;
use vstd::prelude::*;

verus! {

/// Why an endpoint does not answer as asked.
#[derive(Debug, PartialEq, Eq)]
pub enum SamlActixError {
    /// The message, or its sender, is refused.
    Profile(ProfileError),
    /// The message is not one for the endpoint.
    UnsupportedBinding(String),
    /// The endpoint is not configured for the message.
    Configuration(String),
    /// Something went wrong in the endpoint.
    Internal(String),
}

/// What a [`SamlActixError`] says.
#[verifier::ext_equal]
pub enum SamlActixErrorView {
    Profile(ProfileErrorView),
    UnsupportedBinding(Seq<char>),
    Configuration(Seq<char>),
    Internal(Seq<char>),
}

impl View for SamlActixError {
    type V = SamlActixErrorView;

    open spec fn view(&self) -> SamlActixErrorView {
        match *self {
            SamlActixError::Profile(e) => SamlActixErrorView::Profile(e@),
            SamlActixError::UnsupportedBinding(m) => SamlActixErrorView::UnsupportedBinding(m@),
            SamlActixError::Configuration(m) => SamlActixErrorView::Configuration(m@),
            SamlActixError::Internal(m) => SamlActixErrorView::Internal(m@),
        }
    }
}

/// A refusal of a message or of its sender, for a reason.
pub open spec fn refused(reason: Seq<char>) -> SamlActixErrorView {
    SamlActixErrorView::Profile(ProfileErrorView::AssertionValidation(reason))
}

/// A refusal of a message or of its sender, for a reason.
pub fn refuse(reason: String) -> (result: SamlActixError)
    ensures
        result@ == refused(reason@),
{
    SamlActixError::Profile(ProfileError::AssertionValidation(reason))
}

/// A refusal for a reason that names something: `quoted` stands between
/// `before` and `after`.
pub fn refuse_naming(before: &str, quoted: &str, after: &str) -> (result: SamlActixError)
    ensures
        result@ == refused(before@ + quoted@ + after@),
{
    let start = concat(before, quoted);
    refuse(concat(start.as_str(), after))
}

impl SamlActixErrorView {
    /// The HTTP status. A refused message is forbidden, not a fault of the
    /// server.
    pub open spec fn status(self) -> u16 {
        match self {
            SamlActixErrorView::Profile(_) => 403,
            SamlActixErrorView::UnsupportedBinding(_) => 400,
            SamlActixErrorView::Configuration(_) => 500,
            SamlActixErrorView::Internal(_) => 500,
        }
    }

    /// The error as a sentence.
    pub open spec fn message(self) -> Seq<char> {
        match self {
            SamlActixErrorView::Profile(e) => e.message(),
            SamlActixErrorView::UnsupportedBinding(m) => m,
            SamlActixErrorView::Configuration(m) => m,
            SamlActixErrorView::Internal(m) => m,
        }
    }
}

impl SamlActixError {
    /// The HTTP status.
    pub fn status_code(&self) -> (result: u16)
        ensures
            result == self@.status(),
    {
        match self {
            SamlActixError::Profile(_) => 403,
            SamlActixError::UnsupportedBinding(_) => 400,
            SamlActixError::Configuration(_) => 500,
            SamlActixError::Internal(_) => 500,
        }
    }

    /// The error as a sentence.
    pub fn message(&self) -> (result: &str)
        ensures
            result@ == self@.message(),
    {
        match self {
            SamlActixError::Profile(e) => e.message(),
            SamlActixError::UnsupportedBinding(m) => m.as_str(),
            SamlActixError::Configuration(m) => m.as_str(),
            SamlActixError::Internal(m) => m.as_str(),
        }
    }
}

} // verus!
