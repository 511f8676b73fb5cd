//! Errors of the SAML profiles.

use vstd::prelude::*;

verus! {

/// A fault in processing a message, as opposed to a refusal that the protocol
/// provides for.
#[derive(Debug, Clone, PartialEq, Eq)]
pub enum ProfileError {
    /// A message is not valid, or its sender may not send it.
    AssertionValidation(String),
    /// Something else went wrong.
    Other(String),
}

/// What a [`ProfileError`] says.
#[verifier::ext_equal]
pub enum ProfileErrorView {
    AssertionValidation(Seq<char>),
    Other(Seq<char>),
}

impl View for ProfileError {
    type V = ProfileErrorView;

    open spec fn view(&self) -> ProfileErrorView {
        match *self {
            ProfileError::AssertionValidation(m) => ProfileErrorView::AssertionValidation(m@),
            ProfileError::Other(m) => ProfileErrorView::Other(m@),
        }
    }
}

impl ProfileErrorView {
    /// The error as a sentence.
    pub open spec fn message(self) -> Seq<char> {
        match self {
            ProfileErrorView::AssertionValidation(m) => m,
            ProfileErrorView::Other(m) => m,
        }
    }
}

impl ProfileError {
    /// The error as a sentence.
    pub fn message(&self) -> (result: &str)
        ensures
            result@ == self@.message(),
    {
        match self {
            ProfileError::AssertionValidation(m) => m.as_str(),
            ProfileError::Other(m) => m.as_str(),
        }
    }
}

} // verus!
