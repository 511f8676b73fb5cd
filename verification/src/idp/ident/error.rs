//! Errors of the identity database.

use crate::saml::name_id::{NameId, NameIdView};
use crate::text::concat;
use vstd::prelude::*;

verus! {

/// Errors from identity-database operations.
#[derive(Debug, PartialEq, Eq)]
pub enum IdentError {
    /// The NameID is not associated with any local principal.
    UnknownNameId(String),
    /// The NameIDPolicy forbids creating a new identifier (AllowCreate).
    CreateNotAllowed,
    /// No NameID format could be determined.
    NoFormat,
    /// The operation is not supported (e.g. NewEncryptedID).
    Unsupported(&'static str),
}

/// What an [`IdentError`] says.
#[verifier::ext_equal]
pub enum IdentErrorView {
    UnknownNameId(Seq<char>),
    CreateNotAllowed,
    NoFormat,
    Unsupported(Seq<char>),
}

impl View for IdentError {
    type V = IdentErrorView;

    open spec fn view(&self) -> IdentErrorView {
        match *self {
            IdentError::UnknownNameId(value) => IdentErrorView::UnknownNameId(value@),
            IdentError::CreateNotAllowed => IdentErrorView::CreateNotAllowed,
            IdentError::NoFormat => IdentErrorView::NoFormat,
            IdentError::Unsupported(what) => IdentErrorView::Unsupported(what@),
        }
    }
}

/// What the outcome of an operation that gives a NameID says.
pub open spec fn outcome(r: Result<NameId, IdentError>) -> Result<NameIdView, IdentErrorView> {
    match r {
        Ok(n) => Ok(n@),
        Err(e) => Err(e@),
    }
}

impl IdentErrorView {
    /// The error as a sentence.
    pub open spec fn message(self) -> Seq<char> {
        match self {
            IdentErrorView::UnknownNameId(value) => "unknown NameID: no local principal for '"@
                + value + "'"@,
            IdentErrorView::CreateNotAllowed =>
                "NameIDPolicy does not allow creating a new identifier"@,
            IdentErrorView::NoFormat => "no NameID format requested and no default configured"@,
            IdentErrorView::Unsupported(what) => "unsupported operation: "@ + what,
        }
    }
}

impl IdentError {
    /// The error as a sentence.
    pub fn message(&self) -> (result: String)
        ensures
            result@ == self@.message(),
    {
        match self {
            IdentError::UnknownNameId(value) => {
                let start = concat("unknown NameID: no local principal for '", value.as_str());
                concat(start.as_str(), "'")
            },
            IdentError::CreateNotAllowed => {
                "NameIDPolicy does not allow creating a new identifier".to_owned()
            },
            IdentError::NoFormat => {
                "no NameID format requested and no default configured".to_owned()
            },
            IdentError::Unsupported(what) => concat("unsupported operation: ", *what),
        }
    }
}

} // verus!
