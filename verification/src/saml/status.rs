//! The status of a protocol response.

use super::constants::STATUS_SUCCESS;
use crate::text::{opt_text, same};
use vstd::prelude::*;

verus! {

/// A second-level `<samlp:StatusCode>`.
#[derive(Debug, Clone, PartialEq, Eq)]
pub struct SubStatusCode {
    /// The status code URI.
    pub value: String,
}

/// A top-level `<samlp:StatusCode>`.
#[derive(Debug, Clone, PartialEq, Eq)]
pub struct StatusCode {
    /// The status code URI.
    pub value: String,
    /// The code inside it, which says more.
    pub sub_status: Option<SubStatusCode>,
}

/// A `<samlp:Status>`.
#[derive(Debug, Clone, PartialEq, Eq)]
pub struct Status {
    /// The status code.
    pub status_code: StatusCode,
    /// The `<samlp:StatusMessage>`.
    pub status_message: Option<String>,
}

/// What a [`Status`] says.
#[verifier::ext_equal]
pub struct StatusView {
    pub code: Seq<char>,
    pub sub_code: Option<Seq<char>>,
    pub message: Option<Seq<char>>,
}

impl View for Status {
    type V = StatusView;

    open spec fn view(&self) -> StatusView {
        StatusView {
            code: self.status_code.value@,
            sub_code: match self.status_code.sub_status {
                Some(sub) => Some(sub.value@),
                None => None,
            },
            message: opt_text(self.status_message),
        }
    }
}

impl StatusView {
    /// Whether the status is a success.
    pub open spec fn is_success(self) -> bool {
        self.code == STATUS_SUCCESS@
    }
}

impl Status {
    /// The status of a request that succeeded.
    pub fn success() -> (result: Status)
        ensures
            result@ == (StatusView { code: STATUS_SUCCESS@, sub_code: None, message: None }),
    {
        Status {
            status_code: StatusCode { value: STATUS_SUCCESS.to_owned(), sub_status: None },
            status_message: None,
        }
    }

    /// A status with a second-level code.
    pub fn with_sub_status(code: &str, sub_code: &str, message: Option<String>) -> (result: Status)
        ensures
            result@ == (StatusView {
                code: code@,
                sub_code: Some(sub_code@),
                message: opt_text(message),
            }),
    {
        Status {
            status_code: StatusCode {
                value: code.to_owned(),
                sub_status: Some(SubStatusCode { value: sub_code.to_owned() }),
            },
            status_message: message,
        }
    }

    /// Whether the status is a success.
    pub fn is_success(&self) -> (result: bool)
        ensures
            result == self@.is_success(),
    {
        same(self.status_code.value.as_str(), STATUS_SUCCESS)
    }
}

} // verus!
