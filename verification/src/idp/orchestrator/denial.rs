//! Why a request is refused.
//!
//! A [`Denial`] is a refusal that the protocol provides for: the service
//! provider asked for something that the identity provider cannot or will not
//! provide. It is answered with a signed response, never by an error of the
//! application. The status message is always a fixed text and never echoes the
//! request.

use crate::saml::constants::{
    STATUS_INVALID_ATTR_NAME_OR_VALUE, STATUS_INVALID_NAMEID_POLICY, STATUS_NO_AUTHN_CONTEXT,
    STATUS_NO_PASSIVE, STATUS_REQUESTER, STATUS_REQUEST_UNSUPPORTED, STATUS_RESPONDER,
    STATUS_SUCCESS,
};
use crate::saml::status::{Status, StatusView};
use crate::xml::is_inert;
use vstd::prelude::*;

verus! {

/// A protocol-level refusal to satisfy an AuthnRequest.
#[derive(Debug, Clone, Copy, PartialEq, Eq, Structural)]
pub enum Denial {
    /// `IsPassive` was set but no session can be reused, or `ForceAuthn`
    /// defeated its reuse.
    NoPassive,
    /// No registered authentication method meets the requested context.
    NoAuthnContext,
    /// The requested NameID is not one that this identity provider can issue.
    InvalidNameIdPolicy,
    /// The `NameIDPolicy` forbids creating an identifier, and there is none.
    NameIdCreationNotAllowed,
    /// A required attribute could not be released.
    MissingRequiredAttributes,
    /// The `AttributeConsumingServiceIndex` names no service of the service
    /// provider.
    InvalidAttributeConsumingServiceIndex,
}

impl Denial {
    /// The top-level status code.
    pub open spec fn code(self) -> Seq<char> {
        match self {
            Denial::NoPassive => STATUS_RESPONDER@,
            Denial::NoAuthnContext => STATUS_RESPONDER@,
            Denial::InvalidNameIdPolicy => STATUS_REQUESTER@,
            Denial::NameIdCreationNotAllowed => STATUS_REQUESTER@,
            Denial::MissingRequiredAttributes => STATUS_REQUESTER@,
            Denial::InvalidAttributeConsumingServiceIndex => STATUS_REQUESTER@,
        }
    }

    /// The second-level status code.
    pub open spec fn sub_code(self) -> Seq<char> {
        match self {
            Denial::NoPassive => STATUS_NO_PASSIVE@,
            Denial::NoAuthnContext => STATUS_NO_AUTHN_CONTEXT@,
            Denial::InvalidNameIdPolicy => STATUS_INVALID_NAMEID_POLICY@,
            Denial::NameIdCreationNotAllowed => STATUS_INVALID_NAMEID_POLICY@,
            Denial::MissingRequiredAttributes => STATUS_INVALID_ATTR_NAME_OR_VALUE@,
            Denial::InvalidAttributeConsumingServiceIndex => STATUS_REQUEST_UNSUPPORTED@,
        }
    }

    /// The status message.
    pub open spec fn message(self) -> Seq<char> {
        match self {
            Denial::NoPassive =>
                "Passive authentication is not possible without a reusable session"@,
            Denial::NoAuthnContext => "The requested authentication context is unavailable"@,
            Denial::InvalidNameIdPolicy => "The requested NameID format is not supported"@,
            Denial::NameIdCreationNotAllowed =>
                "The NameIDPolicy does not allow creating a new identifier"@,
            Denial::MissingRequiredAttributes => "A required attribute is missing"@,
            Denial::InvalidAttributeConsumingServiceIndex =>
                "The requested attribute consuming service is unknown"@,
        }
    }

    /// What the status of the refusal says.
    pub open spec fn status_view(self) -> StatusView {
        StatusView {
            code: self.code(),
            sub_code: Some(self.sub_code()),
            message: Some(self.message()),
        }
    }

    /// The SAML `Status` this denial maps to.
    pub fn status(&self) -> (result: Status)
        ensures
            result@ == self.status_view(),
    {
        match self {
            Denial::NoPassive => Status::with_sub_status(
                STATUS_RESPONDER,
                STATUS_NO_PASSIVE,
                Some(
                    "Passive authentication is not possible without a reusable session".to_owned(),
                ),
            ),
            Denial::NoAuthnContext => Status::with_sub_status(
                STATUS_RESPONDER,
                STATUS_NO_AUTHN_CONTEXT,
                Some("The requested authentication context is unavailable".to_owned()),
            ),
            Denial::InvalidNameIdPolicy => Status::with_sub_status(
                STATUS_REQUESTER,
                STATUS_INVALID_NAMEID_POLICY,
                Some("The requested NameID format is not supported".to_owned()),
            ),
            Denial::NameIdCreationNotAllowed => Status::with_sub_status(
                STATUS_REQUESTER,
                STATUS_INVALID_NAMEID_POLICY,
                Some("The NameIDPolicy does not allow creating a new identifier".to_owned()),
            ),
            Denial::MissingRequiredAttributes => Status::with_sub_status(
                STATUS_REQUESTER,
                STATUS_INVALID_ATTR_NAME_OR_VALUE,
                Some("A required attribute is missing".to_owned()),
            ),
            Denial::InvalidAttributeConsumingServiceIndex => Status::with_sub_status(
                STATUS_REQUESTER,
                STATUS_REQUEST_UNSUPPORTED,
                Some("The requested attribute consuming service is unknown".to_owned()),
            ),
        }
    }
}

/// No denial is a success, and each says something, without markup.
pub proof fn law_denial_is_a_refusal(denial: Denial)
    ensures
        !denial.status_view().is_success(),
        denial.message().len() > 0,
        is_inert(denial.message()),
{
    reveal_strlit("urn:oasis:names:tc:SAML:2.0:status:Success");
    reveal_strlit("urn:oasis:names:tc:SAML:2.0:status:Requester");
    reveal_strlit("urn:oasis:names:tc:SAML:2.0:status:Responder");
    assert(STATUS_SUCCESS@[35] == 'S');
    assert(STATUS_REQUESTER@[35] == 'R');
    assert(STATUS_RESPONDER@[35] == 'R');
    reveal_strlit("Passive authentication is not possible without a reusable session");
    reveal_strlit("The requested authentication context is unavailable");
    reveal_strlit("The requested NameID format is not supported");
    reveal_strlit("The NameIDPolicy does not allow creating a new identifier");
    reveal_strlit("A required attribute is missing");
    reveal_strlit("The requested attribute consuming service is unknown");
}

} // verus!
