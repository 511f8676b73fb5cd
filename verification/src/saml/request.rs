//! Authentication requests.

use crate::text::texts;
use vstd::prelude::*;

verus! {

/// How a requested authentication context is compared.
#[derive(Debug, Clone, Copy, PartialEq, Eq, Structural)]
pub enum AuthnContextComparison {
    /// One of the requested classes itself.
    Exact,
    /// At least as strong as the requested class.
    Minimum,
    /// Not stronger than the requested class.
    Maximum,
    /// Stronger than the requested class.
    Better,
}

/// A `<samlp:RequestedAuthnContext>`.
#[derive(Debug, Clone, PartialEq, Eq)]
pub struct RequestedAuthnContext {
    /// The requested authentication context classes.
    pub authn_context_class_refs: Vec<String>,
    /// The requested authentication context declarations.
    pub authn_context_decl_refs: Vec<String>,
    /// How the classes are compared.
    pub comparison: AuthnContextComparison,
}

/// What a [`RequestedAuthnContext`] says.
#[verifier::ext_equal]
pub struct RequestedAuthnContextView {
    pub class_refs: Seq<Seq<char>>,
    pub decl_refs: Seq<Seq<char>>,
    pub comparison: AuthnContextComparison,
}

impl View for RequestedAuthnContext {
    type V = RequestedAuthnContextView;

    open spec fn view(&self) -> RequestedAuthnContextView {
        RequestedAuthnContextView {
            class_refs: texts(self.authn_context_class_refs@),
            decl_refs: texts(self.authn_context_decl_refs@),
            comparison: self.comparison,
        }
    }
}

/// What an optional [`RequestedAuthnContext`] says.
pub open spec fn opt_context(c: Option<RequestedAuthnContext>) -> Option<
    RequestedAuthnContextView,
> {
    match c {
        Some(x) => Some(x@),
        None => None,
    }
}

/// As [`opt_context`], for a borrowed one.
pub open spec fn opt_context_ref(c: Option<&RequestedAuthnContext>) -> Option<
    RequestedAuthnContextView,
> {
    match c {
        Some(x) => Some(x@),
        None => None,
    }
}

/// An AuthnRequest that was validated against the metadata of its sender.
#[derive(Debug, Clone)]
pub struct ProcessedAuthnRequest {
    /// The `ID` of the request.
    pub request_id: String,
    /// The entity ID of the service provider that sent it.
    pub sp_entity_id: String,
    /// Where the response goes.
    pub acs_url: String,
    /// The binding the response goes by.
    pub acs_binding: String,
    /// `ForceAuthn`.
    pub force_authn: bool,
    /// `IsPassive`.
    pub is_passive: bool,
    /// `NameIDPolicy/@Format`.
    pub requested_name_id_format: Option<String>,
    /// `NameIDPolicy/@SPNameQualifier`.
    pub requested_sp_name_qualifier: Option<String>,
    /// `NameIDPolicy/@AllowCreate`.
    pub allow_create: bool,
    /// Whether the request has a `NameIDPolicy` at all.
    pub has_name_id_policy: bool,
    /// The requested authentication context classes.
    pub requested_authn_context_class_refs: Vec<String>,
    /// How the requested classes are compared.
    pub authn_context_comparison: Option<AuthnContextComparison>,
    /// `AttributeConsumingServiceIndex`.
    pub attribute_consuming_service_index: Option<u16>,
    /// The text of the request's extensions.
    pub extensions: Option<String>,
}

} // verus!
