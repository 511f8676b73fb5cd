//! Responses and the assertions in them.

use super::attribute::{attribute_views, clone_attributes, Attribute, AttributeView};
use super::name_id::{NameId, NameIdView};
use super::status::{Status, StatusView};
use super::time::Instant;
use crate::text::{as_opt_str, clone_strings, opt_str, opt_text, texts, to_opt_string};
use vstd::prelude::*;

verus! {

/// The namespace of SAML assertions.
pub const SAML_NS: &'static str = "urn:oasis:names:tc:SAML:2.0:assertion";

/// The namespace of the SAML protocol.
pub const SAMLP_NS: &'static str = "urn:oasis:names:tc:SAML:2.0:protocol";

/// The bearer confirmation method.
pub const BEARER: &'static str = "urn:oasis:names:tc:SAML:2.0:cm:bearer";

/// The authentication context class that says nothing.
pub const AUTHN_CONTEXT_UNSPECIFIED: &'static str =
    "urn:oasis:names:tc:SAML:2.0:ac:classes:unspecified";

/// A `<saml:Assertion>` about an authenticated subject.
#[derive(Debug, Clone)]
pub struct Assertion {
    /// The `ID`.
    pub id: String,
    /// The `IssueInstant`, from which on the assertion is valid.
    pub issue_instant: Instant,
    /// The identity provider.
    pub issuer: String,
    /// The subject.
    pub name_id: NameId,
    /// The request that is answered.
    pub in_response_to: Option<String>,
    /// Where the assertion goes.
    pub recipient: String,
    /// When the assertion is no longer valid.
    pub not_on_or_after: Instant,
    /// The service provider that the assertion is for.
    pub audience: String,
    /// When the subject authenticated.
    pub authn_instant: Instant,
    /// The session index.
    pub session_index: Option<String>,
    /// When the session ends.
    pub session_not_on_or_after: Option<Instant>,
    /// The authentication context class.
    pub authn_context_class_ref: Option<String>,
    /// The authorities that took part in authenticating.
    pub authenticating_authorities: Vec<String>,
    /// The address the subject came from.
    pub client_address: Option<String>,
    /// The released attributes.
    pub attributes: Vec<Attribute>,
}

/// What an [`Assertion`] says.
#[verifier::ext_equal]
pub struct AssertionView {
    pub id: Seq<char>,
    pub issue_instant: Instant,
    pub issuer: Seq<char>,
    pub name_id: NameIdView,
    pub in_response_to: Option<Seq<char>>,
    pub recipient: Seq<char>,
    pub not_on_or_after: Instant,
    pub audience: Seq<char>,
    pub authn_instant: Instant,
    pub session_index: Option<Seq<char>>,
    pub session_not_on_or_after: Option<Instant>,
    pub authn_context_class_ref: Option<Seq<char>>,
    pub authenticating_authorities: Seq<Seq<char>>,
    pub client_address: Option<Seq<char>>,
    pub attributes: Seq<AttributeView>,
}

impl View for Assertion {
    type V = AssertionView;

    open spec fn view(&self) -> AssertionView {
        AssertionView {
            id: self.id@,
            issue_instant: self.issue_instant,
            issuer: self.issuer@,
            name_id: self.name_id@,
            in_response_to: opt_text(self.in_response_to),
            recipient: self.recipient@,
            not_on_or_after: self.not_on_or_after,
            audience: self.audience@,
            authn_instant: self.authn_instant,
            session_index: opt_text(self.session_index),
            session_not_on_or_after: self.session_not_on_or_after,
            authn_context_class_ref: opt_text(self.authn_context_class_ref),
            authenticating_authorities: texts(self.authenticating_authorities@),
            client_address: opt_text(self.client_address),
            attributes: attribute_views(self.attributes@),
        }
    }
}

/// Whether a date can be given for an instant, if there is one.
pub open spec fn opt_in_range(t: Option<Instant>) -> bool {
    t matches Some(i) ==> i.in_range()
}

impl AssertionView {
    /// Whether a date can be given for every instant of the assertion.
    pub open spec fn is_dated(self) -> bool {
        &&& self.issue_instant.in_range()
        &&& self.not_on_or_after.in_range()
        &&& self.authn_instant.in_range()
        &&& opt_in_range(self.session_not_on_or_after)
    }
}

/// A `<samlp:Response>`.
#[derive(Debug, Clone)]
pub struct Response {
    /// The `ID`.
    pub id: String,
    /// The request that is answered.
    pub in_response_to: Option<String>,
    /// The `IssueInstant`.
    pub issue_instant: Instant,
    /// Where the response goes.
    pub destination: String,
    /// The identity provider.
    pub issuer: String,
    /// The status.
    pub status: Status,
    /// The assertion, if the request succeeded.
    pub assertion: Option<Assertion>,
}

/// What an optional [`Assertion`] says.
pub open spec fn opt_assertion(a: Option<Assertion>) -> Option<AssertionView> {
    match a {
        Some(x) => Some(x@),
        None => None,
    }
}

/// What a [`Response`] says.
#[verifier::ext_equal]
pub struct ResponseView {
    pub id: Seq<char>,
    pub in_response_to: Option<Seq<char>>,
    pub issue_instant: Instant,
    pub destination: Seq<char>,
    pub issuer: Seq<char>,
    pub status: StatusView,
    pub assertion: Option<AssertionView>,
}

impl View for Response {
    type V = ResponseView;

    open spec fn view(&self) -> ResponseView {
        ResponseView {
            id: self.id@,
            in_response_to: opt_text(self.in_response_to),
            issue_instant: self.issue_instant,
            destination: self.destination@,
            issuer: self.issuer@,
            status: self.status@,
            assertion: opt_assertion(self.assertion),
        }
    }
}

impl ResponseView {
    /// Whether a date can be given for every instant of the response.
    pub open spec fn is_dated(self) -> bool {
        self.issue_instant.in_range() && (self.assertion matches Some(a) ==> a.is_dated())
    }
}

/// What goes into a response.
#[derive(Debug, Clone)]
pub struct ResponseOptions {
    /// The identity provider.
    pub idp_entity_id: String,
    /// The request that is answered.
    pub in_response_to: Option<String>,
    /// The service provider.
    pub sp_entity_id: String,
    /// Where the response goes.
    pub acs_url: String,
    /// When the assertion is no longer valid.
    pub not_on_or_after: Instant,
    /// The session index.
    pub session_index: Option<String>,
    /// When the session ends.
    pub session_not_on_or_after: Option<Instant>,
    /// The authentication context class.
    pub authn_context_class_ref: Option<String>,
    /// The address the subject came from.
    pub client_address: Option<String>,
    /// The released attributes.
    pub attributes: Vec<Attribute>,
    /// The authorities that took part in authenticating.
    pub authenticating_authorities: Vec<String>,
}

/// The moments of a response.
#[derive(Debug, Clone, Copy)]
pub struct ResponseTimes {
    /// When the response is issued.
    pub issue_instant: Instant,
    /// When the subject authenticated.
    pub authn_instant: Instant,
}

/// The response that options, a subject and the two identifiers make.
pub open spec fn response_of(
    options: ResponseOptions,
    name_id: NameIdView,
    times: ResponseTimes,
    response_id: Seq<char>,
    assertion_id: Seq<char>,
) -> ResponseView {
    ResponseView {
        id: response_id,
        in_response_to: opt_text(options.in_response_to),
        issue_instant: times.issue_instant,
        destination: options.acs_url@,
        issuer: options.idp_entity_id@,
        status: StatusView {
            code: super::constants::STATUS_SUCCESS@,
            sub_code: None,
            message: None,
        },
        assertion: Some(
            AssertionView {
                id: assertion_id,
                issue_instant: times.issue_instant,
                issuer: options.idp_entity_id@,
                name_id,
                in_response_to: opt_text(options.in_response_to),
                recipient: options.acs_url@,
                not_on_or_after: options.not_on_or_after,
                audience: options.sp_entity_id@,
                authn_instant: times.authn_instant,
                session_index: opt_text(options.session_index),
                session_not_on_or_after: options.session_not_on_or_after,
                authn_context_class_ref: opt_text(options.authn_context_class_ref),
                authenticating_authorities: texts(options.authenticating_authorities@),
                client_address: opt_text(options.client_address),
                attributes: attribute_views(options.attributes@),
            },
        ),
    }
}

/// A successful response with one assertion.
pub fn create_response(
    options: &ResponseOptions,
    name_id: &NameId,
    times: ResponseTimes,
    response_id: &str,
    assertion_id: &str,
) -> (result: Response)
    ensures
        result@ == response_of(*options, name_id@, times, response_id@, assertion_id@),
{
    let assertion = Assertion {
        id: assertion_id.to_owned(),
        issue_instant: times.issue_instant,
        issuer: options.idp_entity_id.clone(),
        name_id: name_id.clone(),
        in_response_to: to_opt_string(as_opt_str(&options.in_response_to)),
        recipient: options.acs_url.clone(),
        not_on_or_after: options.not_on_or_after,
        audience: options.sp_entity_id.clone(),
        authn_instant: times.authn_instant,
        session_index: to_opt_string(as_opt_str(&options.session_index)),
        session_not_on_or_after: options.session_not_on_or_after,
        authn_context_class_ref: to_opt_string(as_opt_str(&options.authn_context_class_ref)),
        authenticating_authorities: clone_strings(options.authenticating_authorities.as_slice()),
        client_address: to_opt_string(as_opt_str(&options.client_address)),
        attributes: clone_attributes(options.attributes.as_slice()),
    };
    Response {
        id: response_id.to_owned(),
        in_response_to: to_opt_string(as_opt_str(&options.in_response_to)),
        issue_instant: times.issue_instant,
        destination: options.acs_url.clone(),
        issuer: options.idp_entity_id.clone(),
        status: Status::success(),
        assertion: Some(assertion),
    }
}

/// A response that says why a request failed.
pub fn create_error_response(
    idp_entity_id: &str,
    in_response_to: Option<&str>,
    acs_url: &str,
    status: Status,
    issue_instant: Instant,
    response_id: &str,
) -> (result: Response)
    ensures
        result@ == (ResponseView {
            id: response_id@,
            in_response_to: opt_str(in_response_to),
            issue_instant,
            destination: acs_url@,
            issuer: idp_entity_id@,
            status: status@,
            assertion: None,
        }),
{
    Response {
        id: response_id.to_owned(),
        in_response_to: to_opt_string(in_response_to),
        issue_instant,
        destination: acs_url.to_owned(),
        issuer: idp_entity_id.to_owned(),
        status,
        assertion: None,
    }
}

} // verus!
