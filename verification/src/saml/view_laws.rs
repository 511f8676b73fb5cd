//! What the data types say: each field of theirs, under its own name.

use super::attribute::{
    attribute_views, requested_views, value_texts, Attribute, AttributeValue, RequestedAttribute,
};
use super::metadata::{
    same_role, service_views, AttributeConsumingService, SpSsoDescriptor,
};
use super::name_id::{name_id_views, NameId, NameIdPolicy};
use super::request::RequestedAuthnContext;
use super::response::{
    response_of, Assertion, Response, ResponseOptions, ResponseTimes, ResponseView,
};
use super::status::Status;
use crate::text::{opt_text, texts};
use vstd::prelude::*;

verus! {

/// A NameID and a NameID policy say what their fields hold.
pub proof fn law_name_id_says_its_fields(n: NameId, p: NameIdPolicy, v: Seq<NameId>, i: int)
    ensures
        n@.value == n.value@,
        n@.format == opt_text(n.format),
        n@.name_qualifier == opt_text(n.name_qualifier),
        n@.sp_name_qualifier == opt_text(n.sp_name_qualifier),
        n@.sp_provided_id == opt_text(n.sp_provided_id),
        p@.format == opt_text(p.format),
        p@.sp_name_qualifier == opt_text(p.sp_name_qualifier),
        p@.allow_create == p.allow_create,
        name_id_views(v).len() == v.len(),
        0 <= i < v.len() ==> name_id_views(v)[i] == v[i]@,
{
}

/// An attribute says its names and its values, in order.
pub proof fn law_attribute_says_its_fields(
    a: Attribute,
    r: RequestedAttribute,
    v: Seq<Attribute>,
    rs: Seq<RequestedAttribute>,
    values: Seq<AttributeValue>,
    i: int,
)
    ensures
        a@.name == a.name@,
        a@.name_format == opt_text(a.name_format),
        a@.friendly_name == opt_text(a.friendly_name),
        a@.values == value_texts(a.values@),
        r@.attribute == r.attribute@,
        r@.is_required == r.is_required,
        attribute_views(v).len() == v.len(),
        0 <= i < v.len() ==> attribute_views(v)[i] == v[i]@,
        requested_views(rs).len() == rs.len(),
        0 <= i < rs.len() ==> requested_views(rs)[i] == rs[i]@,
        value_texts(values).len() == values.len(),
        0 <= i < values.len() ==> value_texts(values)[i] == values[i]@,
{
}

/// A service, a status and a requested context say what their fields hold.
pub proof fn law_service_and_status_say_their_fields(
    s: AttributeConsumingService,
    v: Seq<AttributeConsumingService>,
    i: int,
    status: Status,
    c: RequestedAuthnContext,
)
    ensures
        s@.index == s.index,
        s@.is_default == s.is_default,
        s@.requested == requested_views(s.requested_attributes@),
        service_views(v).len() == v.len(),
        0 <= i < v.len() ==> service_views(v)[i] == v[i]@,
        status@.code == status.status_code.value@,
        status@.sub_code is Some <==> status.status_code.sub_status is Some,
        status.status_code.sub_status matches Some(sub) ==> status@.sub_code == Some(sub.value@),
        status@.message == opt_text(status.status_message),
        status@.is_success() <==> status.status_code.value@
            == "urn:oasis:names:tc:SAML:2.0:status:Success"@,
        c@.class_refs == texts(c.authn_context_class_refs@),
        c@.decl_refs == texts(c.authn_context_decl_refs@),
        c@.comparison == c.comparison,
{
}

/// An assertion and a response say what their fields hold.
pub proof fn law_response_says_its_fields(a: Assertion, r: Response)
    ensures
        a@.id == a.id@,
        a@.issue_instant == a.issue_instant,
        a@.issuer == a.issuer@,
        a@.name_id == a.name_id@,
        a@.in_response_to == opt_text(a.in_response_to),
        a@.recipient == a.recipient@,
        a@.not_on_or_after == a.not_on_or_after,
        a@.audience == a.audience@,
        a@.authn_instant == a.authn_instant,
        a@.session_index == opt_text(a.session_index),
        a@.session_not_on_or_after == a.session_not_on_or_after,
        a@.authn_context_class_ref == opt_text(a.authn_context_class_ref),
        a@.authenticating_authorities == texts(a.authenticating_authorities@),
        a@.client_address == opt_text(a.client_address),
        a@.attributes == attribute_views(a.attributes@),
        r@.id == r.id@,
        r@.in_response_to == opt_text(r.in_response_to),
        r@.issue_instant == r.issue_instant,
        r@.destination == r.destination@,
        r@.issuer == r.issuer@,
        r@.status == r.status@,
        r@.assertion is Some <==> r.assertion is Some,
        r.assertion matches Some(x) ==> r@.assertion == Some(x@),
{
}

/// A response that is made of options says what the options hold: who issues it,
/// in answer to what, for whom, where it goes, and of the subject what is given.
pub proof fn law_response_is_made_of_its_options(
    o: ResponseOptions,
    name_id: NameId,
    times: ResponseTimes,
    response_id: Seq<char>,
    assertion_id: Seq<char>,
    r: ResponseView,
)
    requires
        r == response_of(o, name_id@, times, response_id, assertion_id),
    ensures
        r.id == response_id,
        r.issuer == o.idp_entity_id@,
        r.issue_instant == times.issue_instant,
        r.in_response_to == opt_text(o.in_response_to),
        r.destination == o.acs_url@,
        r.status.code == "urn:oasis:names:tc:SAML:2.0:status:Success"@,
        r.status.sub_code is None,
        r.status.message is None,
        r.assertion matches Some(a) && {
            &&& a.id == assertion_id
            &&& a.issuer == o.idp_entity_id@
            &&& a.issue_instant == times.issue_instant
            &&& a.name_id == name_id@
            &&& a.in_response_to == opt_text(o.in_response_to)
            &&& a.recipient == o.acs_url@
            &&& a.audience == o.sp_entity_id@
            &&& a.not_on_or_after == o.not_on_or_after
            &&& a.authn_instant == times.authn_instant
            &&& a.session_index == opt_text(o.session_index)
            &&& a.session_not_on_or_after == o.session_not_on_or_after
            &&& a.authn_context_class_ref == opt_text(o.authn_context_class_ref)
            &&& a.authenticating_authorities == texts(o.authenticating_authorities@)
            &&& a.client_address == opt_text(o.client_address)
            &&& a.attributes == attribute_views(o.attributes@)
        },
{
}

/// Roles that say the same agree in everything that is decided by: the
/// protocols, what is to be signed, the services and the keys.
pub proof fn law_same_role_agrees(a: SpSsoDescriptor, b: SpSsoDescriptor)
    requires
        same_role(a, b),
    ensures
        texts(a.protocols@) == texts(b.protocols@),
        a.authn_requests_signed == b.authn_requests_signed,
        a.want_assertions_signed == b.want_assertions_signed,
        service_views(a.attribute_consuming_services@) == service_views(
            b.attribute_consuming_services@,
        ),
        texts(a.signing_certs@) == texts(b.signing_certs@),
        a.wants_assertions_signed() <==> a.want_assertions_signed == Some(true),
        a.services() == service_views(a.attribute_consuming_services@),
{
}

} // verus!
