//! The messages that the logout and artifact endpoints send.

use super::logout::{propagation_targets, to_notify, SessionParticipant};
use crate::digest::{is_new_id, new_id};
use crate::saml::constants::{STATUS_RESPONDER, STATUS_SUCCESS};
use crate::saml::name_id::NameIdView;
use crate::saml::response::{SAMLP_NS, SAML_NS};
use crate::saml::response_xml::{
    issuer_xml, make_message_attrs, message_attrs, name_id_to_xml, name_id_xml, status_to_xml,
    status_xml,
};
use crate::saml::status::{Status, StatusCode, StatusView};
use crate::saml::time::Instant;
use crate::text::{decimal, decimal_text, opt_text};
use crate::xml::{attr, element, make_attr, make_element, make_text_element, text_element};
use vstd::prelude::*;
use vstd::string::*;
use vstd::utf8::encode_utf8;

verus! {

/// The namespace of SOAP envelopes.
pub const SOAP_NS: &'static str = "http://schemas.xmlsoap.org/soap/envelope/";

/// The attributes of a protocol message, without those of its kind.
pub open spec fn protocol_attrs(id: Seq<char>, now: Instant) -> Seq<char> {
    attr("xmlns:samlp"@, SAMLP_NS@) + attr("xmlns:saml"@, SAML_NS@) + message_attrs(id, now)
}

fn make_protocol_attrs(id: &str, now: Instant) -> (result: String)
    requires
        now.in_range(),
    ensures
        result@ == protocol_attrs(id@, now),
{
    let mut attrs = make_attr("xmlns:samlp", SAMLP_NS);
    attrs.append(make_attr("xmlns:saml", SAML_NS).as_str());
    attrs.append(make_message_attrs(id, now).as_str());
    attrs
}

/// A message that answers another: who issues it, with which status, and what
/// else it carries.
pub open spec fn answer_xml(
    name: Seq<char>,
    issuer: Seq<char>,
    in_response_to: Seq<char>,
    status: StatusView,
    carried: Seq<char>,
    id: Seq<char>,
    now: Instant,
) -> Seq<char> {
    element(
        name,
        protocol_attrs(id, now) + attr("InResponseTo"@, in_response_to),
        issuer_xml(issuer) + status_xml(status) + carried,
    )
}

fn make_answer(
    name: &str,
    issuer: &str,
    in_response_to: &str,
    status: &Status,
    carried: &str,
    id: &str,
    now: Instant,
) -> (result: String)
    requires
        now.in_range(),
    ensures
        result@ == answer_xml(name@, issuer@, in_response_to@, status@, carried@, id@, now),
{
    let none = String::new();
    assert(none@ == Seq::<char>::empty());
    let mut attrs = make_protocol_attrs(id, now);
    attrs.append(make_attr("InResponseTo", in_response_to).as_str());
    let mut body = make_text_element("saml:Issuer", none.as_str(), issuer);
    body.append(status_to_xml(status).as_str());
    body.append(carried);
    make_element(name, attrs.as_str(), body.as_str())
}

/// The status of a message that reports success.
pub open spec fn success_status() -> StatusView {
    StatusView { code: STATUS_SUCCESS@, sub_code: None, message: None }
}

/// The status of a message that reports what went wrong here.
pub open spec fn responder_status(message: Seq<char>) -> StatusView {
    StatusView { code: STATUS_RESPONDER@, sub_code: None, message: Some(message) }
}

/// The `<samlp:LogoutResponse>` to a logout request: the sessions are ended.
pub fn logout_response(issuer: &str, in_response_to: &str, id: &str, now: Instant) -> (result: String)
    requires
        now.in_range(),
    ensures
        result@ == answer_xml(
            "samlp:LogoutResponse"@,
            issuer@,
            in_response_to@,
            success_status(),
            Seq::empty(),
            id@,
            now,
        ),
{
    let none = String::new();
    assert(none@ == Seq::<char>::empty());
    make_answer(
        "samlp:LogoutResponse",
        issuer,
        in_response_to,
        &Status::success(),
        none.as_str(),
        id,
        now,
    )
}

/// The `<samlp:SessionIndex>`, where a session index is known.
pub open spec fn session_index_xml(session_index: Option<Seq<char>>) -> Seq<char> {
    match session_index {
        Some(i) => text_element("samlp:SessionIndex"@, Seq::empty(), i),
        None => Seq::empty(),
    }
}

/// The `<samlp:LogoutRequest>` that asks a service provider to end a session,
/// in the terms it knows the session by.
pub open spec fn logout_request_xml(
    issuer: Seq<char>,
    name_id: NameIdView,
    session_index: Option<Seq<char>>,
    id: Seq<char>,
    now: Instant,
) -> Seq<char> {
    element(
        "samlp:LogoutRequest"@,
        protocol_attrs(id, now),
        issuer_xml(issuer) + name_id_xml(name_id) + session_index_xml(session_index),
    )
}

/// The `<samlp:LogoutRequest>` that passes a logout on to a participant.
pub fn propagation_request(
    issuer: &str,
    participant: &SessionParticipant,
    id: &str,
    now: Instant,
) -> (result: String)
    requires
        now.in_range(),
    ensures
        result@ == logout_request_xml(
            issuer@,
            participant.name_id@,
            opt_text(participant.session_index),
            id@,
            now,
        ),
{
    let none = String::new();
    assert(none@ == Seq::<char>::empty());
    let mut body = make_text_element("saml:Issuer", none.as_str(), issuer);
    body.append(name_id_to_xml(&participant.name_id).as_str());
    let index = match &participant.session_index {
        Some(i) => make_text_element("samlp:SessionIndex", none.as_str(), i.as_str()),
        None => String::new(),
    };
    assert(index@ == session_index_xml(opt_text(participant.session_index)));
    body.append(index.as_str());
    make_element("samlp:LogoutRequest", make_protocol_attrs(id, now).as_str(), body.as_str())
}

/// A logout request on its way to a participant.
#[derive(Debug)]
pub struct Propagation {
    /// The entity ID of the service provider.
    pub entity_id: String,
    /// The logout request, as XML.
    pub xml: String,
}

/// Whether a logout request is the one for a participant, under some new
/// identifier.
pub open spec fn passes_on(
    issuer: Seq<char>,
    participant: SessionParticipant,
    now: Instant,
    request: Propagation,
) -> bool {
    request.entity_id@ == participant.entity_id@ && exists|id: Seq<char>| #[trigger]
        is_new_id(id) && request.xml@ == logout_request_xml(
            issuer,
            participant.name_id@,
            opt_text(participant.session_index),
            id,
            now,
        )
}

/// The logout requests that pass a logout on to the participants of a session,
/// one for each but the requester, in order.
pub fn propagation_requests(
    issuer: &str,
    participants: Vec<SessionParticipant>,
    requester: &str,
    now: Instant,
) -> (result: Vec<Propagation>)
    requires
        now.in_range(),
    ensures
        result@.len() == to_notify(participants@, requester@).len(),
        forall|i: int|
            0 <= i < result@.len() ==> passes_on(
                issuer@,
                to_notify(participants@, requester@)[i],
                now,
                #[trigger] result@[i],
            ),
{
    let targets = propagation_targets(participants, requester);
    let mut requests: Vec<Propagation> = Vec::new();
    let mut i: usize = 0;
    while i < targets.len()
        invariant
            i <= targets@.len(),
            requests@.len() == i,
            now.in_range(),
            forall|k: int|
                0 <= k < i ==> passes_on(issuer@, targets@[k], now, #[trigger] requests@[k]),
        decreases targets@.len() - i,
    {
        let id = new_id();
        let request = Propagation {
            entity_id: targets[i].entity_id.clone(),
            xml: propagation_request(issuer, &targets[i], id.as_str(), now),
        };
        assert(is_new_id(id@));
        assert(passes_on(issuer@, targets@[i as int], now, request));
        requests.push(request);
        i += 1;
    }
    requests
}

/// The page that a browser sees after a logout: that it is done, and how long
/// the response in bytes is.
pub open spec fn logout_page_text(response: Seq<char>) -> Seq<char> {
    "<html><body><p>Logout completed</p><!-- "@ + decimal(encode_utf8(response).len())
        + " --></body></html>"@
}

/// The page that a browser sees after a logout.
pub fn logout_page(response: &str) -> (result: String)
    ensures
        result@ == logout_page_text(response@),
{
    let mut page = "<html><body><p>Logout completed</p><!-- ".to_owned();
    page.append(decimal_text(response.as_bytes().len() as u128).as_str());
    page.append(" --></body></html>");
    page
}

/// The `<samlp:ArtifactResponse>` to an artifact resolution: the message that
/// the artifact stands for, as it is, or what went wrong.
pub open spec fn artifact_response_xml(
    issuer: Seq<char>,
    in_response_to: Seq<char>,
    answer: Result<Seq<char>, Seq<char>>,
    id: Seq<char>,
    now: Instant,
) -> Seq<char> {
    match answer {
        Ok(message) => answer_xml(
            "samlp:ArtifactResponse"@,
            issuer,
            in_response_to,
            success_status(),
            message,
            id,
            now,
        ),
        Err(reason) => answer_xml(
            "samlp:ArtifactResponse"@,
            issuer,
            in_response_to,
            responder_status(reason),
            Seq::empty(),
            id,
            now,
        ),
    }
}

/// What the answer to an artifact resolution says.
pub open spec fn artifact_answer_view(r: Result<String, String>) -> Result<Seq<char>, Seq<char>> {
    match r {
        Ok(message) => Ok(message@),
        Err(reason) => Err(reason@),
    }
}

/// The `<samlp:ArtifactResponse>` to an artifact resolution.
pub fn artifact_response(
    issuer: &str,
    in_response_to: &str,
    answer: &Result<String, String>,
    id: &str,
    now: Instant,
) -> (result: String)
    requires
        now.in_range(),
    ensures
        result@ == artifact_response_xml(
            issuer@,
            in_response_to@,
            artifact_answer_view(*answer),
            id@,
            now,
        ),
{
    let none = String::new();
    assert(none@ == Seq::<char>::empty());
    match answer {
        Ok(message) => make_answer(
            "samlp:ArtifactResponse",
            issuer,
            in_response_to,
            &Status::success(),
            message.as_str(),
            id,
            now,
        ),
        Err(reason) => {
            let status = Status {
                status_code: StatusCode { value: STATUS_RESPONDER.to_owned(), sub_status: None },
                status_message: Some(reason.clone()),
            };
            make_answer(
                "samlp:ArtifactResponse",
                issuer,
                in_response_to,
                &status,
                none.as_str(),
                id,
                now,
            )
        },
    }
}

/// A message in a SOAP envelope.
pub open spec fn soap_xml(message: Seq<char>) -> Seq<char> {
    element(
        "soap:Envelope"@,
        attr("xmlns:soap"@, SOAP_NS@),
        element("soap:Body"@, Seq::empty(), message),
    )
}

/// A message in a SOAP envelope.
pub fn soap_envelope_wrap(message: &str) -> (result: String)
    ensures
        result@ == soap_xml(message@),
{
    let none = String::new();
    assert(none@ == Seq::<char>::empty());
    let body = make_element("soap:Body", none.as_str(), message);
    make_element("soap:Envelope", make_attr("xmlns:soap", SOAP_NS).as_str(), body.as_str())
}

} // verus!
