//! Responses as XML.

use super::attribute::{attribute_views, value_texts, Attribute, AttributeValue, AttributeView};
use super::name_id::{NameId, NameIdView};
use super::response::{
    opt_in_range, Assertion, AssertionView, Response, ResponseView, AUTHN_CONTEXT_UNSPECIFIED,
    BEARER, SAMLP_NS, SAML_NS,
};
use super::status::{Status, StatusView};
use super::time::Instant;
use crate::text::{as_opt_str, opt_text, texts};
use crate::xml::{
    attr, element, make_attr, make_element, make_opt_attr, make_text_element, opt_attr,
    text_element,
};
use vstd::prelude::*;
use vstd::string::StringExecFns;

verus! {

/// A `<saml:NameID>`.
pub open spec fn name_id_xml(n: NameIdView) -> Seq<char> {
    text_element(
        "saml:NameID"@,
        opt_attr("Format"@, n.format) + opt_attr("NameQualifier"@, n.name_qualifier) + opt_attr(
            "SPNameQualifier"@,
            n.sp_name_qualifier,
        ) + opt_attr("SPProvidedID"@, n.sp_provided_id),
        n.value,
    )
}

/// A `<saml:NameID>`.
pub fn name_id_to_xml(n: &NameId) -> (result: String)
    ensures
        result@ == name_id_xml(n@),
{
    let mut attrs = make_opt_attr("Format", as_opt_str(&n.format));
    attrs.append(make_opt_attr("NameQualifier", as_opt_str(&n.name_qualifier)).as_str());
    attrs.append(make_opt_attr("SPNameQualifier", as_opt_str(&n.sp_name_qualifier)).as_str());
    attrs.append(make_opt_attr("SPProvidedID", as_opt_str(&n.sp_provided_id)).as_str());
    make_text_element("saml:NameID", attrs.as_str(), n.value.as_str())
}

/// The text of an instant, if there is one.
pub open spec fn opt_instant(t: Option<Instant>) -> Option<Seq<char>> {
    match t {
        Some(i) => Some(i.text()),
        None => None,
    }
}

fn opt_instant_text(t: Option<Instant>) -> (result: Option<String>)
    requires
        opt_in_range(t),
    ensures
        opt_text(result) == opt_instant(t),
{
    match t {
        Some(i) => Some(i.to_text()),
        None => None,
    }
}

/// Text elements of one name, one after another.
pub open spec fn text_elements(name: Seq<char>, values: Seq<Seq<char>>) -> Seq<char>
    decreases values.len(),
{
    if values.len() == 0 {
        Seq::empty()
    } else {
        text_elements(name, values.drop_last()) + text_element(name, Seq::empty(), values.last())
    }
}

fn strings_to_xml(name: &str, values: &[String]) -> (result: String)
    ensures
        result@ == text_elements(name@, texts(values@)),
{
    let mut out = String::new();
    let ghost all = texts(values@);
    let none = String::new();
    assert(none@ == Seq::<char>::empty());
    let mut i: usize = 0;
    while i < values.len()
        invariant
            i <= values@.len(),
            all == texts(values@),
            none@ == Seq::<char>::empty(),
            out@ == text_elements(name@, all.take(i as int)),
        decreases values@.len() - i,
    {
        proof {
            assert(all.take(i + 1).drop_last() == all.take(i as int));
            assert(all.take(i + 1).last() == values@[i as int]@);
        }
        out.append(make_text_element(name, none.as_str(), values[i].as_str()).as_str());
        i += 1;
    }
    assert(all.take(all.len() as int) == all);
    out
}

fn values_to_xml(values: &[AttributeValue]) -> (result: String)
    ensures
        result@ == text_elements("saml:AttributeValue"@, value_texts(values@)),
{
    let mut out = String::new();
    let ghost all = value_texts(values@);
    let none = String::new();
    assert(none@ == Seq::<char>::empty());
    let mut i: usize = 0;
    while i < values.len()
        invariant
            i <= values@.len(),
            all == value_texts(values@),
            none@ == Seq::<char>::empty(),
            out@ == text_elements("saml:AttributeValue"@, all.take(i as int)),
        decreases values@.len() - i,
    {
        proof {
            assert(all.take(i + 1).drop_last() == all.take(i as int));
            assert(all.take(i + 1).last() == values@[i as int]@);
        }
        out.append(
            make_text_element("saml:AttributeValue", none.as_str(), values[i].as_str()).as_str(),
        );
        i += 1;
    }
    assert(all.take(all.len() as int) == all);
    out
}

/// A `<saml:Attribute>`.
pub open spec fn attribute_xml(a: AttributeView) -> Seq<char> {
    element(
        "saml:Attribute"@,
        attr("Name"@, a.name) + opt_attr("NameFormat"@, a.name_format) + opt_attr(
            "FriendlyName"@,
            a.friendly_name,
        ),
        text_elements("saml:AttributeValue"@, a.values),
    )
}

/// Attributes, one after another.
pub open spec fn attributes_xml(attributes: Seq<AttributeView>) -> Seq<char>
    decreases attributes.len(),
{
    if attributes.len() == 0 {
        Seq::empty()
    } else {
        attributes_xml(attributes.drop_last()) + attribute_xml(attributes.last())
    }
}

fn attributes_to_xml(attributes: &[Attribute]) -> (result: String)
    ensures
        result@ == attributes_xml(attribute_views(attributes@)),
{
    let mut out = String::new();
    let ghost all = attribute_views(attributes@);
    let mut i: usize = 0;
    while i < attributes.len()
        invariant
            i <= attributes@.len(),
            all == attribute_views(attributes@),
            out@ == attributes_xml(all.take(i as int)),
        decreases attributes@.len() - i,
    {
        proof {
            assert(all.take(i + 1).drop_last() == all.take(i as int));
            assert(all.take(i + 1).last() == attributes@[i as int]@);
        }
        let a = &attributes[i];
        let mut attrs = make_attr("Name", a.name.as_str());
        attrs.append(make_opt_attr("NameFormat", as_opt_str(&a.name_format)).as_str());
        attrs.append(make_opt_attr("FriendlyName", as_opt_str(&a.friendly_name)).as_str());
        let values = values_to_xml(a.values.as_slice());
        out.append(make_element("saml:Attribute", attrs.as_str(), values.as_str()).as_str());
        i += 1;
    }
    assert(all.take(all.len() as int) == all);
    out
}

/// A `<saml:Subject>`, confirmed by whoever bears the assertion.
pub open spec fn subject_xml(a: AssertionView) -> Seq<char> {
    element(
        "saml:Subject"@,
        Seq::empty(),
        name_id_xml(a.name_id) + element(
            "saml:SubjectConfirmation"@,
            attr("Method"@, BEARER@),
            element(
                "saml:SubjectConfirmationData"@,
                opt_attr("InResponseTo"@, a.in_response_to) + attr(
                    "NotOnOrAfter"@,
                    a.not_on_or_after.text(),
                ) + attr("Recipient"@, a.recipient),
                Seq::empty(),
            ),
        ),
    )
}

fn subject_to_xml(a: &Assertion) -> (result: String)
    requires
        a@.is_dated(),
    ensures
        result@ == subject_xml(a@),
{
    let none = String::new();
    assert(none@ == Seq::<char>::empty());
    let mut data_attrs = make_opt_attr("InResponseTo", as_opt_str(&a.in_response_to));
    data_attrs.append(make_attr("NotOnOrAfter", a.not_on_or_after.to_text().as_str()).as_str());
    data_attrs.append(make_attr("Recipient", a.recipient.as_str()).as_str());
    let data = make_element(
        "saml:SubjectConfirmationData",
        data_attrs.as_str(),
        none.as_str(),
    );
    let confirmation = make_element(
        "saml:SubjectConfirmation",
        make_attr("Method", BEARER).as_str(),
        data.as_str(),
    );
    let mut body = name_id_to_xml(&a.name_id);
    body.append(confirmation.as_str());
    make_element("saml:Subject", none.as_str(), body.as_str())
}

/// A `<saml:Conditions>`: the time of validity and the audience.
pub open spec fn conditions_xml(a: AssertionView) -> Seq<char> {
    element(
        "saml:Conditions"@,
        attr("NotBefore"@, a.issue_instant.text()) + attr(
            "NotOnOrAfter"@,
            a.not_on_or_after.text(),
        ),
        element(
            "saml:AudienceRestriction"@,
            Seq::empty(),
            text_element("saml:Audience"@, Seq::empty(), a.audience),
        ),
    )
}

fn conditions_to_xml(a: &Assertion) -> (result: String)
    requires
        a@.is_dated(),
    ensures
        result@ == conditions_xml(a@),
{
    let none = String::new();
    assert(none@ == Seq::<char>::empty());
    let mut attrs = make_attr("NotBefore", a.issue_instant.to_text().as_str());
    attrs.append(make_attr("NotOnOrAfter", a.not_on_or_after.to_text().as_str()).as_str());
    let audience = make_text_element("saml:Audience", none.as_str(), a.audience.as_str());
    let restriction = make_element("saml:AudienceRestriction", none.as_str(), audience.as_str());
    make_element("saml:Conditions", attrs.as_str(), restriction.as_str())
}

/// The `<saml:SubjectLocality>`, where the address is known.
pub open spec fn locality_xml(address: Option<Seq<char>>) -> Seq<char> {
    match address {
        Some(a) => element("saml:SubjectLocality"@, attr("Address"@, a), Seq::empty()),
        None => Seq::empty(),
    }
}

/// A class reference, or the one that says nothing.
pub open spec fn class_or_unspecified(class_ref: Option<Seq<char>>) -> Seq<char> {
    match class_ref {
        Some(c) => c,
        None => AUTHN_CONTEXT_UNSPECIFIED@,
    }
}

/// A `<saml:AuthnStatement>`.
pub open spec fn authn_xml(a: AssertionView) -> Seq<char> {
    element(
        "saml:AuthnStatement"@,
        attr("AuthnInstant"@, a.authn_instant.text()) + opt_attr("SessionIndex"@, a.session_index)
            + opt_attr("SessionNotOnOrAfter"@, opt_instant(a.session_not_on_or_after)),
        locality_xml(a.client_address) + element(
            "saml:AuthnContext"@,
            Seq::empty(),
            text_element(
                "saml:AuthnContextClassRef"@,
                Seq::empty(),
                class_or_unspecified(a.authn_context_class_ref),
            ) + text_elements("saml:AuthenticatingAuthority"@, a.authenticating_authorities),
        ),
    )
}

fn authn_to_xml(a: &Assertion) -> (result: String)
    requires
        a@.is_dated(),
    ensures
        result@ == authn_xml(a@),
{
    let none = String::new();
    assert(none@ == Seq::<char>::empty());
    let mut attrs = make_attr("AuthnInstant", a.authn_instant.to_text().as_str());
    attrs.append(make_opt_attr("SessionIndex", as_opt_str(&a.session_index)).as_str());
    let session_end = opt_instant_text(a.session_not_on_or_after);
    attrs.append(make_opt_attr("SessionNotOnOrAfter", as_opt_str(&session_end)).as_str());
    let class_ref = match &a.authn_context_class_ref {
        Some(c) => c.as_str(),
        None => AUTHN_CONTEXT_UNSPECIFIED,
    };
    let mut context = make_text_element("saml:AuthnContextClassRef", none.as_str(), class_ref);
    context.append(
        strings_to_xml(
            "saml:AuthenticatingAuthority",
            a.authenticating_authorities.as_slice(),
        ).as_str(),
    );
    let mut body = match &a.client_address {
        Some(address) => make_element(
            "saml:SubjectLocality",
            make_attr("Address", address.as_str()).as_str(),
            none.as_str(),
        ),
        None => String::new(),
    };
    assert(body@ == locality_xml(opt_text(a.client_address)));
    body.append(make_element("saml:AuthnContext", none.as_str(), context.as_str()).as_str());
    make_element("saml:AuthnStatement", attrs.as_str(), body.as_str())
}

/// The `<saml:AttributeStatement>`, where there are attributes.
pub open spec fn attribute_statement_xml(attributes: Seq<AttributeView>) -> Seq<char> {
    if attributes.len() == 0 {
        Seq::empty()
    } else {
        element("saml:AttributeStatement"@, Seq::empty(), attributes_xml(attributes))
    }
}

/// The attributes that every message element has.
pub open spec fn message_attrs(id: Seq<char>, issue_instant: Instant) -> Seq<char> {
    attr("ID"@, id) + attr("Version"@, "2.0"@) + attr("IssueInstant"@, issue_instant.text())
}

pub fn make_message_attrs(id: &str, issue_instant: Instant) -> (result: String)
    requires
        issue_instant.in_range(),
    ensures
        result@ == message_attrs(id@, issue_instant),
{
    let mut attrs = make_attr("ID", id);
    attrs.append(make_attr("Version", "2.0").as_str());
    attrs.append(make_attr("IssueInstant", issue_instant.to_text().as_str()).as_str());
    attrs
}

/// A `<saml:Issuer>`.
pub open spec fn issuer_xml(issuer: Seq<char>) -> Seq<char> {
    text_element("saml:Issuer"@, Seq::empty(), issuer)
}

/// A `<saml:Assertion>`.
pub open spec fn assertion_xml(a: AssertionView) -> Seq<char> {
    element(
        "saml:Assertion"@,
        attr("xmlns:saml"@, SAML_NS@) + message_attrs(a.id, a.issue_instant),
        issuer_xml(a.issuer) + subject_xml(a) + conditions_xml(a) + authn_xml(a)
            + attribute_statement_xml(a.attributes),
    )
}

/// An assertion as XML.
pub fn assertion_to_xml(a: &Assertion) -> (result: String)
    requires
        a@.is_dated(),
    ensures
        result@ == assertion_xml(a@),
{
    let none = String::new();
    assert(none@ == Seq::<char>::empty());
    let mut attrs = make_attr("xmlns:saml", SAML_NS);
    attrs.append(make_message_attrs(a.id.as_str(), a.issue_instant).as_str());
    let mut body = make_text_element("saml:Issuer", none.as_str(), a.issuer.as_str());
    body.append(subject_to_xml(a).as_str());
    body.append(conditions_to_xml(a).as_str());
    body.append(authn_to_xml(a).as_str());
    assert(attribute_views(a.attributes@).len() == a.attributes@.len());
    let statement = if a.attributes.len() == 0 {
        String::new()
    } else {
        make_element(
            "saml:AttributeStatement",
            none.as_str(),
            attributes_to_xml(a.attributes.as_slice()).as_str(),
        )
    };
    assert(statement@ == attribute_statement_xml(attribute_views(a.attributes@)));
    body.append(statement.as_str());
    make_element("saml:Assertion", attrs.as_str(), body.as_str())
}

/// The second-level status code, where there is one.
pub open spec fn sub_code_xml(code: Option<Seq<char>>) -> Seq<char> {
    match code {
        Some(c) => element("samlp:StatusCode"@, attr("Value"@, c), Seq::empty()),
        None => Seq::empty(),
    }
}

/// The status message, where there is one.
pub open spec fn status_message_xml(message: Option<Seq<char>>) -> Seq<char> {
    match message {
        Some(m) => text_element("samlp:StatusMessage"@, Seq::empty(), m),
        None => Seq::empty(),
    }
}

/// A `<samlp:Status>`.
pub open spec fn status_xml(s: StatusView) -> Seq<char> {
    element(
        "samlp:Status"@,
        Seq::empty(),
        element("samlp:StatusCode"@, attr("Value"@, s.code), sub_code_xml(s.sub_code))
            + status_message_xml(s.message),
    )
}

pub fn status_to_xml(s: &Status) -> (result: String)
    ensures
        result@ == status_xml(s@),
{
    let none = String::new();
    assert(none@ == Seq::<char>::empty());
    let sub = match &s.status_code.sub_status {
        Some(code) => make_element(
            "samlp:StatusCode",
            make_attr("Value", code.value.as_str()).as_str(),
            none.as_str(),
        ),
        None => String::new(),
    };
    assert(sub@ == sub_code_xml(s@.sub_code));
    let mut body = make_element(
        "samlp:StatusCode",
        make_attr("Value", s.status_code.value.as_str()).as_str(),
        sub.as_str(),
    );
    let message = match &s.status_message {
        Some(m) => make_text_element("samlp:StatusMessage", none.as_str(), m.as_str()),
        None => String::new(),
    };
    assert(message@ == status_message_xml(s@.message));
    body.append(message.as_str());
    make_element("samlp:Status", none.as_str(), body.as_str())
}

/// The assertion of a response, where there is one.
pub open spec fn opt_assertion_xml(a: Option<AssertionView>) -> Seq<char> {
    match a {
        Some(x) => assertion_xml(x),
        None => Seq::empty(),
    }
}

/// A `<samlp:Response>`.
#[verifier::opaque]
pub open spec fn response_xml(r: ResponseView) -> Seq<char> {
    element(
        "samlp:Response"@,
        attr("xmlns:samlp"@, SAMLP_NS@) + attr("xmlns:saml"@, SAML_NS@) + message_attrs(
            r.id,
            r.issue_instant,
        ) + attr("Destination"@, r.destination) + opt_attr("InResponseTo"@, r.in_response_to),
        issuer_xml(r.issuer) + status_xml(r.status) + opt_assertion_xml(r.assertion),
    )
}

impl Response {
    /// The response as XML.
    pub fn to_xml_string(&self) -> (result: String)
        requires
            self@.is_dated(),
        ensures
            result@ == response_xml(self@),
    {
        let none = String::new();
        assert(none@ == Seq::<char>::empty());
        let mut attrs = make_attr("xmlns:samlp", SAMLP_NS);
        attrs.append(make_attr("xmlns:saml", SAML_NS).as_str());
        attrs.append(make_message_attrs(self.id.as_str(), self.issue_instant).as_str());
        attrs.append(make_attr("Destination", self.destination.as_str()).as_str());
        attrs.append(make_opt_attr("InResponseTo", as_opt_str(&self.in_response_to)).as_str());
        let mut body = make_text_element("saml:Issuer", none.as_str(), self.issuer.as_str());
        body.append(status_to_xml(&self.status).as_str());
        let assertion = match &self.assertion {
            Some(a) => assertion_to_xml(a),
            None => String::new(),
        };
        assert(assertion@ == opt_assertion_xml(self@.assertion));
        proof {
            reveal(response_xml);
        }
        body.append(assertion.as_str());
        make_element("samlp:Response", attrs.as_str(), body.as_str())
    }
}

} // verus!
