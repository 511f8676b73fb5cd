//! What a receiver reads in a response.

use super::attribute::AttributeView;
use super::name_id::NameIdView;
use super::response::{AssertionView, ResponseView};
use super::response_xml::{
    assertion_xml, attribute_statement_xml, attribute_xml, attributes_xml, authn_xml,
    class_or_unspecified, conditions_xml, issuer_xml, locality_xml, message_attrs, name_id_xml,
    opt_assertion_xml, opt_instant, response_xml, status_message_xml, status_xml, sub_code_xml,
    subject_xml, text_elements,
};
use super::status::StatusView;
use super::time::Instant;
use crate::reading::{
    are_written, begins_a_tag, closing, is_name, law_documents_are_read_in_order,
    lemma_begins, lemma_element_is_read, lemma_none_written, lemma_nothing_is_read,
    lemma_one_more_if_any_written, lemma_one_more_written, lemma_text_element_is_read, opening,
    opt_pair, read, Tag,
};
use crate::xml::{attr, escaped, opt_attr, stands_at};
use vstd::prelude::*;

verus! {

proof fn lemma_assertion_names()
    ensures
        is_name("saml:NameID"@),
        is_name("Format"@),
        is_name("NameQualifier"@),
        is_name("SPNameQualifier"@),
        is_name("SPProvidedID"@),
        is_name("saml:Subject"@),
        is_name("saml:SubjectConfirmation"@),
        is_name("saml:SubjectConfirmationData"@),
        is_name("Method"@),
        is_name("InResponseTo"@),
        is_name("NotOnOrAfter"@),
        is_name("Recipient"@),
        is_name("saml:Conditions"@),
        is_name("NotBefore"@),
        is_name("saml:AudienceRestriction"@),
        is_name("saml:Audience"@),
{
    reveal_strlit("saml:NameID");
    reveal_strlit("Format");
    reveal_strlit("NameQualifier");
    reveal_strlit("SPNameQualifier");
    reveal_strlit("SPProvidedID");
    reveal_strlit("saml:Subject");
    reveal_strlit("saml:SubjectConfirmation");
    reveal_strlit("saml:SubjectConfirmationData");
    reveal_strlit("Method");
    reveal_strlit("InResponseTo");
    reveal_strlit("NotOnOrAfter");
    reveal_strlit("Recipient");
    reveal_strlit("saml:Conditions");
    reveal_strlit("NotBefore");
    reveal_strlit("saml:AudienceRestriction");
    reveal_strlit("saml:Audience");
}

proof fn lemma_statement_names()
    ensures
        is_name("saml:AuthnStatement"@),
        is_name("AuthnInstant"@),
        is_name("SessionIndex"@),
        is_name("SessionNotOnOrAfter"@),
        is_name("saml:SubjectLocality"@),
        is_name("Address"@),
        is_name("saml:AuthnContext"@),
        is_name("saml:AuthnContextClassRef"@),
        is_name("saml:AuthenticatingAuthority"@),
        is_name("saml:AttributeStatement"@),
        is_name("saml:Attribute"@),
        is_name("Name"@),
        is_name("NameFormat"@),
        is_name("FriendlyName"@),
        is_name("saml:AttributeValue"@),
{
    reveal_strlit("saml:AuthnStatement");
    reveal_strlit("AuthnInstant");
    reveal_strlit("SessionIndex");
    reveal_strlit("SessionNotOnOrAfter");
    reveal_strlit("saml:SubjectLocality");
    reveal_strlit("Address");
    reveal_strlit("saml:AuthnContext");
    reveal_strlit("saml:AuthnContextClassRef");
    reveal_strlit("saml:AuthenticatingAuthority");
    reveal_strlit("saml:AttributeStatement");
    reveal_strlit("saml:Attribute");
    reveal_strlit("Name");
    reveal_strlit("NameFormat");
    reveal_strlit("FriendlyName");
    reveal_strlit("saml:AttributeValue");
}

proof fn lemma_message_names()
    ensures
        is_name("samlp:Response"@),
        is_name("saml:Assertion"@),
        is_name("saml:Issuer"@),
        is_name("samlp:Status"@),
        is_name("samlp:StatusCode"@),
        is_name("samlp:StatusMessage"@),
        is_name("Value"@),
        is_name("xmlns:samlp"@),
        is_name("xmlns:saml"@),
        is_name("ID"@),
        is_name("Version"@),
        is_name("IssueInstant"@),
        is_name("Destination"@),
{
    reveal_strlit("samlp:Response");
    reveal_strlit("saml:Assertion");
    reveal_strlit("saml:Issuer");
    reveal_strlit("samlp:Status");
    reveal_strlit("samlp:StatusCode");
    reveal_strlit("samlp:StatusMessage");
    reveal_strlit("Value");
    reveal_strlit("xmlns:samlp");
    reveal_strlit("xmlns:saml");
    reveal_strlit("ID");
    reveal_strlit("Version");
    reveal_strlit("IssueInstant");
    reveal_strlit("Destination");
}

/// A receiver reads the NameID back: its value, its format and its qualifiers.
pub proof fn law_name_id_is_read(n: NameIdView)
    ensures
        read(name_id_xml(n)) == seq![
            opening(
                "saml:NameID"@,
                opt_pair("Format"@, n.format) + opt_pair("NameQualifier"@, n.name_qualifier)
                    + opt_pair("SPNameQualifier"@, n.sp_name_qualifier) + opt_pair(
                    "SPProvidedID"@,
                    n.sp_provided_id,
                ),
                n.value,
            ),
            closing("saml:NameID"@),
        ],
        begins_a_tag(name_id_xml(n)),
        name_id_xml(n).len() > 0,
{
    lemma_assertion_names();
    lemma_none_written();
    let none = Seq::<char>::empty();
    let nothing = Seq::<(Seq<char>, Seq<char>)>::empty();
    let a1 = opt_attr("Format"@, n.format);
    let l1 = opt_pair("Format"@, n.format);
    lemma_one_more_if_any_written(none, nothing, "Format"@, n.format);
    assert(none + a1 == a1);
    assert(nothing + l1 == l1);
    let a2 = a1 + opt_attr("NameQualifier"@, n.name_qualifier);
    let l2 = l1 + opt_pair("NameQualifier"@, n.name_qualifier);
    lemma_one_more_if_any_written(a1, l1, "NameQualifier"@, n.name_qualifier);
    let a3 = a2 + opt_attr("SPNameQualifier"@, n.sp_name_qualifier);
    let l3 = l2 + opt_pair("SPNameQualifier"@, n.sp_name_qualifier);
    lemma_one_more_if_any_written(a2, l2, "SPNameQualifier"@, n.sp_name_qualifier);
    let a4 = a3 + opt_attr("SPProvidedID"@, n.sp_provided_id);
    let l4 = l3 + opt_pair("SPProvidedID"@, n.sp_provided_id);
    lemma_one_more_if_any_written(a3, l3, "SPProvidedID"@, n.sp_provided_id);
    lemma_text_element_is_read("saml:NameID"@, a4, l4, n.value);
}

/// The tags of text elements of one name.
pub open spec fn text_tags(name: Seq<char>, values: Seq<Seq<char>>) -> Seq<Tag> {
    Seq::new(
        2 * values.len(),
        |i: int|
            if i % 2 == 0 {
                opening(name, Seq::empty(), values[i / 2])
            } else {
                closing(name)
            },
    )
}

/// Text elements are read back one after another, each with its own text.
pub proof fn law_text_elements_are_read(name: Seq<char>, values: Seq<Seq<char>>)
    requires
        is_name(name),
    ensures
        read(text_elements(name, values)) == text_tags(name, values),
        begins_a_tag(text_elements(name, values)),
        values.len() > 0 ==> text_elements(name, values).len() > 0,
    decreases values.len(),
{
    let none = Seq::<char>::empty();
    lemma_none_written();
    if values.len() == 0 {
        law_documents_are_read_in_order(none, none);
        assert(none + none == none);
        assert(read(none).len() == read(none).len() + read(none).len());
        assert(read(none) == text_tags(name, values));
    } else {
        let front = values.drop_last();
        law_text_elements_are_read(name, front);
        let before = text_elements(name, front);
        let last = crate::xml::text_element(name, none, values.last());
        lemma_text_element_is_read(name, none, Seq::empty(), values.last());
        law_documents_are_read_in_order(before, last);
        let all = text_tags(name, values);
        let tags = text_tags(name, front) + read(last);
        assert(tags.len() == all.len());
        assert forall|i: int| 0 <= i < all.len() implies tags[i] == all[i] by {
            if i < 2 * front.len() {
                assert(tags[i] == text_tags(name, front)[i]);
                assert(front[i / 2] == values[i / 2]);
            } else {
                assert(i / 2 == front.len());
            }
        }
        if before.len() > 0 {
            assert((before + last)[0] == before[0]);
        } else {
            assert((before + last)[0] == last[0]);
        }
    }
}

/// What a receiver reads of an attribute: its names, and each of its values.
pub open spec fn attribute_tags(a: AttributeView) -> Seq<Tag> {
    seq![
        opening(
            "saml:Attribute"@,
            seq![("Name"@, a.name)] + opt_pair("NameFormat"@, a.name_format) + opt_pair(
                "FriendlyName"@,
                a.friendly_name,
            ),
            Seq::empty(),
        ),
    ] + text_tags("saml:AttributeValue"@, a.values) + seq![closing("saml:Attribute"@)]
}

/// An attribute is read back.
pub proof fn law_attribute_is_read(a: AttributeView)
    ensures
        read(attribute_xml(a)) == attribute_tags(a),
        begins_a_tag(attribute_xml(a)),
        attribute_xml(a).len() > 0,
{
    lemma_statement_names();
    lemma_none_written();
    let none = Seq::<char>::empty();
    let nothing = Seq::<(Seq<char>, Seq<char>)>::empty();
    let a1 = attr("Name"@, a.name);
    let l1 = seq![("Name"@, a.name)];
    lemma_one_more_written(none, nothing, "Name"@, a.name);
    assert(none + a1 == a1);
    assert(nothing.push(("Name"@, a.name)) == l1);
    let a2 = a1 + opt_attr("NameFormat"@, a.name_format);
    let l2 = l1 + opt_pair("NameFormat"@, a.name_format);
    lemma_one_more_if_any_written(a1, l1, "NameFormat"@, a.name_format);
    let a3 = a2 + opt_attr("FriendlyName"@, a.friendly_name);
    let l3 = l2 + opt_pair("FriendlyName"@, a.friendly_name);
    lemma_one_more_if_any_written(a2, l2, "FriendlyName"@, a.friendly_name);
    let body = text_elements("saml:AttributeValue"@, a.values);
    law_text_elements_are_read("saml:AttributeValue"@, a.values);
    lemma_element_is_read("saml:Attribute"@, a3, l3, body);
}

/// What a receiver reads of attributes.
pub open spec fn attributes_tags(attributes: Seq<AttributeView>) -> Seq<Tag>
    decreases attributes.len(),
{
    if attributes.len() == 0 {
        Seq::empty()
    } else {
        attributes_tags(attributes.drop_last()) + attribute_tags(attributes.last())
    }
}

/// Attributes are read back, each with its own names and values, in order.
pub proof fn law_attributes_are_read(attributes: Seq<AttributeView>)
    ensures
        read(attributes_xml(attributes)) == attributes_tags(attributes),
        begins_a_tag(attributes_xml(attributes)),
    decreases attributes.len(),
{
    if attributes.len() == 0 {
        lemma_nothing_is_read();
    } else {
        let front = attributes.drop_last();
        law_attributes_are_read(front);
        law_attribute_is_read(attributes.last());
        law_documents_are_read_in_order(attributes_xml(front), attribute_xml(attributes.last()));
        lemma_begins(attributes_xml(front), attribute_xml(attributes.last()));
    }
}

/// What a receiver reads of the subject: the NameID, and that whoever bears the
/// assertion is the subject, in answer to which request, until when and where.
pub open spec fn subject_tags(a: AssertionView) -> Seq<Tag> {
    seq![opening("saml:Subject"@, seq![], seq![])] + read(name_id_xml(a.name_id)) + seq![
        opening(
            "saml:SubjectConfirmation"@,
            seq![("Method"@, "urn:oasis:names:tc:SAML:2.0:cm:bearer"@)],
            seq![],
        ),
        opening(
            "saml:SubjectConfirmationData"@,
            opt_pair("InResponseTo"@, a.in_response_to) + seq![
                ("NotOnOrAfter"@, a.not_on_or_after.text()),
                ("Recipient"@, a.recipient),
            ],
            seq![],
        ),
        closing("saml:SubjectConfirmationData"@),
        closing("saml:SubjectConfirmation"@),
        closing("saml:Subject"@),
    ]
}

/// The attributes that say until when, where and in answer to what a subject is
/// confirmed.
spec fn confirmation_attrs(a: AssertionView) -> Seq<char> {
    opt_attr("InResponseTo"@, a.in_response_to) + attr("NotOnOrAfter"@, a.not_on_or_after.text())
        + attr("Recipient"@, a.recipient)
}

spec fn confirmation_pairs(a: AssertionView) -> Seq<(Seq<char>, Seq<char>)> {
    opt_pair("InResponseTo"@, a.in_response_to) + seq![
        ("NotOnOrAfter"@, a.not_on_or_after.text()),
        ("Recipient"@, a.recipient),
    ]
}

proof fn lemma_confirmation_attrs_are_written(a: AssertionView)
    ensures
        are_written(confirmation_attrs(a), confirmation_pairs(a)),
{
    lemma_assertion_names();
    lemma_none_written();
    let none = Seq::<char>::empty();
    let nothing = Seq::<(Seq<char>, Seq<char>)>::empty();
    let a1 = opt_attr("InResponseTo"@, a.in_response_to);
    let l1 = opt_pair("InResponseTo"@, a.in_response_to);
    lemma_one_more_if_any_written(none, nothing, "InResponseTo"@, a.in_response_to);
    assert(none + a1 == a1);
    assert(nothing + l1 == l1);
    let a2 = a1 + attr("NotOnOrAfter"@, a.not_on_or_after.text());
    let l2 = l1.push(("NotOnOrAfter"@, a.not_on_or_after.text()));
    lemma_one_more_written(a1, l1, "NotOnOrAfter"@, a.not_on_or_after.text());
    let l3 = l2.push(("Recipient"@, a.recipient));
    lemma_one_more_written(a2, l2, "Recipient"@, a.recipient);
    assert(l3 == confirmation_pairs(a));
}

/// A bearer confirmation around its data is read back.
proof fn lemma_confirmation_is_read(attrs: Seq<char>, pairs: Seq<(Seq<char>, Seq<char>)>)
    requires
        are_written(attrs, pairs),
    ensures
        ({
            let bearer = "urn:oasis:names:tc:SAML:2.0:cm:bearer"@;
            let confirmation = crate::xml::element(
                "saml:SubjectConfirmation"@,
                attr("Method"@, bearer),
                crate::xml::element("saml:SubjectConfirmationData"@, attrs, Seq::empty()),
            );
            &&& read(confirmation) == seq![
                opening("saml:SubjectConfirmation"@, seq![("Method"@, bearer)], seq![]),
                opening("saml:SubjectConfirmationData"@, pairs, seq![]),
                closing("saml:SubjectConfirmationData"@),
                closing("saml:SubjectConfirmation"@),
            ]
            &&& begins_a_tag(confirmation)
        }),
{
    lemma_assertion_names();
    lemma_none_written();
    lemma_nothing_is_read();
    let none = Seq::<char>::empty();
    let nothing = Seq::<(Seq<char>, Seq<char>)>::empty();
    let bearer = "urn:oasis:names:tc:SAML:2.0:cm:bearer"@;
    lemma_element_is_read("saml:SubjectConfirmationData"@, attrs, pairs, none);
    let data = crate::xml::element("saml:SubjectConfirmationData"@, attrs, none);
    let m = attr("Method"@, bearer);
    lemma_one_more_written(none, nothing, "Method"@, bearer);
    assert(none + m == m);
    assert(nothing.push(("Method"@, bearer)) == seq![("Method"@, bearer)]);
    lemma_element_is_read("saml:SubjectConfirmation"@, m, seq![("Method"@, bearer)], data);
}

/// The subject is read back.
pub proof fn law_subject_is_read(a: AssertionView)
    ensures
        read(subject_xml(a)) == subject_tags(a),
        begins_a_tag(subject_xml(a)),
{
    lemma_assertion_names();
    lemma_none_written();
    law_name_id_is_read(a.name_id);
    lemma_confirmation_attrs_are_written(a);
    lemma_confirmation_is_read(confirmation_attrs(a), confirmation_pairs(a));
    let none = Seq::<char>::empty();
    let nothing = Seq::<(Seq<char>, Seq<char>)>::empty();
    let confirmation = crate::xml::element(
        "saml:SubjectConfirmation"@,
        attr("Method"@, "urn:oasis:names:tc:SAML:2.0:cm:bearer"@),
        crate::xml::element("saml:SubjectConfirmationData"@, confirmation_attrs(a), none),
    );
    let n = name_id_xml(a.name_id);
    law_documents_are_read_in_order(n, confirmation);
    lemma_begins(n, confirmation);
    lemma_element_is_read("saml:Subject"@, none, nothing, n + confirmation);
    assert(subject_xml(a) == crate::xml::element("saml:Subject"@, none, n + confirmation));
    assert(read(subject_xml(a)) == subject_tags(a));
}

/// What a receiver reads of the conditions: from when on and until when the
/// assertion is valid, and who it is for.
pub open spec fn conditions_tags(a: AssertionView) -> Seq<Tag> {
    seq![
        opening(
            "saml:Conditions"@,
            seq![
                ("NotBefore"@, a.issue_instant.text()),
                ("NotOnOrAfter"@, a.not_on_or_after.text()),
            ],
            seq![],
        ),
        opening("saml:AudienceRestriction"@, seq![], seq![]),
        opening("saml:Audience"@, seq![], a.audience),
        closing("saml:Audience"@),
        closing("saml:AudienceRestriction"@),
        closing("saml:Conditions"@),
    ]
}

/// The conditions are read back.
pub proof fn law_conditions_are_read(a: AssertionView)
    ensures
        read(conditions_xml(a)) == conditions_tags(a),
        begins_a_tag(conditions_xml(a)),
{
    lemma_assertion_names();
    lemma_none_written();
    let none = Seq::<char>::empty();
    let nothing = Seq::<(Seq<char>, Seq<char>)>::empty();
    let from = a.issue_instant.text();
    let until = a.not_on_or_after.text();
    let a1 = attr("NotBefore"@, from);
    let l1 = nothing.push(("NotBefore"@, from));
    lemma_one_more_written(none, nothing, "NotBefore"@, from);
    assert(none + a1 == a1);
    let a2 = a1 + attr("NotOnOrAfter"@, until);
    let l2 = l1.push(("NotOnOrAfter"@, until));
    lemma_one_more_written(a1, l1, "NotOnOrAfter"@, until);
    assert(l2 == seq![("NotBefore"@, from), ("NotOnOrAfter"@, until)]);
    lemma_text_element_is_read("saml:Audience"@, none, nothing, a.audience);
    let audience = crate::xml::text_element("saml:Audience"@, none, a.audience);
    lemma_element_is_read("saml:AudienceRestriction"@, none, nothing, audience);
    let restriction = crate::xml::element("saml:AudienceRestriction"@, none, audience);
    lemma_element_is_read("saml:Conditions"@, a2, l2, restriction);
    assert(read(conditions_xml(a)) == conditions_tags(a));
}

/// What a receiver reads of an address, where it is known.
pub open spec fn locality_tags(address: Option<Seq<char>>) -> Seq<Tag> {
    match address {
        Some(a) => seq![
            opening("saml:SubjectLocality"@, seq![("Address"@, a)], seq![]),
            closing("saml:SubjectLocality"@),
        ],
        None => seq![],
    }
}

proof fn lemma_locality_is_read(address: Option<Seq<char>>)
    ensures
        read(locality_xml(address)) == locality_tags(address),
        begins_a_tag(locality_xml(address)),
{
    lemma_statement_names();
    lemma_none_written();
    lemma_nothing_is_read();
    if let Some(a) = address {
        let none = Seq::<char>::empty();
        let nothing = Seq::<(Seq<char>, Seq<char>)>::empty();
        lemma_one_more_written(none, nothing, "Address"@, a);
        assert(none + attr("Address"@, a) == attr("Address"@, a));
        assert(nothing.push(("Address"@, a)) == seq![("Address"@, a)]);
        lemma_element_is_read(
            "saml:SubjectLocality"@,
            attr("Address"@, a),
            seq![("Address"@, a)],
            none,
        );
        assert(read(locality_xml(address)) == locality_tags(address));
    }
}

/// What a receiver reads of the authentication: when it was, in which session
/// and until when that lasts, from where, and how and through whom it was done.
pub open spec fn authn_tags(a: AssertionView) -> Seq<Tag> {
    seq![
        opening(
            "saml:AuthnStatement"@,
            seq![("AuthnInstant"@, a.authn_instant.text())] + opt_pair(
                "SessionIndex"@,
                a.session_index,
            ) + opt_pair(
                "SessionNotOnOrAfter"@,
                match a.session_not_on_or_after {
                    Some(t) => Some(t.text()),
                    None => None,
                },
            ),
            seq![],
        ),
    ] + locality_tags(a.client_address) + seq![
        opening("saml:AuthnContext"@, seq![], seq![]),
        opening(
            "saml:AuthnContextClassRef"@,
            seq![],
            match a.authn_context_class_ref {
                Some(c) => c,
                None => "urn:oasis:names:tc:SAML:2.0:ac:classes:unspecified"@,
            },
        ),
        closing("saml:AuthnContextClassRef"@),
    ] + text_tags("saml:AuthenticatingAuthority"@, a.authenticating_authorities) + seq![
        closing("saml:AuthnContext"@),
        closing("saml:AuthnStatement"@),
    ]
}

/// The authentication is read back.
pub proof fn law_authentication_is_read(a: AssertionView)
    ensures
        read(authn_xml(a)) == authn_tags(a),
        begins_a_tag(authn_xml(a)),
{
    lemma_statement_names();
    lemma_none_written();
    lemma_locality_is_read(a.client_address);
    let none = Seq::<char>::empty();
    let nothing = Seq::<(Seq<char>, Seq<char>)>::empty();
    let at = a.authn_instant.text();
    let end = opt_instant(a.session_not_on_or_after);
    let class_ref = class_or_unspecified(a.authn_context_class_ref);
    let a1 = attr("AuthnInstant"@, at);
    let l1 = seq![("AuthnInstant"@, at)];
    lemma_one_more_written(none, nothing, "AuthnInstant"@, at);
    assert(none + a1 == a1);
    assert(nothing.push(("AuthnInstant"@, at)) == l1);
    let a2 = a1 + opt_attr("SessionIndex"@, a.session_index);
    let l2 = l1 + opt_pair("SessionIndex"@, a.session_index);
    lemma_one_more_if_any_written(a1, l1, "SessionIndex"@, a.session_index);
    let a3 = a2 + opt_attr("SessionNotOnOrAfter"@, end);
    let l3 = l2 + opt_pair("SessionNotOnOrAfter"@, end);
    lemma_one_more_if_any_written(a2, l2, "SessionNotOnOrAfter"@, end);
    lemma_text_element_is_read("saml:AuthnContextClassRef"@, none, nothing, class_ref);
    let class = crate::xml::text_element("saml:AuthnContextClassRef"@, none, class_ref);
    let authorities = text_elements(
        "saml:AuthenticatingAuthority"@,
        a.authenticating_authorities,
    );
    law_text_elements_are_read("saml:AuthenticatingAuthority"@, a.authenticating_authorities);
    lemma_nested(
        "saml:AuthnStatement"@,
        a3,
        l3,
        locality_xml(a.client_address),
        "saml:AuthnContext"@,
        class,
        opening("saml:AuthnContextClassRef"@, seq![], class_ref),
        closing("saml:AuthnContextClassRef"@),
        authorities,
    );
}

/// An element that holds a document and then an element, which holds a text
/// element and then a document.
proof fn lemma_nested(
    outer: Seq<char>,
    attrs: Seq<char>,
    list: Seq<(Seq<char>, Seq<char>)>,
    first: Seq<char>,
    inner: Seq<char>,
    second: Seq<char>,
    opened: Tag,
    closed: Tag,
    third: Seq<char>,
)
    requires
        is_name(outer),
        is_name(inner),
        are_written(attrs, list),
        begins_a_tag(first),
        begins_a_tag(second),
        begins_a_tag(third),
        read(second) == seq![opened, closed],
    ensures
        read(
            crate::xml::element(
                outer,
                attrs,
                first + crate::xml::element(inner, Seq::empty(), second + third),
            ),
        ) == seq![opening(outer, list, seq![])] + read(first) + seq![
            opening(inner, seq![], seq![]),
            opened,
            closed,
        ] + read(third) + seq![closing(inner), closing(outer)],
        begins_a_tag(
            crate::xml::element(
                outer,
                attrs,
                first + crate::xml::element(inner, Seq::empty(), second + third),
            ),
        ),
{
    lemma_none_written();
    law_documents_are_read_in_order(second, third);
    lemma_begins(second, third);
    lemma_element_is_read(inner, Seq::empty(), Seq::empty(), second + third);
    let context = crate::xml::element(inner, Seq::empty(), second + third);
    law_documents_are_read_in_order(first, context);
    lemma_begins(first, context);
    lemma_element_is_read(outer, attrs, list, first + context);
    lemma_regroup_nested(
        opening(outer, list, seq![]),
        read(first),
        opening(inner, seq![], seq![]),
        opened,
        closed,
        read(third),
        closing(inner),
        closing(outer),
    );
}

proof fn lemma_regroup_nested(
    a: Tag,
    b: Seq<Tag>,
    c: Tag,
    d: Tag,
    e: Tag,
    f: Seq<Tag>,
    g: Tag,
    h: Tag,
)
    ensures
        seq![a] + (b + (seq![c] + (seq![d, e] + f) + seq![g])) + seq![h] == seq![a] + b + seq![
            c,
            d,
            e,
        ] + f + seq![g, h],
{
}

/// What a receiver reads of the released attributes, where there are any.
pub open spec fn attribute_statement_tags(attributes: Seq<AttributeView>) -> Seq<Tag> {
    if attributes.len() == 0 {
        seq![]
    } else {
        seq![opening("saml:AttributeStatement"@, seq![], seq![])] + attributes_tags(attributes)
            + seq![closing("saml:AttributeStatement"@)]
    }
}

pub proof fn lemma_attribute_statement_is_read(attributes: Seq<AttributeView>)
    ensures
        read(attribute_statement_xml(attributes)) == attribute_statement_tags(attributes),
        begins_a_tag(attribute_statement_xml(attributes)),
{
    lemma_statement_names();
    lemma_none_written();
    lemma_nothing_is_read();
    law_attributes_are_read(attributes);
    if attributes.len() > 0 {
        lemma_element_is_read(
            "saml:AttributeStatement"@,
            Seq::empty(),
            Seq::empty(),
            attributes_xml(attributes),
        );
    }
}

/// What a receiver reads of who issued a message.
pub open spec fn issuer_tags(issuer: Seq<char>) -> Seq<Tag> {
    seq![opening("saml:Issuer"@, seq![], issuer), closing("saml:Issuer"@)]
}

/// The issuer is read back.
pub proof fn law_issuer_is_read(issuer: Seq<char>)
    ensures
        read(issuer_xml(issuer)) == issuer_tags(issuer),
        begins_a_tag(issuer_xml(issuer)),
{
    lemma_message_names();
    lemma_none_written();
    lemma_text_element_is_read("saml:Issuer"@, Seq::empty(), Seq::empty(), issuer);
}

/// The attributes of a message, after others.
pub proof fn lemma_message_attrs_written(
    attrs: Seq<char>,
    list: Seq<(Seq<char>, Seq<char>)>,
    id: Seq<char>,
    issue_instant: Instant,
)
    requires
        are_written(attrs, list),
    ensures
        are_written(
            attrs + message_attrs(id, issue_instant),
            list + seq![
                ("ID"@, id),
                ("Version"@, "2.0"@),
                ("IssueInstant"@, issue_instant.text()),
            ],
        ),
{
    lemma_message_names();
    let at = issue_instant.text();
    let a1 = attrs + attr("ID"@, id);
    let l1 = list.push(("ID"@, id));
    lemma_one_more_written(attrs, list, "ID"@, id);
    let a2 = a1 + attr("Version"@, "2.0"@);
    let l2 = l1.push(("Version"@, "2.0"@));
    lemma_one_more_written(a1, l1, "Version"@, "2.0"@);
    let a3 = a2 + attr("IssueInstant"@, at);
    let l3 = l2.push(("IssueInstant"@, at));
    lemma_one_more_written(a2, l2, "IssueInstant"@, at);
    assert(a3 == attrs + message_attrs(id, issue_instant));
    assert(l3 == list + seq![("ID"@, id), ("Version"@, "2.0"@), ("IssueInstant"@, at)]);
}

/// What a receiver reads of an assertion.
pub open spec fn assertion_tags(a: AssertionView) -> Seq<Tag> {
    seq![
        opening(
            "saml:Assertion"@,
            seq![
                ("xmlns:saml"@, "urn:oasis:names:tc:SAML:2.0:assertion"@),
                ("ID"@, a.id),
                ("Version"@, "2.0"@),
                ("IssueInstant"@, a.issue_instant.text()),
            ],
            seq![],
        ),
    ] + issuer_tags(a.issuer) + subject_tags(a) + conditions_tags(a) + authn_tags(a)
        + attribute_statement_tags(a.attributes) + seq![closing("saml:Assertion"@)]
}

pub proof fn lemma_assertion_attrs_written(a: AssertionView)
    ensures
        are_written(
            attr("xmlns:saml"@, "urn:oasis:names:tc:SAML:2.0:assertion"@) + message_attrs(
                a.id,
                a.issue_instant,
            ),
            seq![
                ("xmlns:saml"@, "urn:oasis:names:tc:SAML:2.0:assertion"@),
                ("ID"@, a.id),
                ("Version"@, "2.0"@),
                ("IssueInstant"@, a.issue_instant.text()),
            ],
        ),
{
    lemma_message_names();
    lemma_none_written();
    let none = Seq::<char>::empty();
    let nothing = Seq::<(Seq<char>, Seq<char>)>::empty();
    let ns = "urn:oasis:names:tc:SAML:2.0:assertion"@;
    let a1 = attr("xmlns:saml"@, ns);
    let l1 = nothing.push(("xmlns:saml"@, ns));
    lemma_one_more_written(none, nothing, "xmlns:saml"@, ns);
    assert(none + a1 == a1);
    lemma_message_attrs_written(a1, l1, a.id, a.issue_instant);
    let more = seq![
        ("ID"@, a.id),
        ("Version"@, "2.0"@),
        ("IssueInstant"@, a.issue_instant.text()),
    ];
    assert(l1 + more == seq![
        ("xmlns:saml"@, ns),
        ("ID"@, a.id),
        ("Version"@, "2.0"@),
        ("IssueInstant"@, a.issue_instant.text()),
    ]);
}

/// An assertion is read back.
pub proof fn law_assertion_is_read(a: AssertionView)
    ensures
        read(assertion_xml(a)) == assertion_tags(a),
        begins_a_tag(assertion_xml(a)),
{
    assert(is_name("saml:Assertion"@)) by {
        lemma_message_names();
    }
    lemma_assertion_attrs_written(a);
    law_issuer_is_read(a.issuer);
    law_subject_is_read(a);
    law_conditions_are_read(a);
    law_authentication_is_read(a);
    lemma_attribute_statement_is_read(a.attributes);
    lemma_five_parts(
        "saml:Assertion"@,
        attr("xmlns:saml"@, "urn:oasis:names:tc:SAML:2.0:assertion"@) + message_attrs(
            a.id,
            a.issue_instant,
        ),
        seq![
            ("xmlns:saml"@, "urn:oasis:names:tc:SAML:2.0:assertion"@),
            ("ID"@, a.id),
            ("Version"@, "2.0"@),
            ("IssueInstant"@, a.issue_instant.text()),
        ],
        issuer_xml(a.issuer),
        subject_xml(a),
        conditions_xml(a),
        authn_xml(a),
        attribute_statement_xml(a.attributes),
    );
}

/// An element that holds five documents.
proof fn lemma_five_parts(
    name: Seq<char>,
    attrs: Seq<char>,
    list: Seq<(Seq<char>, Seq<char>)>,
    b: Seq<char>,
    c: Seq<char>,
    d: Seq<char>,
    e: Seq<char>,
    f: Seq<char>,
)
    requires
        is_name(name),
        are_written(attrs, list),
        begins_a_tag(b),
        begins_a_tag(c),
        begins_a_tag(d),
        begins_a_tag(e),
        begins_a_tag(f),
    ensures
        read(crate::xml::element(name, attrs, b + c + d + e + f)) == seq![
            opening(name, list, seq![]),
        ] + read(b) + read(c) + read(d) + read(e) + read(f) + seq![closing(name)],
        begins_a_tag(crate::xml::element(name, attrs, b + c + d + e + f)),
{
    law_documents_are_read_in_order(b, c);
    lemma_begins(b, c);
    law_documents_are_read_in_order(b + c, d);
    lemma_begins(b + c, d);
    law_documents_are_read_in_order(b + c + d, e);
    lemma_begins(b + c + d, e);
    law_documents_are_read_in_order(b + c + d + e, f);
    lemma_begins(b + c + d + e, f);
    lemma_element_is_read(name, attrs, list, b + c + d + e + f);
    lemma_regroup(
        seq![opening(name, list, seq![])],
        read(b),
        read(c),
        read(d),
        read(e),
        read(f),
        seq![closing(name)],
    );
}

proof fn lemma_regroup(
    a: Seq<Tag>,
    b: Seq<Tag>,
    c: Seq<Tag>,
    d: Seq<Tag>,
    e: Seq<Tag>,
    f: Seq<Tag>,
    g: Seq<Tag>,
)
    ensures
        a + (b + c + d + e + f) + g == a + b + c + d + e + f + g,
{
}

/// What a receiver reads of a status: the code, the code below it and the
/// message, where there are those.
pub open spec fn status_tags(s: StatusView) -> Seq<Tag> {
    seq![
        opening("samlp:Status"@, seq![], seq![]),
        opening("samlp:StatusCode"@, seq![("Value"@, s.code)], seq![]),
    ] + (match s.sub_code {
        Some(c) => seq![
            opening("samlp:StatusCode"@, seq![("Value"@, c)], seq![]),
            closing("samlp:StatusCode"@),
        ],
        None => seq![],
    }) + seq![closing("samlp:StatusCode"@)] + (match s.message {
        Some(m) => seq![
            opening("samlp:StatusMessage"@, seq![], m),
            closing("samlp:StatusMessage"@),
        ],
        None => seq![],
    }) + seq![closing("samlp:Status"@)]
}

/// A status is read back.
pub proof fn law_status_is_read(s: StatusView)
    ensures
        read(status_xml(s)) == status_tags(s),
        begins_a_tag(status_xml(s)),
{
    lemma_message_names();
    lemma_none_written();
    lemma_nothing_is_read();
    let none = Seq::<char>::empty();
    let nothing = Seq::<(Seq<char>, Seq<char>)>::empty();
    if let Some(c) = s.sub_code {
        lemma_one_more_written(none, nothing, "Value"@, c);
        assert(none + attr("Value"@, c) == attr("Value"@, c));
        assert(nothing.push(("Value"@, c)) == seq![("Value"@, c)]);
        lemma_element_is_read("samlp:StatusCode"@, attr("Value"@, c), seq![("Value"@, c)], none);
    }
    if let Some(m) = s.message {
        lemma_text_element_is_read("samlp:StatusMessage"@, none, nothing, m);
    }
    let sub = sub_code_xml(s.sub_code);
    let message = status_message_xml(s.message);
    lemma_one_more_written(none, nothing, "Value"@, s.code);
    assert(none + attr("Value"@, s.code) == attr("Value"@, s.code));
    assert(nothing.push(("Value"@, s.code)) == seq![("Value"@, s.code)]);
    lemma_element_is_read(
        "samlp:StatusCode"@,
        attr("Value"@, s.code),
        seq![("Value"@, s.code)],
        sub,
    );
    let code = crate::xml::element("samlp:StatusCode"@, attr("Value"@, s.code), sub);
    law_documents_are_read_in_order(code, message);
    lemma_begins(code, message);
    lemma_element_is_read("samlp:Status"@, none, nothing, code + message);
    assert(read(status_xml(s)) == status_tags(s));
}

/// The attributes of a response: its identifier, when it was issued, where it
/// goes, and in answer to what.
pub open spec fn response_attributes(r: ResponseView) -> Seq<(Seq<char>, Seq<char>)> {
    seq![
        ("xmlns:samlp"@, "urn:oasis:names:tc:SAML:2.0:protocol"@),
        ("xmlns:saml"@, "urn:oasis:names:tc:SAML:2.0:assertion"@),
        ("ID"@, r.id),
        ("Version"@, "2.0"@),
        ("IssueInstant"@, r.issue_instant.text()),
        ("Destination"@, r.destination),
    ] + opt_pair("InResponseTo"@, r.in_response_to)
}

pub proof fn lemma_response_attrs_written(r: ResponseView)
    ensures
        are_written(
            attr("xmlns:samlp"@, "urn:oasis:names:tc:SAML:2.0:protocol"@) + attr(
                "xmlns:saml"@,
                "urn:oasis:names:tc:SAML:2.0:assertion"@,
            ) + message_attrs(r.id, r.issue_instant) + attr("Destination"@, r.destination)
                + opt_attr("InResponseTo"@, r.in_response_to),
            response_attributes(r),
        ),
{
    lemma_message_names();
    lemma_assertion_names();
    lemma_none_written();
    let none = Seq::<char>::empty();
    let nothing = Seq::<(Seq<char>, Seq<char>)>::empty();
    let protocol = "urn:oasis:names:tc:SAML:2.0:protocol"@;
    let ns = "urn:oasis:names:tc:SAML:2.0:assertion"@;
    let a1 = attr("xmlns:samlp"@, protocol);
    let l1 = nothing.push(("xmlns:samlp"@, protocol));
    lemma_one_more_written(none, nothing, "xmlns:samlp"@, protocol);
    assert(none + a1 == a1);
    let a2 = a1 + attr("xmlns:saml"@, ns);
    let l2 = l1.push(("xmlns:saml"@, ns));
    lemma_one_more_written(a1, l1, "xmlns:saml"@, ns);
    let a3 = a2 + message_attrs(r.id, r.issue_instant);
    let more = seq![
        ("ID"@, r.id),
        ("Version"@, "2.0"@),
        ("IssueInstant"@, r.issue_instant.text()),
    ];
    let l3 = l2 + more;
    lemma_message_attrs_written(a2, l2, r.id, r.issue_instant);
    let a4 = a3 + attr("Destination"@, r.destination);
    let l4 = l3.push(("Destination"@, r.destination));
    lemma_one_more_written(a3, l3, "Destination"@, r.destination);
    let a5 = a4 + opt_attr("InResponseTo"@, r.in_response_to);
    let l5 = l4 + opt_pair("InResponseTo"@, r.in_response_to);
    lemma_one_more_if_any_written(a4, l4, "InResponseTo"@, r.in_response_to);
    assert(l4 == seq![
        ("xmlns:samlp"@, protocol),
        ("xmlns:saml"@, ns),
        ("ID"@, r.id),
        ("Version"@, "2.0"@),
        ("IssueInstant"@, r.issue_instant.text()),
        ("Destination"@, r.destination),
    ]);
}

/// What a receiver reads of a response.
pub open spec fn response_tags(r: ResponseView) -> Seq<Tag> {
    seq![
        opening("samlp:Response"@, response_attributes(r), seq![]),
    ] + issuer_tags(r.issuer) + status_tags(r.status) + (match r.assertion {
        Some(a) => assertion_tags(a),
        None => seq![],
    }) + seq![closing("samlp:Response"@)]
}

/// A response is read back: a receiver finds in its text, in order, who issued
/// it, in answer to what, where it goes, its status, and the assertion with its
/// subject, its time of validity, its audience, the authentication and the
/// attributes. Nothing else is in it.
pub proof fn law_response_is_read(r: ResponseView)
    ensures
        read(response_xml(r)) == response_tags(r),
{
    reveal(response_xml);
    lemma_message_names();
    lemma_assertion_names();
    lemma_none_written();
    lemma_nothing_is_read();
    law_issuer_is_read(r.issuer);
    law_status_is_read(r.status);
    if let Some(a) = r.assertion {
        law_assertion_is_read(a);
    }
    lemma_response_attrs_written(r);
    let a5 = attr("xmlns:samlp"@, "urn:oasis:names:tc:SAML:2.0:protocol"@) + attr(
        "xmlns:saml"@,
        "urn:oasis:names:tc:SAML:2.0:assertion"@,
    ) + message_attrs(r.id, r.issue_instant) + attr("Destination"@, r.destination) + opt_attr(
        "InResponseTo"@,
        r.in_response_to,
    );
    let l5 = response_attributes(r);
    let b1 = issuer_xml(r.issuer) + status_xml(r.status);
    law_documents_are_read_in_order(issuer_xml(r.issuer), status_xml(r.status));
    lemma_begins(issuer_xml(r.issuer), status_xml(r.status));
    let last = opt_assertion_xml(r.assertion);
    law_documents_are_read_in_order(b1, last);
    lemma_begins(b1, last);
    lemma_element_is_read("samlp:Response"@, a5, l5, b1 + last);
    let x = seq![opening("samlp:Response"@, l5, seq![])];
    let z = seq![closing("samlp:Response"@)];
    let t = match r.assertion {
        Some(a) => assertion_tags(a),
        None => seq![],
    };
    assert(read(last) == t);
    lemma_regroup_response(x, issuer_tags(r.issuer), status_tags(r.status), t, z);
}

proof fn lemma_regroup_response(a: Seq<Tag>, b: Seq<Tag>, c: Seq<Tag>, d: Seq<Tag>, e: Seq<Tag>)
    ensures
        a + (b + c + d) + e == a + b + c + d + e,
{
}

proof fn lemma_among(x: Tag, before: Seq<Tag>, part: Seq<Tag>, after: Seq<Tag>)
    requires
        part.contains(x),
    ensures
        (before + part + after).contains(x),
{
    let k = choose|k: int| 0 <= k < part.len() && part[k] == x;
    assert((before + part + after)[before.len() + k] == x);
}

/// The tags of an assertion, among those of its response.
proof fn lemma_assertion_is_within(r: ResponseView, a: AssertionView, x: Tag)
    requires
        r.assertion == Some(a),
        assertion_tags(a).contains(x),
    ensures
        read(response_xml(r)).contains(x),
{
    law_response_is_read(r);
    let before = seq![
        opening("samlp:Response"@, response_attributes(r), seq![]),
    ] + issuer_tags(r.issuer) + status_tags(r.status);
    lemma_among(x, before, assertion_tags(a), seq![closing("samlp:Response"@)]);
}

/// A receiver finds in a response from when on and until when its assertion is
/// valid: from the moment it was issued until the moment it no longer is.
pub proof fn law_window_is_read(r: ResponseView, a: AssertionView)
    requires
        r.assertion == Some(a),
    ensures
        read(response_xml(r)).contains(
            (Tag {
                name: "saml:Conditions"@,
                attributes: seq![
                    ("NotBefore"@, a.issue_instant.text()),
                    ("NotOnOrAfter"@, a.not_on_or_after.text()),
                ],
                text: seq![],
            }),
        ),
{
    let x = Tag {
        name: "saml:Conditions"@,
        attributes: seq![
            ("NotBefore"@, a.issue_instant.text()),
            ("NotOnOrAfter"@, a.not_on_or_after.text()),
        ],
        text: seq![],
    };
    assert(conditions_tags(a)[0] == x);
    let head = seq![
        opening(
            "saml:Assertion"@,
            seq![
                ("xmlns:saml"@, "urn:oasis:names:tc:SAML:2.0:assertion"@),
                ("ID"@, a.id),
                ("Version"@, "2.0"@),
                ("IssueInstant"@, a.issue_instant.text()),
            ],
            seq![],
        ),
    ] + issuer_tags(a.issuer) + subject_tags(a);
    let rest = authn_tags(a) + attribute_statement_tags(a.attributes) + seq![
        closing("saml:Assertion"@),
    ];
    lemma_among(x, head, conditions_tags(a), rest);
    lemma_regroup_rest(
        head,
        conditions_tags(a),
        authn_tags(a),
        attribute_statement_tags(a.attributes),
        seq![closing("saml:Assertion"@)],
    );
    lemma_assertion_is_within(r, a, x);
}

proof fn lemma_regroup_rest(a: Seq<Tag>, b: Seq<Tag>, c: Seq<Tag>, d: Seq<Tag>, e: Seq<Tag>)
    ensures
        a + b + (c + d + e) == a + b + c + d + e,
{
}

/// The time of validity stands in the text of a response, as characters: after
/// `NotBefore="` the moment the assertion was issued, after `NotOnOrAfter="` the
/// moment it is no longer valid.
pub proof fn law_window_stands_in_the_text(r: ResponseView, a: AssertionView)
    requires
        r.assertion == Some(a),
    ensures
        exists|at: int| #[trigger]
            stands_at(
                response_xml(r),
                "<saml:Conditions NotBefore=\""@ + escaped(a.issue_instant.text())
                    + "\" NotOnOrAfter=\""@ + escaped(a.not_on_or_after.text()) + "\">"@,
                at,
            ),
{
    let window = "<saml:Conditions NotBefore=\""@ + escaped(a.issue_instant.text())
        + "\" NotOnOrAfter=\""@ + escaped(a.not_on_or_after.text()) + "\">"@;
    lemma_window_stands_in_assertion(a);
    lemma_stands_in_response(r, a, window);
}

proof fn lemma_stands_in_response(r: ResponseView, a: AssertionView, pattern: Seq<char>)
    requires
        r.assertion == Some(a),
        exists|at: int| #[trigger] stands_at(assertion_xml(a), pattern, at),
    ensures
        exists|at: int| #[trigger] stands_at(response_xml(r), pattern, at),
{
    reveal(response_xml);
    let attrs = attr("xmlns:samlp"@, super::response::SAMLP_NS@) + attr(
        "xmlns:saml"@,
        super::response::SAML_NS@,
    ) + message_attrs(r.id, r.issue_instant) + attr("Destination"@, r.destination) + opt_attr(
        "InResponseTo"@,
        r.in_response_to,
    );
    let front = issuer_xml(r.issuer) + status_xml(r.status);
    assert(opt_assertion_xml(r.assertion) == assertion_xml(a));
    assert(response_xml(r) == crate::xml::element(
        "samlp:Response"@,
        attrs,
        front + assertion_xml(a),
    ));
    lemma_stands_in_last("samlp:Response"@, attrs, front, assertion_xml(a), pattern);
}

proof fn lemma_stands_in_last(
    name: Seq<char>,
    attrs: Seq<char>,
    front: Seq<char>,
    last: Seq<char>,
    pattern: Seq<char>,
)
    requires
        exists|at: int| #[trigger] stands_at(last, pattern, at),
    ensures
        exists|at: int| #[trigger]
            stands_at(crate::xml::element(name, attrs, front + last), pattern, at),
{
    lemma_stands_later(front, last, Seq::empty(), pattern);
    assert(front + last + Seq::<char>::empty() == front + last);
    lemma_stands_in_element(name, attrs, front + last, pattern);
}

proof fn lemma_window_stands_in_assertion(a: AssertionView)
    ensures
        exists|at: int| #[trigger]
            stands_at(
                assertion_xml(a),
                "<saml:Conditions NotBefore=\""@ + escaped(a.issue_instant.text())
                    + "\" NotOnOrAfter=\""@ + escaped(a.not_on_or_after.text()) + "\">"@,
                at,
            ),
{
    let window = "<saml:Conditions NotBefore=\""@ + escaped(a.issue_instant.text())
        + "\" NotOnOrAfter=\""@ + escaped(a.not_on_or_after.text()) + "\">"@;
    let rest = crate::xml::element(
        "saml:AudienceRestriction"@,
        Seq::empty(),
        crate::xml::text_element("saml:Audience"@, Seq::empty(), a.audience),
    ) + "</"@ + "saml:Conditions"@ + ">"@;
    lemma_conditions_text(a);
    let attrs = attr("xmlns:saml"@, super::response::SAML_NS@) + message_attrs(
        a.id,
        a.issue_instant,
    );
    let before = issuer_xml(a.issuer) + subject_xml(a);
    assert(assertion_xml(a) == crate::xml::element(
        "saml:Assertion"@,
        attrs,
        before + (window + rest) + authn_xml(a) + attribute_statement_xml(a.attributes),
    ));
    lemma_stands_in_third(
        "saml:Assertion"@,
        attrs,
        before,
        window,
        rest,
        authn_xml(a),
        attribute_statement_xml(a.attributes),
    );
}

proof fn lemma_stands_in_third(
    name: Seq<char>,
    attrs: Seq<char>,
    before: Seq<char>,
    pattern: Seq<char>,
    rest: Seq<char>,
    next: Seq<char>,
    last: Seq<char>,
)
    ensures
        exists|at: int| #[trigger]
            stands_at(
                crate::xml::element(name, attrs, before + (pattern + rest) + next + last),
                pattern,
                at,
            ),
{
    lemma_stands_within(before, pattern, rest, next);
    let body = before + (pattern + rest) + next;
    lemma_stands_later(Seq::empty(), body, last, pattern);
    assert(Seq::<char>::empty() + body + last == body + last);
    lemma_stands_in_element(name, attrs, body + last, pattern);
}

proof fn lemma_window_text(from: Seq<char>, until: Seq<char>, rest: Seq<char>)
    ensures
        "<"@ + "saml:Conditions"@ + (" "@ + "NotBefore"@ + "=\""@ + from + "\""@ + (" "@
            + "NotOnOrAfter"@ + "=\""@ + until + "\""@)) + ">"@ + rest
            == "<saml:Conditions NotBefore=\""@ + from + "\" NotOnOrAfter=\""@ + until + "\">"@
            + rest,
{
    lemma_window_start();
    lemma_window_middle();
    reveal_strlit("\">");
    reveal_strlit("\"");
    reveal_strlit(">");
    assert("\">"@ == "\""@ + ">"@);
    lemma_regroup_window(
        "<"@ + "saml:Conditions"@ + " "@ + "NotBefore"@ + "=\""@,
        from,
        "\""@ + " "@ + "NotOnOrAfter"@ + "=\""@,
        until,
        "\""@,
        ">"@,
        rest,
    );
    assert("<"@ + "saml:Conditions"@ + (" "@ + "NotBefore"@ + "=\""@ + from + "\""@ + (" "@
        + "NotOnOrAfter"@ + "=\""@ + until + "\""@)) + ">"@ + rest == ("<"@ + "saml:Conditions"@
        + " "@ + "NotBefore"@ + "=\""@) + from + ("\""@ + " "@ + "NotOnOrAfter"@ + "=\""@) + until
        + "\""@ + ">"@ + rest);
}

proof fn lemma_regroup_window(
    a: Seq<char>,
    b: Seq<char>,
    c: Seq<char>,
    d: Seq<char>,
    e: Seq<char>,
    f: Seq<char>,
    g: Seq<char>,
)
    ensures
        a + b + c + d + e + f + g == a + b + c + d + (e + f) + g,
{
}

proof fn lemma_window_start()
    ensures
        "<saml:Conditions NotBefore=\""@ == "<"@ + "saml:Conditions"@ + " "@ + "NotBefore"@
            + "=\""@,
{
    reveal_strlit("<saml:Conditions NotBefore=\"");
    reveal_strlit("<");
    reveal_strlit("saml:Conditions");
    reveal_strlit(" ");
    reveal_strlit("NotBefore");
    reveal_strlit("=\"");
}

proof fn lemma_window_middle()
    ensures
        "\" NotOnOrAfter=\""@ == "\""@ + " "@ + "NotOnOrAfter"@ + "=\""@,
{
    reveal_strlit("\" NotOnOrAfter=\"");
    reveal_strlit("\"");
    reveal_strlit(" ");
    reveal_strlit("NotOnOrAfter");
    reveal_strlit("=\"");
}

proof fn lemma_conditions_text(a: AssertionView)
    ensures
        conditions_xml(a) == "<saml:Conditions NotBefore=\""@ + escaped(a.issue_instant.text())
            + "\" NotOnOrAfter=\""@ + escaped(a.not_on_or_after.text()) + "\">"@ + (
        crate::xml::element(
            "saml:AudienceRestriction"@,
            Seq::empty(),
            crate::xml::text_element("saml:Audience"@, Seq::empty(), a.audience),
        ) + "</"@ + "saml:Conditions"@ + ">"@),
{
    let inner = crate::xml::element(
        "saml:AudienceRestriction"@,
        Seq::empty(),
        crate::xml::text_element("saml:Audience"@, Seq::empty(), a.audience),
    );
    let rest = inner + "</"@ + "saml:Conditions"@ + ">"@;
    lemma_window_text(escaped(a.issue_instant.text()), escaped(a.not_on_or_after.text()), rest);
    let attrs = attr("NotBefore"@, a.issue_instant.text()) + attr(
        "NotOnOrAfter"@,
        a.not_on_or_after.text(),
    );
    lemma_regroup_tail("<"@ + "saml:Conditions"@ + attrs + ">"@, inner, "</"@, "saml:Conditions"@);
}

proof fn lemma_regroup_tail(a: Seq<char>, b: Seq<char>, c: Seq<char>, d: Seq<char>)
    ensures
        a + b + c + d + ">"@ == a + (b + c + d + ">"@),
{
}

proof fn lemma_stands_within(a: Seq<char>, pattern: Seq<char>, b: Seq<char>, c: Seq<char>)
    ensures
        exists|at: int| #[trigger] stands_at(a + (pattern + b) + c, pattern, at),
{
    let s = a + (pattern + b) + c;
    let at = a.len() as int;
    assert(s.subrange(at, at + pattern.len()) == pattern);
    assert(stands_at(s, pattern, at));
}

proof fn lemma_stands_later(a: Seq<char>, b: Seq<char>, c: Seq<char>, pattern: Seq<char>)
    requires
        exists|at: int| #[trigger] stands_at(b, pattern, at),
    ensures
        exists|at: int| #[trigger] stands_at(a + b + c, pattern, at),
{
    let at = choose|at: int| #[trigger] stands_at(b, pattern, at);
    let s = a + b + c;
    let n = a.len() + at;
    assert(s.subrange(n, n + pattern.len()) == b.subrange(at, at + pattern.len()));
    assert(stands_at(s, pattern, n));
}

proof fn lemma_stands_in_element(
    name: Seq<char>,
    attrs: Seq<char>,
    body: Seq<char>,
    pattern: Seq<char>,
)
    requires
        exists|at: int| #[trigger] stands_at(body, pattern, at),
    ensures
        exists|at: int| #[trigger] stands_at(crate::xml::element(name, attrs, body), pattern, at),
{
    let a = "<"@ + name + attrs + ">"@;
    let c = "</"@ + name + ">"@;
    lemma_stands_later(a, body, c, pattern);
    assert(a + body + c == crate::xml::element(name, attrs, body));
}

} // verus!
