//! What a signer, and whoever verifies, reads in a response with a signature.

use super::placement::{
    after_assertion_issuer, after_issuer, law_assertion_signature_follows_its_issuer,
    law_response_signature_follows_its_issuer, up_to_issuer,
};
use super::response::{AssertionView, ResponseView};
use super::response_reading::{
    assertion_tags, attribute_statement_tags, authn_tags, conditions_tags, issuer_tags,
    law_assertion_is_read, law_authentication_is_read, law_conditions_are_read,
    law_issuer_is_read, law_status_is_read, law_subject_is_read, lemma_assertion_attrs_written,
    lemma_attribute_statement_is_read, lemma_response_attrs_written, response_attributes,
    status_tags, subject_tags,
};
use super::response_xml::{
    attribute_statement_xml, authn_xml, conditions_xml, issuer_xml, message_attrs,
    opt_assertion_xml, response_xml, status_xml, subject_xml,
};
use super::signing::with_signature;
use crate::digest::is_new_id;
use crate::reading::{
    are_written, begins_a_tag, closing, is_name, law_documents_are_read_in_order, lemma_begins,
    lemma_closing_is_read, lemma_nothing_is_read, lemma_tag_is_read, opening, read,
};
use crate::xml::{attr, escaped, opt_attr};
use vstd::prelude::*;

verus! {

proof fn lemma_signed_names()
    ensures
        is_name("samlp:Response"@),
        is_name("saml:Assertion"@),
{
    reveal_strlit("samlp:Response");
    reveal_strlit("saml:Assertion");
}

proof fn lemma_front_is_read(
    name: Seq<char>,
    attrs: Seq<char>,
    list: Seq<(Seq<char>, Seq<char>)>,
    first: Seq<char>,
)
    requires
        is_name(name),
        are_written(attrs, list),
        begins_a_tag(first),
    ensures
        read("<"@ + name + attrs + ">"@ + first) == seq![opening(name, list, seq![])] + read(first),
        begins_a_tag("<"@ + name + attrs + ">"@ + first),
{
    reveal_strlit("<");
    let none = Seq::<char>::empty();
    lemma_tag_is_read(name, attrs, list, none);
    assert(escaped(none) == none);
    let open = "<"@ + name + attrs + ">"@;
    assert(open + none == open);
    law_documents_are_read_in_order(open, first);
    assert((open + first)[0] == '<');
}

proof fn lemma_end_is_read(before: Seq<char>, name: Seq<char>)
    requires
        is_name(name),
        begins_a_tag(before),
    ensures
        read(before + "</"@ + name + ">"@) == read(before) + seq![closing(name)],
        begins_a_tag(before + "</"@ + name + ">"@),
{
    reveal_strlit("</");
    let close = "</"@ + name + ">"@;
    lemma_closing_is_read(name);
    assert(close[0] == '<');
    law_documents_are_read_in_order(before, close);
    lemma_begins(before, close);
    assert(before + "</"@ + name + ">"@ == before + close);
}

proof fn lemma_up_to_issuer_is_read(r: ResponseView)
    ensures
        read(up_to_issuer(r)) == seq![
            opening("samlp:Response"@, response_attributes(r), seq![]),
        ] + issuer_tags(r.issuer),
        begins_a_tag(up_to_issuer(r)),
{
    lemma_signed_names();
    lemma_response_attrs_written(r);
    law_issuer_is_read(r.issuer);
    lemma_front_is_read(
        "samlp:Response"@,
        attr("xmlns:samlp"@, "urn:oasis:names:tc:SAML:2.0:protocol"@) + attr(
            "xmlns:saml"@,
            "urn:oasis:names:tc:SAML:2.0:assertion"@,
        ) + message_attrs(r.id, r.issue_instant) + attr("Destination"@, r.destination) + opt_attr(
            "InResponseTo"@,
            r.in_response_to,
        ),
        response_attributes(r),
        issuer_xml(r.issuer),
    );
}

proof fn lemma_after_issuer_is_read(r: ResponseView)
    ensures
        read(after_issuer(r)) == status_tags(r.status) + (match r.assertion {
            Some(a) => assertion_tags(a),
            None => seq![],
        }) + seq![closing("samlp:Response"@)],
        begins_a_tag(after_issuer(r)),
{
    lemma_signed_names();
    lemma_nothing_is_read();
    law_status_is_read(r.status);
    if let Some(a) = r.assertion {
        law_assertion_is_read(a);
    }
    law_documents_are_read_in_order(status_xml(r.status), opt_assertion_xml(r.assertion));
    lemma_begins(status_xml(r.status), opt_assertion_xml(r.assertion));
    lemma_end_is_read(
        status_xml(r.status) + opt_assertion_xml(r.assertion),
        "samlp:Response"@,
    );
}

/// The signature of a response is read right after its issuer, before anything
/// that it covers; all else is as it was.
pub proof fn law_signature_is_read_after_the_issuer(r: ResponseView, piece: Seq<char>)
    requires
        begins_a_tag(piece),
    ensures
        with_signature(response_xml(r), r.id, piece) matches Some(t) && read(t) == seq![
            opening("samlp:Response"@, response_attributes(r), seq![]),
        ] + issuer_tags(r.issuer) + read(piece) + (status_tags(r.status) + (match r.assertion {
            Some(a) => assertion_tags(a),
            None => seq![],
        }) + seq![closing("samlp:Response"@)]),
{
    law_response_signature_follows_its_issuer(r, piece);
    lemma_up_to_issuer_is_read(r);
    lemma_after_issuer_is_read(r);
    law_documents_are_read_in_order(up_to_issuer(r), piece);
    law_documents_are_read_in_order(up_to_issuer(r) + piece, after_issuer(r));
}

proof fn lemma_assertion_front_is_read(a: AssertionView)
    ensures
        ({
            let front = "<"@ + "saml:Assertion"@ + (attr(
                "xmlns:saml"@,
                "urn:oasis:names:tc:SAML:2.0:assertion"@,
            ) + message_attrs(a.id, a.issue_instant)) + ">"@ + issuer_xml(a.issuer);
            &&& read(front) == seq![
                opening(
                    "saml:Assertion"@,
                    seq![
                        ("xmlns:saml"@, "urn:oasis:names:tc:SAML:2.0:assertion"@),
                        ("ID"@, a.id),
                        ("Version"@, "2.0"@),
                        ("IssueInstant"@, a.issue_instant.text()),
                    ],
                    seq![],
                ),
            ] + issuer_tags(a.issuer)
            &&& begins_a_tag(front)
        }),
{
    lemma_signed_names();
    lemma_assertion_attrs_written(a);
    law_issuer_is_read(a.issuer);
    lemma_front_is_read(
        "saml:Assertion"@,
        attr("xmlns:saml"@, "urn:oasis:names:tc:SAML:2.0:assertion"@) + message_attrs(
            a.id,
            a.issue_instant,
        ),
        seq![
            ("xmlns:saml"@, "urn:oasis:names:tc:SAML:2.0:assertion"@),
            ("ID"@, a.id),
            ("Version"@, "2.0"@),
            ("IssueInstant"@, a.issue_instant.text()),
        ],
        issuer_xml(a.issuer),
    );
}

proof fn lemma_after_assertion_issuer_is_read(a: AssertionView)
    ensures
        read(after_assertion_issuer(a)) == subject_tags(a) + conditions_tags(a) + authn_tags(a)
            + attribute_statement_tags(a.attributes) + seq![closing("saml:Assertion"@)] + seq![
            closing("samlp:Response"@),
        ],
        begins_a_tag(after_assertion_issuer(a)),
{
    lemma_signed_names();
    law_subject_is_read(a);
    law_conditions_are_read(a);
    law_authentication_is_read(a);
    lemma_attribute_statement_is_read(a.attributes);
    lemma_four_and_ends(
        subject_xml(a),
        conditions_xml(a),
        authn_xml(a),
        attribute_statement_xml(a.attributes),
        "saml:Assertion"@,
        "samlp:Response"@,
    );
}

proof fn lemma_four_and_ends(
    b: Seq<char>,
    c: Seq<char>,
    d: Seq<char>,
    e: Seq<char>,
    inner: Seq<char>,
    outer: Seq<char>,
)
    requires
        is_name(inner),
        is_name(outer),
        begins_a_tag(b),
        begins_a_tag(c),
        begins_a_tag(d),
        begins_a_tag(e),
    ensures
        ({
            let all = b + c + d + e + "</"@ + inner + ">"@ + "</"@ + outer + ">"@;
            &&& read(all) == read(b) + read(c) + read(d) + read(e) + seq![closing(inner)] + seq![
                closing(outer),
            ]
            &&& begins_a_tag(all)
        }),
{
    law_documents_are_read_in_order(b, c);
    lemma_begins(b, c);
    law_documents_are_read_in_order(b + c, d);
    lemma_begins(b + c, d);
    law_documents_are_read_in_order(b + c + d, e);
    lemma_begins(b + c + d, e);
    lemma_end_is_read(b + c + d + e, inner);
    lemma_end_is_read(b + c + d + e + "</"@ + inner + ">"@, outer);
}

/// The signature of an assertion is read right after the assertion's own issuer;
/// all else is as it was.
pub proof fn law_assertion_signature_is_read_after_its_issuer(
    r: ResponseView,
    a: AssertionView,
    piece: Seq<char>,
)
    requires
        begins_a_tag(piece),
        r.assertion == Some(a),
        is_new_id(r.id),
        is_new_id(a.id),
        r.id != a.id,
    ensures
        with_signature(response_xml(r), a.id, piece) matches Some(t) && read(t) == seq![
            opening("samlp:Response"@, response_attributes(r), seq![]),
        ] + issuer_tags(r.issuer) + status_tags(r.status) + (seq![
            opening(
                "saml:Assertion"@,
                seq![
                    ("xmlns:saml"@, "urn:oasis:names:tc:SAML:2.0:assertion"@),
                    ("ID"@, a.id),
                    ("Version"@, "2.0"@),
                    ("IssueInstant"@, a.issue_instant.text()),
                ],
                seq![],
            ),
        ] + issuer_tags(a.issuer)) + read(piece) + (subject_tags(a) + conditions_tags(a)
            + authn_tags(a) + attribute_statement_tags(a.attributes) + seq![
            closing("saml:Assertion"@),
        ] + seq![closing("samlp:Response"@)]),
{
    law_assertion_signature_follows_its_issuer(r, a, piece);
    lemma_up_to_issuer_is_read(r);
    law_status_is_read(r.status);
    lemma_assertion_front_is_read(a);
    lemma_after_assertion_issuer_is_read(a);
    lemma_five_in_order(
        up_to_issuer(r),
        status_xml(r.status),
        "<"@ + "saml:Assertion"@ + (attr(
            "xmlns:saml"@,
            "urn:oasis:names:tc:SAML:2.0:assertion"@,
        ) + message_attrs(a.id, a.issue_instant)) + ">"@ + issuer_xml(a.issuer),
        piece,
        after_assertion_issuer(a),
    );
}

proof fn lemma_five_in_order(
    b: Seq<char>,
    c: Seq<char>,
    d: Seq<char>,
    e: Seq<char>,
    f: Seq<char>,
)
    requires
        begins_a_tag(c),
        begins_a_tag(d),
        begins_a_tag(e),
        begins_a_tag(f),
    ensures
        read(b + c + d + e + f) == read(b) + read(c) + read(d) + read(e) + read(f),
{
    law_documents_are_read_in_order(b, c);
    law_documents_are_read_in_order(b + c, d);
    law_documents_are_read_in_order(b + c + d, e);
    law_documents_are_read_in_order(b + c + d + e, f);
}

} // verus!
