//! What a receiver reads in the messages and pages that the endpoints send.

use super::config::IdpConfig;
use super::messages::{
    answer_xml, artifact_response_xml, logout_request_xml, protocol_attrs, responder_status,
    session_index_xml, soap_xml, success_status,
};
use super::error::SamlActixErrorView;
use super::metadata::{
    endpoint_xml, endpoints_xml, key_xml, law_metadata_signature_comes_first, logout_xml,
    may_publish, metadata_attrs, metadata_xml, role_xml,
};
use super::post::{base64_of, hidden, post_page, relay_field};
use super::signing::{is_with_first_child, IdpSigningContext};
use crate::reading::{
    are_written, begins_a_tag, closing, is_name, law_documents_are_read_in_order, lemma_begins,
    lemma_element_is_read, lemma_empty_element_is_read, lemma_none_written, lemma_nothing_is_read,
    lemma_one_more_written, lemma_one_written, lemma_text_element_is_read, opening, read, Tag,
};
use crate::saml::name_id::NameIdView;
use crate::saml::response_reading::{
    issuer_tags, law_issuer_is_read, law_name_id_is_read, law_status_is_read,
    lemma_message_attrs_written, status_tags,
};
use crate::saml::response_xml::{issuer_xml, name_id_xml, status_xml};
use crate::saml::signing::{algorithm, reference_xml, template};
use crate::saml::status::StatusView;
use crate::saml::time::Instant;
use crate::text::opt_text;
use crate::xml::{attr, element, escaped, escaped_char, text_element};
use vstd::prelude::*;
use vstd::utf8::encode_utf8;

verus! {

proof fn lemma_protocol_names()
    ensures
        is_name("xmlns:samlp"@),
        is_name("xmlns:saml"@),
        is_name("InResponseTo"@),
        is_name("samlp:LogoutRequest"@),
        is_name("samlp:LogoutResponse"@),
        is_name("samlp:ArtifactResponse"@),
        is_name("samlp:SessionIndex"@),
        is_name("soap:Envelope"@),
        is_name("soap:Body"@),
        is_name("xmlns:soap"@),
{
    reveal_strlit("xmlns:samlp");
    reveal_strlit("xmlns:saml");
    reveal_strlit("InResponseTo");
    reveal_strlit("samlp:LogoutRequest");
    reveal_strlit("samlp:LogoutResponse");
    reveal_strlit("samlp:ArtifactResponse");
    reveal_strlit("samlp:SessionIndex");
    reveal_strlit("soap:Envelope");
    reveal_strlit("soap:Body");
    reveal_strlit("xmlns:soap");
}

proof fn lemma_signature_names()
    ensures
        is_name("Algorithm"@),
        is_name("URI"@),
        is_name("xmlns:ds"@),
        is_name("ds:Signature"@),
        is_name("ds:SignedInfo"@),
        is_name("ds:CanonicalizationMethod"@),
        is_name("ds:SignatureMethod"@),
        is_name("ds:Reference"@),
        is_name("ds:Transforms"@),
        is_name("ds:Transform"@),
        is_name("ds:DigestMethod"@),
        is_name("ds:DigestValue"@),
        is_name("ds:SignatureValue"@),
        is_name("ds:KeyInfo"@),
        is_name("ds:X509Data"@),
        is_name("ds:X509Certificate"@),
{
    reveal_strlit("Algorithm");
    reveal_strlit("URI");
    reveal_strlit("xmlns:ds");
    reveal_strlit("ds:Signature");
    reveal_strlit("ds:SignedInfo");
    reveal_strlit("ds:CanonicalizationMethod");
    reveal_strlit("ds:SignatureMethod");
    reveal_strlit("ds:Reference");
    reveal_strlit("ds:Transforms");
    reveal_strlit("ds:Transform");
    reveal_strlit("ds:DigestMethod");
    reveal_strlit("ds:DigestValue");
    reveal_strlit("ds:SignatureValue");
    reveal_strlit("ds:KeyInfo");
    reveal_strlit("ds:X509Data");
    reveal_strlit("ds:X509Certificate");
}

proof fn lemma_metadata_names()
    ensures
        is_name("md:EntityDescriptor"@),
        is_name("xmlns:md"@),
        is_name("entityID"@),
        is_name("ID"@),
        is_name("md:IDPSSODescriptor"@),
        is_name("protocolSupportEnumeration"@),
        is_name("WantAuthnRequestsSigned"@),
        is_name("md:KeyDescriptor"@),
        is_name("use"@),
        is_name("md:SingleLogoutService"@),
        is_name("md:SingleSignOnService"@),
        is_name("md:NameIDFormat"@),
        is_name("Binding"@),
        is_name("Location"@),
{
    reveal_strlit("md:EntityDescriptor");
    reveal_strlit("xmlns:md");
    reveal_strlit("entityID");
    reveal_strlit("ID");
    reveal_strlit("md:IDPSSODescriptor");
    reveal_strlit("protocolSupportEnumeration");
    reveal_strlit("WantAuthnRequestsSigned");
    reveal_strlit("md:KeyDescriptor");
    reveal_strlit("use");
    reveal_strlit("md:SingleLogoutService");
    reveal_strlit("md:SingleSignOnService");
    reveal_strlit("md:NameIDFormat");
    reveal_strlit("Binding");
    reveal_strlit("Location");
}

proof fn lemma_page_names()
    ensures
        is_name("html"@),
        is_name("body"@),
        is_name("onload"@),
        is_name("form"@),
        is_name("method"@),
        is_name("action"@),
        is_name("input"@),
        is_name("type"@),
        is_name("name"@),
        is_name("value"@),
        is_name("button"@),
{
    reveal_strlit("html");
    reveal_strlit("body");
    reveal_strlit("onload");
    reveal_strlit("form");
    reveal_strlit("method");
    reveal_strlit("action");
    reveal_strlit("input");
    reveal_strlit("type");
    reveal_strlit("name");
    reveal_strlit("value");
    reveal_strlit("button");
}

proof fn lemma_protocol_attrs_written(id: Seq<char>, now: Instant)
    ensures
        are_written(
            protocol_attrs(id, now),
            seq![
                ("xmlns:samlp"@, "urn:oasis:names:tc:SAML:2.0:protocol"@),
                ("xmlns:saml"@, "urn:oasis:names:tc:SAML:2.0:assertion"@),
                ("ID"@, id),
                ("Version"@, "2.0"@),
                ("IssueInstant"@, now.text()),
            ],
        ),
{
    lemma_protocol_names();
    let protocol = "urn:oasis:names:tc:SAML:2.0:protocol"@;
    let assertion = "urn:oasis:names:tc:SAML:2.0:assertion"@;
    let a1 = attr("xmlns:samlp"@, protocol);
    let l1 = seq![("xmlns:samlp"@, protocol)];
    lemma_one_written("xmlns:samlp"@, protocol);
    let a2 = a1 + attr("xmlns:saml"@, assertion);
    let l2 = l1.push(("xmlns:saml"@, assertion));
    lemma_one_more_written(a1, l1, "xmlns:saml"@, assertion);
    lemma_message_attrs_written(a2, l2, id, now);
    assert(l2 + seq![("ID"@, id), ("Version"@, "2.0"@), ("IssueInstant"@, now.text())] == seq![
        ("xmlns:samlp"@, protocol),
        ("xmlns:saml"@, assertion),
        ("ID"@, id),
        ("Version"@, "2.0"@),
        ("IssueInstant"@, now.text()),
    ]);
}

/// What a receiver reads of a message that answers another.
pub open spec fn answer_tags(
    name: Seq<char>,
    issuer: Seq<char>,
    in_response_to: Seq<char>,
    status: StatusView,
    carried: Seq<Tag>,
    id: Seq<char>,
    now: Instant,
) -> Seq<Tag> {
    seq![
        opening(
            name,
            seq![
                ("xmlns:samlp"@, "urn:oasis:names:tc:SAML:2.0:protocol"@),
                ("xmlns:saml"@, "urn:oasis:names:tc:SAML:2.0:assertion"@),
                ("ID"@, id),
                ("Version"@, "2.0"@),
                ("IssueInstant"@, now.text()),
                ("InResponseTo"@, in_response_to),
            ],
            seq![],
        ),
    ] + issuer_tags(issuer) + status_tags(status) + carried + seq![closing(name)]
}

proof fn lemma_answer_is_read(
    name: Seq<char>,
    issuer: Seq<char>,
    in_response_to: Seq<char>,
    status: StatusView,
    carried: Seq<char>,
    id: Seq<char>,
    now: Instant,
)
    requires
        is_name(name),
        begins_a_tag(carried),
    ensures
        read(answer_xml(name, issuer, in_response_to, status, carried, id, now)) == answer_tags(
            name,
            issuer,
            in_response_to,
            status,
            read(carried),
            id,
            now,
        ),
        begins_a_tag(answer_xml(name, issuer, in_response_to, status, carried, id, now)),
{
    lemma_protocol_names();
    lemma_protocol_attrs_written(id, now);
    let l1 = seq![
        ("xmlns:samlp"@, "urn:oasis:names:tc:SAML:2.0:protocol"@),
        ("xmlns:saml"@, "urn:oasis:names:tc:SAML:2.0:assertion"@),
        ("ID"@, id),
        ("Version"@, "2.0"@),
        ("IssueInstant"@, now.text()),
    ];
    lemma_one_more_written(protocol_attrs(id, now), l1, "InResponseTo"@, in_response_to);
    let list = seq![
        ("xmlns:samlp"@, "urn:oasis:names:tc:SAML:2.0:protocol"@),
        ("xmlns:saml"@, "urn:oasis:names:tc:SAML:2.0:assertion"@),
        ("ID"@, id),
        ("Version"@, "2.0"@),
        ("IssueInstant"@, now.text()),
        ("InResponseTo"@, in_response_to),
    ];
    assert(l1.push(("InResponseTo"@, in_response_to)) == list);
    law_issuer_is_read(issuer);
    law_status_is_read(status);
    lemma_three_parts(
        name,
        protocol_attrs(id, now) + attr("InResponseTo"@, in_response_to),
        list,
        issuer_xml(issuer),
        status_xml(status),
        carried,
    );
}

/// An element that holds three documents.
proof fn lemma_three_parts(
    name: Seq<char>,
    attrs: Seq<char>,
    list: Seq<(Seq<char>, Seq<char>)>,
    b: Seq<char>,
    c: Seq<char>,
    d: Seq<char>,
)
    requires
        is_name(name),
        are_written(attrs, list),
        begins_a_tag(b),
        begins_a_tag(c),
        begins_a_tag(d),
    ensures
        read(element(name, attrs, b + c + d)) == seq![opening(name, list, seq![])] + read(b)
            + read(c) + read(d) + seq![closing(name)],
        begins_a_tag(element(name, attrs, b + c + d)),
{
    law_documents_are_read_in_order(b, c);
    lemma_begins(b, c);
    law_documents_are_read_in_order(b + c, d);
    lemma_begins(b + c, d);
    lemma_element_is_read(name, attrs, list, b + c + d);
    assert(seq![opening(name, list, seq![])] + (read(b) + read(c) + read(d)) + seq![closing(name)]
        == seq![opening(name, list, seq![])] + read(b) + read(c) + read(d) + seq![closing(name)]);
}

/// A logout response says that the logout succeeded, in answer to which request.
pub proof fn law_logout_response_is_read(
    issuer: Seq<char>,
    in_response_to: Seq<char>,
    id: Seq<char>,
    now: Instant,
)
    ensures
        read(
            answer_xml(
                "samlp:LogoutResponse"@,
                issuer,
                in_response_to,
                success_status(),
                Seq::empty(),
                id,
                now,
            ),
        ) == answer_tags(
            "samlp:LogoutResponse"@,
            issuer,
            in_response_to,
            (StatusView {
                code: "urn:oasis:names:tc:SAML:2.0:status:Success"@,
                sub_code: None,
                message: None,
            }),
            seq![],
            id,
            now,
        ),
{
    lemma_protocol_names();
    lemma_nothing_is_read();
    lemma_answer_is_read(
        "samlp:LogoutResponse"@,
        issuer,
        in_response_to,
        success_status(),
        Seq::empty(),
        id,
        now,
    );
}

/// What a service provider reads of a session index, where one is known.
pub open spec fn session_index_tags(session_index: Option<Seq<char>>) -> Seq<Tag> {
    match session_index {
        Some(i) => seq![
            opening("samlp:SessionIndex"@, seq![], i),
            closing("samlp:SessionIndex"@),
        ],
        None => seq![],
    }
}

/// A logout request says to a service provider whose session ends, in the terms
/// it knows: the NameID and the session index.
pub proof fn law_logout_request_is_read(
    issuer: Seq<char>,
    name_id: NameIdView,
    session_index: Option<Seq<char>>,
    id: Seq<char>,
    now: Instant,
)
    ensures
        read(logout_request_xml(issuer, name_id, session_index, id, now)) == seq![
            opening(
                "samlp:LogoutRequest"@,
                seq![
                    ("xmlns:samlp"@, "urn:oasis:names:tc:SAML:2.0:protocol"@),
                    ("xmlns:saml"@, "urn:oasis:names:tc:SAML:2.0:assertion"@),
                    ("ID"@, id),
                    ("Version"@, "2.0"@),
                    ("IssueInstant"@, now.text()),
                ],
                seq![],
            ),
        ] + issuer_tags(issuer) + read(name_id_xml(name_id)) + session_index_tags(session_index)
            + seq![closing("samlp:LogoutRequest"@)],
{
    lemma_protocol_names();
    lemma_protocol_attrs_written(id, now);
    lemma_nothing_is_read();
    lemma_none_written();
    law_issuer_is_read(issuer);
    law_name_id_is_read(name_id);
    if let Some(i) = session_index {
        lemma_text_element_is_read("samlp:SessionIndex"@, Seq::empty(), Seq::empty(), i);
    }
    lemma_three_parts(
        "samlp:LogoutRequest"@,
        protocol_attrs(id, now),
        seq![
            ("xmlns:samlp"@, "urn:oasis:names:tc:SAML:2.0:protocol"@),
            ("xmlns:saml"@, "urn:oasis:names:tc:SAML:2.0:assertion"@),
            ("ID"@, id),
            ("Version"@, "2.0"@),
            ("IssueInstant"@, now.text()),
        ],
        issuer_xml(issuer),
        name_id_xml(name_id),
        session_index_xml(session_index),
    );
}

/// An artifact response carries the message that was found, as it is, and says
/// that it succeeded; or it carries none, and says why not.
pub proof fn law_artifact_response_is_read(
    issuer: Seq<char>,
    in_response_to: Seq<char>,
    answer: Result<Seq<char>, Seq<char>>,
    id: Seq<char>,
    now: Instant,
)
    requires
        answer matches Ok(message) ==> begins_a_tag(message),
    ensures
        read(artifact_response_xml(issuer, in_response_to, answer, id, now)) == answer_tags(
            "samlp:ArtifactResponse"@,
            issuer,
            in_response_to,
            match answer {
                Ok(_) => StatusView {
                    code: "urn:oasis:names:tc:SAML:2.0:status:Success"@,
                    sub_code: None,
                    message: None,
                },
                Err(reason) => StatusView {
                    code: "urn:oasis:names:tc:SAML:2.0:status:Responder"@,
                    sub_code: None,
                    message: Some(reason),
                },
            },
            match answer {
                Ok(message) => read(message),
                Err(_) => seq![],
            },
            id,
            now,
        ),
        begins_a_tag(artifact_response_xml(issuer, in_response_to, answer, id, now)),
{
    lemma_protocol_names();
    lemma_nothing_is_read();
    match answer {
        Ok(message) => lemma_answer_is_read(
            "samlp:ArtifactResponse"@,
            issuer,
            in_response_to,
            success_status(),
            message,
            id,
            now,
        ),
        Err(reason) => lemma_answer_is_read(
            "samlp:ArtifactResponse"@,
            issuer,
            in_response_to,
            responder_status(reason),
            Seq::empty(),
            id,
            now,
        ),
    }
}

/// A SOAP envelope holds the message, as it is.
pub proof fn law_envelope_is_read(message: Seq<char>)
    requires
        begins_a_tag(message),
    ensures
        read(soap_xml(message)) == seq![
            opening(
                "soap:Envelope"@,
                seq![("xmlns:soap"@, "http://schemas.xmlsoap.org/soap/envelope/"@)],
                seq![],
            ),
            opening("soap:Body"@, seq![], seq![]),
        ] + read(message) + seq![closing("soap:Body"@), closing("soap:Envelope"@)],
{
    lemma_protocol_names();
    lemma_none_written();
    let ns = "http://schemas.xmlsoap.org/soap/envelope/"@;
    lemma_element_is_read("soap:Body"@, Seq::empty(), Seq::empty(), message);
    lemma_one_written("xmlns:soap"@, ns);
    lemma_element_is_read(
        "soap:Envelope"@,
        attr("xmlns:soap"@, ns),
        seq![("xmlns:soap"@, ns)],
        element("soap:Body"@, Seq::empty(), message),
    );
    let m = read(message);
    let a = opening("soap:Envelope"@, seq![("xmlns:soap"@, ns)], seq![]);
    let b = opening("soap:Body"@, seq![], seq![]);
    let c = closing("soap:Body"@);
    let d = closing("soap:Envelope"@);
    assert(seq![a] + (seq![b] + m + seq![c]) + seq![d] == seq![a, b] + m + seq![c, d]);
}

/// The tags of an element that names an algorithm.
pub open spec fn algorithm_tags(name: Seq<char>, uri: Seq<char>) -> Seq<Tag> {
    seq![opening(name, seq![("Algorithm"@, uri)], seq![]), closing(name)]
}

proof fn lemma_algorithm_is_read(name: Seq<char>, uri: Seq<char>)
    requires
        is_name(name),
    ensures
        read(algorithm(name, uri)) == algorithm_tags(name, uri),
        begins_a_tag(algorithm(name, uri)),
{
    lemma_signature_names();
    lemma_one_written("Algorithm"@, uri);
    lemma_empty_element_is_read(name, attr("Algorithm"@, uri), seq![("Algorithm"@, uri)]);
}

/// What a signature refers to, and how it is digested.
pub open spec fn reference_tags(id: Seq<char>) -> Seq<Tag> {
    seq![
        opening("ds:Reference"@, seq![("URI"@, "#"@ + id)], seq![]),
        opening("ds:Transforms"@, seq![], seq![]),
    ] + algorithm_tags(
        "ds:Transform"@,
        "http://www.w3.org/2000/09/xmldsig#enveloped-signature"@,
    ) + algorithm_tags("ds:Transform"@, "http://www.w3.org/2001/10/xml-exc-c14n#"@) + seq![
        closing("ds:Transforms"@),
    ] + algorithm_tags("ds:DigestMethod"@, "http://www.w3.org/2001/04/xmlenc#sha256"@) + seq![
        opening("ds:DigestValue"@, seq![], seq![]),
        closing("ds:DigestValue"@),
        closing("ds:Reference"@),
    ]
}

proof fn lemma_reference_is_read(id: Seq<char>)
    ensures
        read(reference_xml(id)) == reference_tags(id),
        begins_a_tag(reference_xml(id)),
{
    lemma_signature_names();
    lemma_none_written();
    let enveloped = algorithm(
        "ds:Transform"@,
        "http://www.w3.org/2000/09/xmldsig#enveloped-signature"@,
    );
    let exclusive = algorithm("ds:Transform"@, "http://www.w3.org/2001/10/xml-exc-c14n#"@);
    let digest = algorithm("ds:DigestMethod"@, "http://www.w3.org/2001/04/xmlenc#sha256"@);
    lemma_algorithm_is_read(
        "ds:Transform"@,
        "http://www.w3.org/2000/09/xmldsig#enveloped-signature"@,
    );
    lemma_algorithm_is_read("ds:Transform"@, "http://www.w3.org/2001/10/xml-exc-c14n#"@);
    lemma_algorithm_is_read("ds:DigestMethod"@, "http://www.w3.org/2001/04/xmlenc#sha256"@);
    law_documents_are_read_in_order(enveloped, exclusive);
    lemma_begins(enveloped, exclusive);
    lemma_element_is_read("ds:Transforms"@, Seq::empty(), Seq::empty(), enveloped + exclusive);
    lemma_empty_element_is_read("ds:DigestValue"@, Seq::empty(), Seq::empty());
    lemma_one_written("URI"@, "#"@ + id);
    let transforms = element("ds:Transforms"@, Seq::empty(), enveloped + exclusive);
    let value = element("ds:DigestValue"@, Seq::empty(), Seq::empty());
    lemma_three_parts(
        "ds:Reference"@,
        attr("URI"@, "#"@ + id),
        seq![("URI"@, "#"@ + id)],
        transforms,
        digest,
        value,
    );
    lemma_regroup_reference(
        opening("ds:Reference"@, seq![("URI"@, "#"@ + id)], seq![]),
        opening("ds:Transforms"@, seq![], seq![]),
        read(enveloped),
        read(exclusive),
        closing("ds:Transforms"@),
        read(digest),
        opening("ds:DigestValue"@, seq![], seq![]),
        closing("ds:DigestValue"@),
        closing("ds:Reference"@),
    );
}

proof fn lemma_regroup_reference(
    a: Tag,
    b: Tag,
    c: Seq<Tag>,
    d: Seq<Tag>,
    e: Tag,
    f: Seq<Tag>,
    g: Tag,
    h: Tag,
    i: Tag,
)
    ensures
        seq![a] + (seq![b] + (c + d) + seq![e]) + f + seq![g, h] + seq![i] == seq![a, b] + c + d
            + seq![e] + f + seq![g, h, i],
{
}

/// What a signature is made over, and by which algorithms.
pub open spec fn signed_info_tags(id: Seq<char>, method: Seq<char>) -> Seq<Tag> {
    seq![opening("ds:SignedInfo"@, seq![], seq![])] + algorithm_tags(
        "ds:CanonicalizationMethod"@,
        "http://www.w3.org/2001/10/xml-exc-c14n#"@,
    ) + algorithm_tags("ds:SignatureMethod"@, method) + reference_tags(id) + seq![
        closing("ds:SignedInfo"@),
    ]
}

/// Whose key it is.
pub open spec fn key_info_tags(list: Seq<(Seq<char>, Seq<char>)>, cert: Seq<char>) -> Seq<Tag> {
    seq![
        opening("ds:KeyInfo"@, list, seq![]),
        opening("ds:X509Data"@, seq![], seq![]),
        opening("ds:X509Certificate"@, seq![], cert),
        closing("ds:X509Certificate"@),
        closing("ds:X509Data"@),
        closing("ds:KeyInfo"@),
    ]
}

/// An empty signature says what it will cover, the element with an identifier
/// and no other, by which algorithms, and whose key signs. The digest and the
/// signature are left for the signer to fill in.
pub proof fn law_empty_signature_is_read(id: Seq<char>, cert: Seq<char>, method: Seq<char>)
    ensures
        read(template(id, cert, method)) == seq![
            opening(
                "ds:Signature"@,
                seq![("xmlns:ds"@, "http://www.w3.org/2000/09/xmldsig#"@)],
                seq![],
            ),
        ] + signed_info_tags(id, method) + seq![
            opening("ds:SignatureValue"@, seq![], seq![]),
            closing("ds:SignatureValue"@),
        ] + key_info_tags(seq![], cert) + seq![closing("ds:Signature"@)],
        begins_a_tag(template(id, cert, method)),
{
    reveal(template);
    assert(is_name("ds:Signature"@)) by {
        lemma_signature_names();
    }
    lemma_signed_info_is_read(id, method);
    lemma_signature_value_is_read();
    lemma_none_written();
    lemma_key_info_is_read(Seq::empty(), Seq::empty(), cert);
    lemma_signature_attrs_written();
    lemma_three_parts(
        "ds:Signature"@,
        attr("xmlns:ds"@, "http://www.w3.org/2000/09/xmldsig#"@),
        seq![("xmlns:ds"@, "http://www.w3.org/2000/09/xmldsig#"@)],
        element(
            "ds:SignedInfo"@,
            Seq::empty(),
            algorithm("ds:CanonicalizationMethod"@, "http://www.w3.org/2001/10/xml-exc-c14n#"@)
                + algorithm("ds:SignatureMethod"@, method) + reference_xml(id),
        ),
        element("ds:SignatureValue"@, Seq::empty(), Seq::empty()),
        element(
            "ds:KeyInfo"@,
            Seq::empty(),
            element(
                "ds:X509Data"@,
                Seq::empty(),
                text_element("ds:X509Certificate"@, Seq::empty(), cert),
            ),
        ),
    );
}

proof fn lemma_signature_attrs_written()
    ensures
        are_written(
            attr("xmlns:ds"@, "http://www.w3.org/2000/09/xmldsig#"@),
            seq![("xmlns:ds"@, "http://www.w3.org/2000/09/xmldsig#"@)],
        ),
{
    lemma_signature_names();
    lemma_one_written("xmlns:ds"@, "http://www.w3.org/2000/09/xmldsig#"@);
}

proof fn lemma_signature_value_is_read()
    ensures
        read(element("ds:SignatureValue"@, Seq::empty(), Seq::empty())) == seq![
            opening("ds:SignatureValue"@, seq![], seq![]),
            closing("ds:SignatureValue"@),
        ],
        begins_a_tag(element("ds:SignatureValue"@, Seq::empty(), Seq::empty())),
{
    lemma_signature_names();
    lemma_none_written();
    lemma_empty_element_is_read("ds:SignatureValue"@, Seq::empty(), Seq::empty());
}

proof fn lemma_signed_info_is_read(id: Seq<char>, method: Seq<char>)
    ensures
        ({
            let info = element(
                "ds:SignedInfo"@,
                Seq::empty(),
                algorithm("ds:CanonicalizationMethod"@, "http://www.w3.org/2001/10/xml-exc-c14n#"@)
                    + algorithm("ds:SignatureMethod"@, method) + reference_xml(id),
            );
            &&& read(info) == signed_info_tags(id, method)
            &&& begins_a_tag(info)
        }),
{
    lemma_signature_names();
    lemma_none_written();
    let canonical = "http://www.w3.org/2001/10/xml-exc-c14n#"@;
    lemma_algorithm_is_read("ds:CanonicalizationMethod"@, canonical);
    lemma_algorithm_is_read("ds:SignatureMethod"@, method);
    lemma_reference_is_read(id);
    lemma_three_parts(
        "ds:SignedInfo"@,
        Seq::empty(),
        Seq::empty(),
        algorithm("ds:CanonicalizationMethod"@, canonical),
        algorithm("ds:SignatureMethod"@, method),
        reference_xml(id),
    );
}

proof fn lemma_key_info_is_read(
    attrs: Seq<char>,
    list: Seq<(Seq<char>, Seq<char>)>,
    cert: Seq<char>,
)
    requires
        are_written(attrs, list),
    ensures
        ({
            let key = element(
                "ds:KeyInfo"@,
                attrs,
                element(
                    "ds:X509Data"@,
                    Seq::empty(),
                    text_element("ds:X509Certificate"@, Seq::empty(), cert),
                ),
            );
            &&& read(key) == key_info_tags(list, cert)
            &&& begins_a_tag(key)
        }),
{
    lemma_signature_names();
    lemma_none_written();
    lemma_text_element_is_read("ds:X509Certificate"@, Seq::empty(), Seq::empty(), cert);
    let c = text_element("ds:X509Certificate"@, Seq::empty(), cert);
    lemma_element_is_read("ds:X509Data"@, Seq::empty(), Seq::empty(), c);
    let d = element("ds:X509Data"@, Seq::empty(), c);
    lemma_element_is_read("ds:KeyInfo"@, attrs, list, d);
}

/// What a service provider reads of an endpoint: one for each front-channel
/// binding, at the same place.
pub open spec fn endpoint_tags(name: Seq<char>, location: Seq<char>) -> Seq<Tag> {
    seq![
        opening(
            name,
            seq![
                ("Binding"@, "urn:oasis:names:tc:SAML:2.0:bindings:HTTP-Redirect"@),
                ("Location"@, location),
            ],
            seq![],
        ),
        closing(name),
        opening(
            name,
            seq![
                ("Binding"@, "urn:oasis:names:tc:SAML:2.0:bindings:HTTP-POST"@),
                ("Location"@, location),
            ],
            seq![],
        ),
        closing(name),
    ]
}

proof fn lemma_endpoint_is_read(name: Seq<char>, binding: Seq<char>, location: Seq<char>)
    requires
        is_name(name),
    ensures
        read(endpoint_xml(name, binding, location)) == seq![
            opening(name, seq![("Binding"@, binding), ("Location"@, location)], seq![]),
            closing(name),
        ],
        begins_a_tag(endpoint_xml(name, binding, location)),
{
    lemma_metadata_names();
    lemma_one_written("Binding"@, binding);
    lemma_one_more_written(
        attr("Binding"@, binding),
        seq![("Binding"@, binding)],
        "Location"@,
        location,
    );
    assert(seq![("Binding"@, binding)].push(("Location"@, location)) == seq![
        ("Binding"@, binding),
        ("Location"@, location),
    ]);
    lemma_empty_element_is_read(
        name,
        attr("Binding"@, binding) + attr("Location"@, location),
        seq![("Binding"@, binding), ("Location"@, location)],
    );
}

proof fn lemma_endpoints_are_read(name: Seq<char>, location: Seq<char>)
    requires
        is_name(name),
    ensures
        read(endpoints_xml(name, location)) == endpoint_tags(name, location),
        begins_a_tag(endpoints_xml(name, location)),
{
    let redirect = "urn:oasis:names:tc:SAML:2.0:bindings:HTTP-Redirect"@;
    let post = "urn:oasis:names:tc:SAML:2.0:bindings:HTTP-POST"@;
    lemma_endpoint_is_read(name, redirect, location);
    lemma_endpoint_is_read(name, post, location);
    law_documents_are_read_in_order(
        endpoint_xml(name, redirect, location),
        endpoint_xml(name, post, location),
    );
    lemma_begins(endpoint_xml(name, redirect, location), endpoint_xml(name, post, location));
    assert(read(endpoints_xml(name, location)) == endpoint_tags(name, location));
}

/// What a service provider reads of the signing key, where there is one.
pub open spec fn key_tags(cert: Option<Seq<char>>) -> Seq<Tag> {
    match cert {
        Some(c) => seq![
            opening("md:KeyDescriptor"@, seq![("use"@, "signing"@)], seq![]),
            opening(
                "ds:KeyInfo"@,
                seq![("xmlns:ds"@, "http://www.w3.org/2000/09/xmldsig#"@)],
                seq![],
            ),
            opening("ds:X509Data"@, seq![], seq![]),
            opening("ds:X509Certificate"@, seq![], c),
            closing("ds:X509Certificate"@),
            closing("ds:X509Data"@),
            closing("ds:KeyInfo"@),
            closing("md:KeyDescriptor"@),
        ],
        None => seq![],
    }
}

proof fn lemma_key_is_read(cert: Option<Seq<char>>)
    ensures
        read(key_xml(cert)) == key_tags(cert),
        begins_a_tag(key_xml(cert)),
{
    lemma_signature_names();
    lemma_metadata_names();
    lemma_nothing_is_read();
    if let Some(c) = cert {
        let ns = "http://www.w3.org/2000/09/xmldsig#"@;
        lemma_one_written("xmlns:ds"@, ns);
        lemma_key_info_is_read(attr("xmlns:ds"@, ns), seq![("xmlns:ds"@, ns)], c);
        lemma_one_written("use"@, "signing"@);
        let info = element(
            "ds:KeyInfo"@,
            attr("xmlns:ds"@, ns),
            element(
                "ds:X509Data"@,
                Seq::empty(),
                text_element("ds:X509Certificate"@, Seq::empty(), c),
            ),
        );
        lemma_element_is_read(
            "md:KeyDescriptor"@,
            attr("use"@, "signing"@),
            seq![("use"@, "signing"@)],
            info,
        );
        assert(read(key_xml(cert)) == key_tags(cert));
    }
}

/// What a service provider reads of the role: the protocol, that requests need
/// not be signed, the key, the logout endpoint where there is one, the NameID
/// formats, and the single sign-on endpoint.
pub open spec fn role_tags(config: IdpConfig, cert: Option<Seq<char>>) -> Seq<Tag> {
    seq![
        opening(
            "md:IDPSSODescriptor"@,
            seq![
                ("protocolSupportEnumeration"@, "urn:oasis:names:tc:SAML:2.0:protocol"@),
                ("WantAuthnRequestsSigned"@, "false"@),
            ],
            seq![],
        ),
    ] + key_tags(cert) + (if config.slo_url@.len() == 0 {
        seq![]
    } else {
        endpoint_tags("md:SingleLogoutService"@, config.slo_url@)
    }) + seq![
        opening(
            "md:NameIDFormat"@,
            seq![],
            "urn:oasis:names:tc:SAML:2.0:nameid-format:transient"@,
        ),
        closing("md:NameIDFormat"@),
        opening(
            "md:NameIDFormat"@,
            seq![],
            "urn:oasis:names:tc:SAML:1.1:nameid-format:emailAddress"@,
        ),
        closing("md:NameIDFormat"@),
    ] + endpoint_tags("md:SingleSignOnService"@, config.sso_url@) + seq![
        closing("md:IDPSSODescriptor"@),
    ]
}

proof fn lemma_role_attrs_written()
    ensures
        are_written(
            attr("protocolSupportEnumeration"@, "urn:oasis:names:tc:SAML:2.0:protocol"@) + attr(
                "WantAuthnRequestsSigned"@,
                "false"@,
            ),
            seq![
                ("protocolSupportEnumeration"@, "urn:oasis:names:tc:SAML:2.0:protocol"@),
                ("WantAuthnRequestsSigned"@, "false"@),
            ],
        ),
{
    lemma_metadata_names();
    let protocol = "urn:oasis:names:tc:SAML:2.0:protocol"@;
    lemma_one_written("protocolSupportEnumeration"@, protocol);
    lemma_one_more_written(
        attr("protocolSupportEnumeration"@, protocol),
        seq![("protocolSupportEnumeration"@, protocol)],
        "WantAuthnRequestsSigned"@,
        "false"@,
    );
    assert(seq![("protocolSupportEnumeration"@, protocol)].push(
        ("WantAuthnRequestsSigned"@, "false"@),
    ) == seq![
        ("protocolSupportEnumeration"@, protocol),
        ("WantAuthnRequestsSigned"@, "false"@),
    ]);
}

proof fn lemma_role_is_read(config: IdpConfig, cert: Option<Seq<char>>)
    ensures
        read(role_xml(config, cert)) == role_tags(config, cert),
        begins_a_tag(role_xml(config, cert)),
{
    lemma_metadata_names();
    lemma_none_written();
    lemma_nothing_is_read();
    lemma_role_attrs_written();
    lemma_key_is_read(cert);
    lemma_endpoints_are_read("md:SingleSignOnService"@, config.sso_url@);
    lemma_endpoints_are_read("md:SingleLogoutService"@, config.slo_url@);
    let transient = "urn:oasis:names:tc:SAML:2.0:nameid-format:transient"@;
    let email = "urn:oasis:names:tc:SAML:1.1:nameid-format:emailAddress"@;
    lemma_text_element_is_read("md:NameIDFormat"@, Seq::empty(), Seq::empty(), transient);
    lemma_text_element_is_read("md:NameIDFormat"@, Seq::empty(), Seq::empty(), email);
    let protocol = "urn:oasis:names:tc:SAML:2.0:protocol"@;
    let b = key_xml(cert);
    let c = logout_xml(config.slo_url@);
    let d = text_element("md:NameIDFormat"@, Seq::empty(), transient);
    let e = text_element("md:NameIDFormat"@, Seq::empty(), email);
    let f = endpoints_xml("md:SingleSignOnService"@, config.sso_url@);
    law_documents_are_read_in_order(b, c);
    lemma_begins(b, c);
    law_documents_are_read_in_order(b + c, d);
    lemma_begins(b + c, d);
    lemma_three_parts(
        "md:IDPSSODescriptor"@,
        attr("protocolSupportEnumeration"@, protocol) + attr("WantAuthnRequestsSigned"@, "false"@),
        seq![("protocolSupportEnumeration"@, protocol), ("WantAuthnRequestsSigned"@, "false"@)],
        b + c + d,
        e,
        f,
    );
    lemma_regroup_role(
        opening(
            "md:IDPSSODescriptor"@,
            seq![("protocolSupportEnumeration"@, protocol), ("WantAuthnRequestsSigned"@, "false"@)],
            seq![],
        ),
        read(b),
        read(c),
        opening("md:NameIDFormat"@, seq![], transient),
        closing("md:NameIDFormat"@),
        opening("md:NameIDFormat"@, seq![], email),
        read(f),
        closing("md:IDPSSODescriptor"@),
    );
}

proof fn lemma_regroup_role(
    a: Tag,
    b: Seq<Tag>,
    c: Seq<Tag>,
    d: Tag,
    e: Tag,
    f: Tag,
    g: Seq<Tag>,
    h: Tag,
)
    ensures
        seq![a] + (b + c + seq![d, e]) + seq![f, e] + g + seq![h] == seq![a] + b + c + seq![
            d,
            e,
            f,
            e,
        ] + g + seq![h],
{
}

proof fn lemma_metadata_attrs_written(config: IdpConfig, id: Seq<char>)
    ensures
        are_written(
            metadata_attrs(config, id),
            seq![
                ("xmlns:md"@, "urn:oasis:names:tc:SAML:2.0:metadata"@),
                ("entityID"@, config.entity_id@),
                ("ID"@, id),
            ],
        ),
{
    lemma_metadata_names();
    let ns = "urn:oasis:names:tc:SAML:2.0:metadata"@;
    let a1 = attr("xmlns:md"@, ns);
    let l1 = seq![("xmlns:md"@, ns)];
    lemma_one_written("xmlns:md"@, ns);
    let a2 = a1 + attr("entityID"@, config.entity_id@);
    let l2 = l1.push(("entityID"@, config.entity_id@));
    lemma_one_more_written(a1, l1, "entityID"@, config.entity_id@);
    let l3 = l2.push(("ID"@, id));
    lemma_one_more_written(a2, l2, "ID"@, id);
    assert(l3 == seq![("xmlns:md"@, ns), ("entityID"@, config.entity_id@), ("ID"@, id)]);
}

/// Metadata says who the identity provider is, with which key it signs and where
/// its endpoints are.
pub proof fn law_metadata_is_read(config: IdpConfig, cert: Option<Seq<char>>, id: Seq<char>)
    ensures
        read(metadata_xml(config, cert, id)) == seq![
            opening(
                "md:EntityDescriptor"@,
                seq![
                    ("xmlns:md"@, "urn:oasis:names:tc:SAML:2.0:metadata"@),
                    ("entityID"@, config.entity_id@),
                    ("ID"@, id),
                ],
                seq![],
            ),
        ] + role_tags(config, cert) + seq![closing("md:EntityDescriptor"@)],
{
    lemma_metadata_names();
    lemma_role_is_read(config, cert);
    lemma_metadata_attrs_written(config, id);
    lemma_element_is_read(
        "md:EntityDescriptor"@,
        metadata_attrs(config, id),
        seq![
            ("xmlns:md"@, "urn:oasis:names:tc:SAML:2.0:metadata"@),
            ("entityID"@, config.entity_id@),
            ("ID"@, id),
        ],
        role_xml(config, cert),
    );
}

/// What a browser reads of a hidden field.
pub open spec fn hidden_tags(name: Seq<char>, value: Seq<char>) -> Seq<Tag> {
    seq![
        opening("input"@, seq![("type"@, "hidden"@), ("name"@, name), ("value"@, value)], seq![]),
        closing("input"@),
    ]
}

proof fn lemma_hidden_is_read(name: Seq<char>, value: Seq<char>)
    ensures
        read(hidden(name, value)) == hidden_tags(name, value),
        begins_a_tag(hidden(name, value)),
{
    lemma_page_names();
    let a1 = attr("type"@, "hidden"@);
    let l1 = seq![("type"@, "hidden"@)];
    lemma_one_written("type"@, "hidden"@);
    let a2 = a1 + attr("name"@, name);
    let l2 = l1.push(("name"@, name));
    lemma_one_more_written(a1, l1, "name"@, name);
    let a3 = a2 + attr("value"@, value);
    let l3 = l2.push(("value"@, value));
    lemma_one_more_written(a2, l2, "value"@, value);
    assert(l3 == seq![("type"@, "hidden"@), ("name"@, name), ("value"@, value)]);
    lemma_empty_element_is_read("input"@, a3, l3);
}

proof fn lemma_plain_text_is_not_escaped(s: Seq<char>)
    requires
        forall|i: int| 0 <= i < s.len() ==> escaped_char(#[trigger] s[i]) == seq![s[i]],
    ensures
        escaped(s) == s,
    decreases s.len(),
{
    if s.len() > 0 {
        assert forall|i: int| 0 <= i < s.drop_last().len() implies escaped_char(
            #[trigger] s.drop_last()[i],
        ) == seq![s.drop_last()[i]] by {
            assert(s.drop_last()[i] == s[i]);
        }
        lemma_plain_text_is_not_escaped(s.drop_last());
        assert(s[s.len() - 1] == s.last());
        assert(s.drop_last() + seq![s.last()] == s);
    }
}

proof fn lemma_button_is_read()
    ensures
        read(element("button"@, attr("type"@, "submit"@), "Continue"@)) == seq![
            opening("button"@, seq![("type"@, "submit"@)], "Continue"@),
            closing("button"@),
        ],
        begins_a_tag(element("button"@, attr("type"@, "submit"@), "Continue"@)),
{
    lemma_page_names();
    reveal_strlit("Continue");
    assert forall|i: int| 0 <= i < "Continue"@.len() implies escaped_char(
        #[trigger] "Continue"@[i],
    ) == seq!["Continue"@[i]] by {}
    lemma_plain_text_is_not_escaped("Continue"@);
    lemma_one_written("type"@, "submit"@);
    lemma_text_element_is_read(
        "button"@,
        attr("type"@, "submit"@),
        seq![("type"@, "submit"@)],
        "Continue"@,
    );
}

/// The page that delivers a response posts it where the response goes: a form
/// that submits itself, with the response in base64, and with the relay state as
/// it came where there was one.
pub proof fn law_post_page_is_read(
    xml: Seq<char>,
    acs_url: Seq<char>,
    relay_state: Option<Seq<char>>,
)
    ensures
        read(post_page(xml, acs_url, relay_state)) == read("<!DOCTYPE html>"@) + seq![
            opening("html"@, seq![], seq![]),
            opening("body"@, seq![("onload"@, "document.forms[0].submit()"@)], seq![]),
            opening("form"@, seq![("method"@, "post"@), ("action"@, acs_url)], seq![]),
        ] + hidden_tags("SAMLResponse"@, base64_of(encode_utf8(xml))) + (match relay_state {
            Some(r) => hidden_tags("RelayState"@, r),
            None => seq![],
        }) + seq![
            opening("button"@, seq![("type"@, "submit"@)], "Continue"@),
            closing("button"@),
            closing("form"@),
            closing("body"@),
            closing("html"@),
        ],
{
    lemma_page_names();
    lemma_none_written();
    lemma_nothing_is_read();
    let coded = base64_of(encode_utf8(xml));
    lemma_hidden_is_read("SAMLResponse"@, coded);
    if let Some(r) = relay_state {
        lemma_hidden_is_read("RelayState"@, r);
    }
    lemma_button_is_read();
    let submit = "document.forms[0].submit()"@;
    let b = hidden("SAMLResponse"@, coded);
    let c = relay_field(relay_state);
    let d = element("button"@, attr("type"@, "submit"@), "Continue"@);
    let form_list = seq![("method"@, "post"@), ("action"@, acs_url)];
    lemma_one_written("method"@, "post"@);
    lemma_one_more_written(
        attr("method"@, "post"@),
        seq![("method"@, "post"@)],
        "action"@,
        acs_url,
    );
    assert(seq![("method"@, "post"@)].push(("action"@, acs_url)) == form_list);
    lemma_three_parts(
        "form"@,
        attr("method"@, "post"@) + attr("action"@, acs_url),
        form_list,
        b,
        c,
        d,
    );
    let form = element("form"@, attr("method"@, "post"@) + attr("action"@, acs_url), b + c + d);
    lemma_one_written("onload"@, submit);
    lemma_element_is_read("body"@, attr("onload"@, submit), seq![("onload"@, submit)], form);
    let body = element("body"@, attr("onload"@, submit), form);
    lemma_element_is_read("html"@, Seq::empty(), Seq::empty(), body);
    let html = element("html"@, Seq::empty(), body);
    law_documents_are_read_in_order("<!DOCTYPE html>"@, html);
    lemma_regroup_page(
        read("<!DOCTYPE html>"@),
        opening("html"@, seq![], seq![]),
        opening("body"@, seq![("onload"@, submit)], seq![]),
        opening("form"@, form_list, seq![]),
        read(b),
        read(c),
        opening("button"@, seq![("type"@, "submit"@)], "Continue"@),
        closing("button"@),
        closing("form"@),
        closing("body"@),
        closing("html"@),
    );
}

proof fn lemma_regroup_page(
    a: Seq<Tag>,
    b: Tag,
    c: Tag,
    d: Tag,
    e: Seq<Tag>,
    f: Seq<Tag>,
    g: Tag,
    h: Tag,
    i: Tag,
    j: Tag,
    k: Tag,
)
    ensures
        a + (seq![b] + (seq![c] + (seq![d] + e + f + seq![g, h] + seq![i]) + seq![j]) + seq![k])
            == a + seq![b, c, d] + e + f + seq![g, h, i, j, k],
{
}

proof fn lemma_signed_metadata_is_read(
    config: IdpConfig,
    cert: Seq<char>,
    id: Seq<char>,
    piece: Seq<char>,
    t: Seq<char>,
)
    requires
        begins_a_tag(piece),
        is_with_first_child(
            metadata_xml(config, Some(cert), id),
            "md:EntityDescriptor"@,
            piece,
            t,
        ),
    ensures
        read(t) == seq![
            opening(
                "md:EntityDescriptor"@,
                seq![
                    ("xmlns:md"@, "urn:oasis:names:tc:SAML:2.0:metadata"@),
                    ("entityID"@, config.entity_id@),
                    ("ID"@, id),
                ],
                seq![],
            ),
        ] + (read(piece) + role_tags(config, Some(cert))) + seq![closing("md:EntityDescriptor"@)],
{
    law_metadata_signature_comes_first(config, Some(cert), id, piece, t);
    assert(is_name("md:EntityDescriptor"@)) by {
        lemma_metadata_names();
    }
    lemma_metadata_attrs_written(config, id);
    lemma_role_is_read(config, Some(cert));
    let role = role_xml(config, Some(cert));
    law_documents_are_read_in_order(piece, role);
    lemma_begins(piece, role);
    lemma_element_is_read(
        "md:EntityDescriptor"@,
        metadata_attrs(config, id),
        seq![
            ("xmlns:md"@, "urn:oasis:names:tc:SAML:2.0:metadata"@),
            ("entityID"@, config.entity_id@),
            ("ID"@, id),
        ],
        piece + role,
    );
}

/// What is published says which key signs: that of the signer where there is
/// one, else the configured one. Where there is a signer, it gets the metadata
/// with an empty signature over it, read before the role, and what the signer
/// makes of it is what is published.
pub proof fn law_published_metadata_is_read<F: Fn(&str) -> Result<String, String>>(
    config: IdpConfig,
    ctx: Option<&IdpSigningContext<F>>,
    id: Seq<char>,
    result: Result<Seq<char>, SamlActixErrorView>,
)
    requires
        may_publish(config, ctx, id, result),
    ensures
        ({
            let head = opening(
                "md:EntityDescriptor"@,
                seq![
                    ("xmlns:md"@, "urn:oasis:names:tc:SAML:2.0:metadata"@),
                    ("entityID"@, config.entity_id@),
                    ("ID"@, id),
                ],
                seq![],
            );
            let end = closing("md:EntityDescriptor"@);
            match ctx {
                None => result matches Ok(xml) && read(xml) == seq![head] + role_tags(
                    config,
                    opt_text(config.signing_cert_b64),
                ) + seq![end],
                Some(c) => exists|t: Seq<char>, r: Result<String, String>|
                    {
                        &&& #[trigger] c.signer.may_sign(t, r)
                        &&& read(t) == seq![head] + (read(
                            template(id, c.cert_b64@, c.signer.method()),
                        ) + role_tags(config, Some(c.cert_b64@))) + seq![end]
                        &&& r matches Ok(s) ==> result == Ok::<Seq<char>, SamlActixErrorView>(s@)
                        &&& r matches Err(e) ==> result == Err::<Seq<char>, SamlActixErrorView>(
                            SamlActixErrorView::Internal("metadata signing failed: "@ + e@),
                        )
                    },
            }
        }),
{
    match ctx {
        None => law_metadata_is_read(config, opt_text(config.signing_cert_b64), id),
        Some(c) => {
            let unsigned = metadata_xml(config, Some(c.cert_b64@), id);
            let piece = template(id, c.cert_b64@, c.signer.method());
            let (t, r) = choose|t: Seq<char>, r: Result<String, String>|
                {
                    &&& is_with_first_child(unsigned, "md:EntityDescriptor"@, piece, t)
                    &&& #[trigger] c.signer.may_sign(t, r)
                    &&& result == match r {
                        Ok(s) => Ok::<Seq<char>, SamlActixErrorView>(s@),
                        Err(e) => Err(
                            SamlActixErrorView::Internal("metadata signing failed: "@ + e@),
                        ),
                    }
                };
            assert(begins_a_tag(piece)) by {
                law_empty_signature_is_read(id, c.cert_b64@, c.signer.method());
            }
            lemma_signed_metadata_is_read(config, c.cert_b64@, id, piece, t);
        },
    }
}

} // verus!
