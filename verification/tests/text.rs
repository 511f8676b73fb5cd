//! Text, XML, digests, times, and the signatures in documents.

use gamlastan::digest::{new_id, to_hex};
use gamlastan::idp::authn_broker::{sort_strongest_first, AuthnBroker};
use gamlastan::idp::ident::coding::{quote, unquote};
use gamlastan::idp::ident::forward::{entries_from, forward_entries};
use gamlastan::saml::metadata::{EntityDescriptor, SpSsoDescriptor};
use gamlastan::saml::name_id::NameId;
use gamlastan::saml::response::{create_response, ResponseOptions, ResponseTimes};
use gamlastan::saml::signing::{
    insert_signature_after_issuer, sign_response_xml, SamlSigner,
};
use gamlastan::saml::time::{Instant, TimeDelta};
use gamlastan::text::{decimal_text, join_with, same, split_on};
use gamlastan::web::logout::SessionParticipant;
use gamlastan::web::messages::{
    artifact_response, logout_page, logout_response, propagation_requests, soap_envelope_wrap,
};
use gamlastan::xml::{escape, find, find_tag_end, make_attr, make_element, make_opt_attr, splice};

fn strings(v: &[&str]) -> Vec<String> {
    v.iter().map(|s| s.to_string()).collect()
}

#[test]
fn escaped_text_is_inert() {
    assert_eq!(
        escape("a<b>&\"c'"),
        "a&lt;b&gt;&amp;&quot;c&#39;"
    );
    assert!(!escape("\"><evil attr='").contains(['<', '>', '"', '\'']));
}

#[test]
fn elements_are_put_together() {
    assert_eq!(make_attr("a", "x\"y"), " a=\"x&quot;y\"");
    assert_eq!(make_opt_attr("a", None), "");
    assert_eq!(make_element("e", &make_attr("a", "1"), "b"), "<e a=\"1\">b</e>");
}

#[test]
fn the_first_place_is_found() {
    let s: Vec<char> = "abcabc".chars().collect();
    let bc: Vec<char> = "bc".chars().collect();
    assert_eq!(find(&s, &bc, 0), Some(1));
    assert_eq!(find(&s, &bc, 2), Some(4));
    assert_eq!(find(&s, &bc, 5), None);
    assert_eq!(splice(&s, 3, "-"), "abc-abc");
}

#[test]
fn equal_texts_are_told_from_others() {
    assert!(same("", ""));
    assert!(same("a\u{e4}b", "a\u{e4}b"));
    assert!(!same("ab", "abc"));
    assert!(!same("abc", "ab"));
    assert!(!same("abc", "abd"));
}

#[test]
fn the_end_of_a_tag_is_found_outside_its_values() {
    let end = |s: &str, start: usize| find_tag_end(&s.chars().collect::<Vec<char>>(), start);
    assert_eq!(end("<a>", 0), Some(2));
    assert_eq!(end("<a x='>'>", 0), Some(8));
    assert_eq!(end("<a x='>", 0), None);
    assert_eq!(end("<a>", 3), None);
    assert_eq!(end("<a>", 9), None);
    assert_eq!(end("'<a>", 1), Some(3));
}

#[test]
fn splitting_undoes_joining() {
    let parts = strings(&["a", "", "b"]);
    assert_eq!(join_with(&parts, ' '), "a  b");
    assert_eq!(split_on("a  b", ' '), parts);
    assert_eq!(split_on("", ' '), strings(&[""]));
}

#[test]
fn empty_entries_are_passed_over() {
    assert_eq!(forward_entries("a  b "), strings(&["a", "b"]));
    assert!(forward_entries("").is_empty());
    assert!(entries_from(&None).is_empty());
    assert_eq!(entries_from(&Some("x y".to_string())), strings(&["x", "y"]));
}

#[test]
fn unquoting_undoes_quoting() {
    assert_eq!(quote("a b,c=d%"), "a%20b%2Cc%3Dd%25");
    assert_eq!(unquote("a%20b%2cc%3dd%25"), "a b,c=d%");
    // what is no escape stays
    assert_eq!(unquote("%zz%4"), "%zz%4");
    assert_eq!(unquote("%"), "%");
}

#[test]
fn numbers_and_bytes_have_their_digits() {
    assert_eq!(decimal_text(0), "0");
    assert_eq!(decimal_text(340_282_366_920_938_463_463_374_607_431_768_211_455), u128::MAX.to_string());
    assert_eq!(to_hex(&[0x00, 0x0f, 0xa5]), "000fa5");
    assert_ne!(to_hex(&[0x01, 0x00]), to_hex(&[0x10]));
}

#[test]
fn identifiers_begin_with_an_underscore() {
    let id = new_id();
    assert_eq!(id.len(), 65);
    assert!(id.starts_with('_'));
    assert!(id[1..].chars().all(|c| c.is_ascii_hexdigit()));
    assert_ne!(id, new_id());
}

#[test]
fn instants_read_as_dates() {
    assert_eq!(
        Instant::from_timestamp(1_431_648_000, 0).to_text(),
        "2015-05-15T00:00:00Z"
    );
    assert_eq!(Instant::from_timestamp(-1, 0).to_text(), "1969-12-31T23:59:59Z");
    // the fraction of a second is left out
    assert_eq!(
        Instant::from_timestamp(0, 999_999_999).to_text(),
        "1970-01-01T00:00:00Z"
    );
    let now = Instant::now();
    assert!(now.is_in_range());
    assert_eq!(now.plus(TimeDelta::seconds(1)).unwrap().timestamp(), now.timestamp() + 1);
    assert!(now.plus(TimeDelta::seconds(i64::MAX)).is_none());
    assert_eq!(Instant::from_timestamp(-1, 500_000_000).timestamp(), -1);
}

#[test]
fn lifetimes_are_whole_seconds() {
    assert_eq!(TimeDelta::milliseconds(2_500).as_lifetime(), TimeDelta::seconds(2));
    assert_eq!(TimeDelta::milliseconds(-2_500).as_lifetime(), TimeDelta::seconds(0));
}

#[test]
fn sorting_puts_the_strongest_first_and_keeps_the_order_of_equals() {
    let mut broker = AuthnBroker::new();
    broker.add("a", "/a", 1, None);
    broker.add("b", "/b", 3, None);
    broker.add("c", "/c", 1, None);
    let sorted: Vec<String> = sort_strongest_first(broker.pick(None))
        .into_iter()
        .map(|m| m.class_ref)
        .collect();
    assert_eq!(sorted, strings(&["b", "a", "c"]));
}

#[test]
fn the_saml2_role_is_chosen_by_its_protocols() {
    let role = |protocol: &str, signed: bool| SpSsoDescriptor {
        protocols: vec![protocol.to_string()],
        authn_requests_signed: Some(signed),
        want_assertions_signed: None,
        attribute_consuming_services: vec![],
        signing_certs: vec![],
    };
    let mut entity = EntityDescriptor::for_sp("e", role("urn:oasis:names:tc:SAML:1.1:protocol", false));
    assert!(entity.saml2_sp_sso_descriptor().is_none());
    entity
        .sp_sso
        .push(role("urn:oasis:names:tc:SAML:2.0:protocol", true));
    let chosen = entity.saml2_sp_sso_descriptor().unwrap();
    assert_eq!(chosen.authn_requests_signed, Some(true));
}

fn response_with(response_id: &str, assertion_id: &str, acs_url: &str) -> String {
    let now = Instant::from_timestamp(0, 0);
    let options = ResponseOptions {
        idp_entity_id: "idp".to_string(),
        in_response_to: None,
        sp_entity_id: "sp".to_string(),
        acs_url: acs_url.to_string(),
        not_on_or_after: now,
        session_index: None,
        session_not_on_or_after: None,
        authn_context_class_ref: None,
        client_address: None,
        attributes: vec![],
        authenticating_authorities: vec![],
    };
    let name_id = NameId {
        value: "n".to_string(),
        format: None,
        name_qualifier: None,
        sp_name_qualifier: None,
        sp_provided_id: None,
    };
    let times = ResponseTimes {
        issue_instant: now,
        authn_instant: now,
    };
    create_response(&options, &name_id, times, response_id, assertion_id).to_xml_string()
}

#[test]
fn each_signature_follows_its_own_issuer() {
    let (r, a) = (new_id(), new_id());
    // a destination that looks like the identifier of the assertion is not it
    let xml = response_with(&r, &a, &format!("x ID=\"{a}\""));
    let outer = insert_signature_after_issuer(&xml, &r, "<S/>").unwrap();
    assert!(outer.contains("</saml:Issuer><S/><samlp:Status>"));
    let inner = insert_signature_after_issuer(&xml, &a, "<S/>").unwrap();
    assert!(inner.contains("</saml:Issuer><S/><saml:Subject>"));
    assert!(insert_signature_after_issuer(&xml, "_other", "<S/>").is_none());
}

#[test]
fn what_is_not_to_be_signed_stays_as_it_is() {
    let signer = SamlSigner::new(|_: &str| Err("must not be asked".to_string()), "alg");
    let xml = response_with("_r", "_a", "acs");
    let out = sign_response_xml(&xml, &signer, "cert", "_r", Some("_a"), false, false).unwrap();
    assert_eq!(out, xml);
}

#[test]
fn the_assertion_is_signed_before_the_response() {
    let signer = SamlSigner::new(
        |xml: &str| Ok(xml.replace("<ds:SignatureValue></ds:SignatureValue>", "<done/>")),
        "alg",
    );
    let (r, a) = (new_id(), new_id());
    let xml = response_with(&r, &a, "acs");
    let out = sign_response_xml(&xml, &signer, "cert", &r, Some(&a), true, true).unwrap();
    assert_eq!(out.matches("<done/>").count(), 2);
    let outer = out.find(&format!("URI=\"#{r}\"")).unwrap();
    let inner = out.find(&format!("URI=\"#{a}\"")).unwrap();
    assert!(outer < inner);
    let failed = SamlSigner::new(|_: &str| Err("gone".to_string()), "alg");
    let error = sign_response_xml(&xml, &failed, "cert", &r, Some(&a), true, false).unwrap_err();
    assert_eq!(error.message(), "signing failed: gone");
    // there has to be an element with the identifier
    assert!(sign_response_xml(&xml, &signer, "cert", "_none", None, false, true).is_err());
}

fn participant(entity_id: &str, session_index: Option<&str>) -> SessionParticipant {
    SessionParticipant {
        entity_id: entity_id.to_string(),
        name_id: NameId {
            value: "a<b".to_string(),
            format: None,
            name_qualifier: None,
            sp_name_qualifier: None,
            sp_provided_id: None,
        },
        session_index: session_index.map(String::from),
    }
}

#[test]
fn logout_messages_read_as_expected() {
    let now = Instant::from_timestamp(0, 0);
    let xml = logout_response("idp", "_req", "_1", now);
    assert_eq!(
        xml,
        "<samlp:LogoutResponse xmlns:samlp=\"urn:oasis:names:tc:SAML:2.0:protocol\" \
         xmlns:saml=\"urn:oasis:names:tc:SAML:2.0:assertion\" ID=\"_1\" Version=\"2.0\" \
         IssueInstant=\"1970-01-01T00:00:00Z\" InResponseTo=\"_req\"><saml:Issuer>idp\
         </saml:Issuer><samlp:Status><samlp:StatusCode \
         Value=\"urn:oasis:names:tc:SAML:2.0:status:Success\"></samlp:StatusCode></samlp:Status>\
         </samlp:LogoutResponse>"
    );
    assert_eq!(
        logout_page("\u{e9}"),
        "<html><body><p>Logout completed</p><!-- 2 --></body></html>"
    );
    let requests = propagation_requests(
        "idp",
        vec![participant("sp1", Some("_s")), participant("sp2", None)],
        "sp2",
        now,
    );
    assert_eq!(requests.len(), 1);
    assert_eq!(requests[0].entity_id, "sp1");
    assert!(requests[0].xml.contains("<saml:NameID>a&lt;b</saml:NameID>"));
    assert!(requests[0]
        .xml
        .contains("<samlp:SessionIndex>_s</samlp:SessionIndex>"));
}

#[test]
fn artifact_responses_carry_the_message_or_the_reason() {
    let now = Instant::from_timestamp(0, 0);
    let found = artifact_response("idp", "_req", &Ok("<m/>".to_string()), "_1", now);
    assert!(found.contains("status:Success"));
    assert!(found.ends_with("</samlp:Status><m/></samlp:ArtifactResponse>"));
    let failed = artifact_response("idp", "_req", &Err("not <here>".to_string()), "_1", now);
    assert!(failed.contains("status:Responder"));
    assert!(failed.contains("<samlp:StatusMessage>not &lt;here&gt;</samlp:StatusMessage>"));
    assert_eq!(
        soap_envelope_wrap("<m/>"),
        "<soap:Envelope xmlns:soap=\"http://schemas.xmlsoap.org/soap/envelope/\"><soap:Body><m/>\
         </soap:Body></soap:Envelope>"
    );
}
