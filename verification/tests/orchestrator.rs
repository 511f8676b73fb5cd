//! The response engine.

use gamlastan::idp::assertion_store::InMemoryAssertionStore;
use gamlastan::idp::authn_broker::AuthnBroker;
use gamlastan::idp::entity_category::{
    refeds, SubjectIdReq, REFEDS_RESEARCH_AND_SCHOLARSHIP, SUBJECT_ID_REQ_ATTR,
};
use gamlastan::idp::ident::{IdentDb, IdentityStore, InMemoryIdentityStore};
use gamlastan::idp::orchestrator::respond::{create_authn_response_at, decide_request};
use gamlastan::idp::orchestrator::{
    check_request, create_authn_response, create_denial_response, AttributeRelease,
    AuthenticatedSubject, AuthnMethodRef, Denial, Disposition, EstablishedSession,
    PassThroughRelease, ResponseEngine, ResponseOutcome, ResponseParams,
};
use gamlastan::idp::policy::{PolicyEntry, PolicyError, ReleasePolicy, SignTargets};
use gamlastan::saml::attribute::{Attribute, AttributeValue, RequestedAttribute};
use gamlastan::saml::constants;
use gamlastan::saml::error::ProfileError;
use gamlastan::saml::metadata::{
    AttributeConsumingService, EntityAttribute, EntityDescriptor, SpSsoDescriptor,
};
use gamlastan::saml::request::{AuthnContextComparison, ProcessedAuthnRequest};
use gamlastan::saml::signing::SamlSigner;
use gamlastan::saml::time::{Instant, TimeDelta};
use std::collections::HashMap;

const IDP: &str = "https://idp.example.org/metadata";
const SP: &str = "https://sp.example.org/metadata";
const ACS: &str = "https://sp.example.org/acs";

const PASSWORD: &str = constants::AUTHN_CONTEXT_PASSWORD;
const PPT: &str = constants::AUTHN_CONTEXT_PASSWORD_PROTECTED_TRANSPORT;
const X509: &str = constants::AUTHN_CONTEXT_X509;

const EMPTY: &str = "<ds:SignatureValue></ds:SignatureValue>";
const FILLED: &str = "<ds:SignatureValue>c2lnbmVk</ds:SignatureValue>";

/// Fill in the empty signature.
fn fill(xml: &str) -> Result<String, String> {
    assert_eq!(xml.matches(EMPTY).count(), 1, "one empty signature at a time");
    Ok(xml.replace(EMPTY, FILLED))
}

fn no_key(_xml: &str) -> Result<String, String> {
    Err("no key".to_string())
}

type Sign = fn(&str) -> Result<String, String>;

fn signer() -> SamlSigner<Sign> {
    SamlSigner::new(fill as Sign, "http://www.w3.org/2001/04/xmldsig-more#rsa-sha256")
}

/// A broker with three methods at increasing strength.
fn broker() -> AuthnBroker {
    let mut b = AuthnBroker::new();
    b.add(PASSWORD, "/login/password", 1, None);
    b.add(PPT, "/login/ppt", 2, None);
    b.add(X509, "/login/cert", 3, None);
    b
}

fn processed(
    force_authn: bool,
    is_passive: bool,
    class_refs: Vec<&str>,
    comparison: Option<AuthnContextComparison>,
) -> ProcessedAuthnRequest {
    ProcessedAuthnRequest {
        request_id: "_req1".to_string(),
        sp_entity_id: SP.to_string(),
        acs_url: ACS.to_string(),
        acs_binding: "urn:oasis:names:tc:SAML:2.0:bindings:HTTP-POST".to_string(),
        force_authn,
        is_passive,
        requested_name_id_format: None,
        requested_sp_name_qualifier: None,
        allow_create: false,
        has_name_id_policy: false,
        requested_authn_context_class_refs: class_refs.into_iter().map(String::from).collect(),
        authn_context_comparison: comparison,
        attribute_consuming_service_index: None,
        extensions: None,
    }
}

fn sp_sso() -> SpSsoDescriptor {
    SpSsoDescriptor {
        protocols: vec!["urn:oasis:names:tc:SAML:2.0:protocol".to_string()],
        authn_requests_signed: None,
        want_assertions_signed: Some(true),
        attribute_consuming_services: vec![],
        signing_certs: vec![],
    }
}

fn params(p: ProcessedAuthnRequest) -> ResponseParams {
    ResponseParams {
        processed: p,
        sp_sso: sp_sso(),
        sp_entity: None,
    }
}

fn session(method: AuthnMethodRef) -> EstablishedSession {
    EstablishedSession {
        subject_id: "alice".to_string(),
        authn_method: method,
        authn_instant: Instant::now(),
        session_index: "_sess_1".to_string(),
    }
}

fn inline(class_ref: &str) -> AuthnMethodRef {
    AuthnMethodRef::Inline {
        class_ref: class_ref.to_string(),
        authn_authority: None,
    }
}

/// Everything an engine borrows.
struct Parts {
    decisions: ReleasePolicy,
    idents: IdentDb,
    broker: AuthnBroker,
    signer: SamlSigner<Sign>,
    assertions: InMemoryAssertionStore,
}

fn parts(decisions: ReleasePolicy) -> Parts {
    Parts {
        decisions,
        idents: IdentDb::in_memory(IDP),
        broker: broker(),
        signer: signer(),
        assertions: InMemoryAssertionStore::new(),
    }
}

type Engine<'a, R> = ResponseEngine<'a, R, IdentDb, InMemoryAssertionStore, Sign>;

/// An engine that passes attributes through.
fn passing(p: &mut Parts) -> Engine<'_, PassThroughRelease> {
    ResponseEngine {
        idp_entity_id: IDP,
        decisions: &p.decisions,
        release: &PassThroughRelease,
        idents: &mut p.idents,
        broker: &p.broker,
        assertions: None,
        signer: &p.signer,
        cert_der_b64: "MIIC",
    }
}

/// An engine whose decisions are its release.
fn filtering(p: &mut Parts) -> Engine<'_, ReleasePolicy> {
    ResponseEngine {
        idp_entity_id: IDP,
        decisions: &p.decisions,
        release: &p.decisions,
        idents: &mut p.idents,
        broker: &p.broker,
        assertions: Some(&mut p.assertions),
        signer: &p.signer,
        cert_der_b64: "MIIC",
    }
}

fn check(p: &ResponseParams, s: Option<&EstablishedSession>) -> Disposition {
    let mut parts = parts(ReleasePolicy::new());
    check_request(&passing(&mut parts), p, s)
}

fn denial_of(d: Disposition) -> Denial {
    match d {
        Disposition::Deny { denial } => denial,
        other => panic!("expected Deny, got {other:?}"),
    }
}

// ── check_request: the ForceAuthn × IsPassive × ACR matrix ─────────────────

#[test]
fn no_session_no_passive_authenticates() {
    let p = params(processed(false, false, vec![], None));
    let d = check(&p, None);
    // No constraint: every registered method is offered.
    match d {
        Disposition::Authenticate { methods } => assert_eq!(methods.len(), 3),
        other => panic!("expected Authenticate, got {other:?}"),
    }
}

#[test]
fn no_session_passive_denies_no_passive() {
    let p = params(processed(false, true, vec![], None));
    assert_eq!(denial_of(check(&p, None)), Denial::NoPassive);
}

#[test]
fn reusable_session_is_reused() {
    let p = params(processed(
        false,
        false,
        vec![PASSWORD],
        Some(AuthnContextComparison::Exact),
    ));
    let s = session(inline(PASSWORD));
    let d = check(&p, Some(&s));
    assert!(matches!(d, Disposition::ReuseSession { .. }));
}

#[test]
fn force_authn_defeats_session_reuse() {
    let p = params(processed(
        true,
        false,
        vec![PASSWORD],
        Some(AuthnContextComparison::Exact),
    ));
    let s = session(inline(PASSWORD));
    let d = check(&p, Some(&s));
    assert!(matches!(d, Disposition::Authenticate { .. }));
}

#[test]
fn force_authn_plus_passive_denies_no_passive() {
    // ForceAuthn defeats reuse, and IsPassive forbids a fresh login: NoPassive.
    let p = params(processed(
        true,
        true,
        vec![PASSWORD],
        Some(AuthnContextComparison::Exact),
    ));
    let s = session(inline(PASSWORD));
    assert_eq!(denial_of(check(&p, Some(&s))), Denial::NoPassive);
}

#[test]
fn session_method_below_minimum_is_not_reused() {
    let p = params(processed(
        false,
        false,
        vec![PPT],
        Some(AuthnContextComparison::Minimum),
    ));
    let s = session(inline(PASSWORD));
    let d = check(&p, Some(&s));
    assert!(matches!(d, Disposition::Authenticate { .. }));
}

#[test]
fn session_method_at_or_above_minimum_is_reused() {
    let p = params(processed(
        false,
        false,
        vec![PASSWORD],
        Some(AuthnContextComparison::Minimum),
    ));
    let s = session(inline(PPT));
    let d = check(&p, Some(&s));
    assert!(matches!(d, Disposition::ReuseSession { .. }));
}

#[test]
fn exact_unregistered_class_denies_no_authn_context() {
    let p = params(processed(
        false,
        false,
        vec!["urn:example:unknown"],
        Some(AuthnContextComparison::Exact),
    ));
    assert_eq!(denial_of(check(&p, None)), Denial::NoAuthnContext);
}

fn offered(p: &ResponseParams) -> Vec<(String, u32)> {
    match check(p, None) {
        Disposition::Authenticate { methods } => methods
            .into_iter()
            .map(|m| (m.class_ref, m.level))
            .collect(),
        other => panic!("expected Authenticate, got {other:?}"),
    }
}

#[test]
fn minimum_picks_stronger_methods() {
    let p = params(processed(
        false,
        false,
        vec![PASSWORD],
        Some(AuthnContextComparison::Minimum),
    ));
    let refs: Vec<String> = offered(&p).into_iter().map(|m| m.0).collect();
    // Password (1), PPT (2), X509 (3) all satisfy minimum-Password.
    assert!(refs.contains(&PASSWORD.to_string()));
    assert!(refs.contains(&PPT.to_string()));
    assert!(refs.contains(&X509.to_string()));
}

#[test]
fn authenticate_methods_are_strongest_first() {
    let p = params(processed(
        false,
        false,
        vec![PASSWORD],
        Some(AuthnContextComparison::Minimum),
    ));
    let methods = offered(&p);
    let levels: Vec<u32> = methods.iter().map(|m| m.1).collect();
    assert_eq!(methods[0].0, X509, "strongest method must be first");
    assert!(
        levels.windows(2).all(|w| w[0] >= w[1]),
        "methods must be sorted strongest-first, got levels {levels:?}"
    );
    assert_eq!(levels, vec![3, 2, 1]);
}

#[test]
fn better_excludes_requested_class() {
    let p = params(processed(
        false,
        false,
        vec![PASSWORD],
        Some(AuthnContextComparison::Better),
    ));
    let refs: Vec<String> = offered(&p).into_iter().map(|m| m.0).collect();
    // "better" than Password: PPT and X509, but not Password itself.
    assert!(!refs.contains(&PASSWORD.to_string()));
    assert!(refs.contains(&PPT.to_string()));
    assert!(refs.contains(&X509.to_string()));
}

#[test]
fn maximum_excludes_stronger_methods() {
    let p = params(processed(
        false,
        false,
        vec![PPT],
        Some(AuthnContextComparison::Maximum),
    ));
    let refs: Vec<String> = offered(&p).into_iter().map(|m| m.0).collect();
    assert_eq!(refs, vec![PPT.to_string(), PASSWORD.to_string()]);
}

#[test]
fn passive_with_satisfying_session_reuses() {
    let p = params(processed(
        false,
        true,
        vec![PASSWORD],
        Some(AuthnContextComparison::Exact),
    ));
    let s = session(inline(PASSWORD));
    let d = check(&p, Some(&s));
    assert!(matches!(d, Disposition::ReuseSession { .. }));
}

#[test]
fn a_session_is_not_reused_past_its_end() {
    let b = broker();
    let p = params(processed(false, false, vec![], None));
    let mut s = session(inline(PASSWORD));
    s.authn_instant = Instant::from_timestamp(1_000, 0);
    let span = TimeDelta::seconds(60);
    let at = |secs: i64| decide_request(&b, &p, Some(&s), span, Instant::from_timestamp(secs, 0));
    assert!(matches!(at(1_059), Disposition::ReuseSession { .. }));
    assert!(matches!(at(1_060), Disposition::Authenticate { .. }));
}

#[test]
fn without_a_requested_context_any_session_will_do() {
    let p = params(processed(false, true, vec![], None));
    let s = session(inline("urn:example:unregistered"));
    assert!(matches!(check(&p, Some(&s)), Disposition::ReuseSession { .. }));
}

// ── AuthnMethodRef resolution ───────────────────────────────────────────────

#[test]
fn inline_method_resolves_as_is() {
    let b = broker();
    let m = AuthnMethodRef::Inline {
        class_ref: PPT.to_string(),
        authn_authority: Some("https://upstream.example.org".to_string()),
    };
    let (class_ref, authority) = m.resolve(&b);
    assert_eq!(class_ref, PPT);
    assert_eq!(authority.as_deref(), Some("https://upstream.example.org"));
}

#[test]
fn broker_reference_resolves_from_registration() {
    let b = broker();
    // The broker assigns references "1", "2", "3" in registration order.
    let m = AuthnMethodRef::BrokerReference("2".to_string());
    let (class_ref, authority) = m.resolve(&b);
    assert_eq!(class_ref, PPT);
    assert_eq!(authority, None);
}

#[test]
fn unknown_broker_reference_falls_back_to_reference() {
    let b = broker();
    let m = AuthnMethodRef::BrokerReference("does-not-exist".to_string());
    let (class_ref, authority) = m.resolve(&b);
    assert_eq!(class_ref, "does-not-exist");
    assert_eq!(authority, None);
}

#[test]
fn exact_is_literal_unless_levels_are_allowed() {
    let p = params(processed(
        false,
        false,
        vec![PASSWORD],
        Some(AuthnContextComparison::Exact),
    ));
    let mut b = AuthnBroker::new();
    b.add(PASSWORD, "/password", 1, None);
    b.add("urn:example:same-level", "/other", 1, None);
    let requested = p.requested_authn_context();
    assert_eq!(b.pick(requested.as_ref()).len(), 1);
    let b = b.allow_exact_level_matching(true);
    assert_eq!(b.pick(requested.as_ref()).len(), 2);
}

#[test]
fn the_tenth_method_has_a_reference_of_two_digits() {
    let mut b = AuthnBroker::new();
    for i in 0..10 {
        b.add(&format!("c{i}"), "/m", i, Some("authority"));
    }
    let m = b.get("10").unwrap();
    assert_eq!(m.class_ref, "c9");
    assert_eq!(m.authn_authority.as_deref(), Some("authority"));
    assert!(b.get("11").is_none());
}

// ── fail_on_missing_requested through create_authn_response ─────────────────

fn mail_attribute() -> Attribute {
    Attribute {
        name: "urn:oid:0.9.2342.19200300.100.1.3".to_string(),
        name_format: Some(constants::ATTRNAME_FORMAT_URI.to_string()),
        friendly_name: Some("mail".to_string()),
        values: vec![AttributeValue::String("alice@example.org".to_string())],
    }
}

fn cn_attribute() -> Attribute {
    Attribute {
        name: "urn:oid:2.5.4.3".to_string(),
        name_format: Some(constants::ATTRNAME_FORMAT_URI.to_string()),
        friendly_name: Some("cn".to_string()),
        values: vec![AttributeValue::String("Alice Example".to_string())],
    }
}

fn sp_sso_requiring(attribute: Attribute) -> SpSsoDescriptor {
    let mut sp = sp_sso();
    sp.attribute_consuming_services = vec![AttributeConsumingService {
        index: 0,
        is_default: Some(true),
        requested_attributes: vec![RequestedAttribute {
            attribute,
            is_required: Some(true),
        }],
    }];
    sp
}

fn subject_with(attributes: Vec<Attribute>) -> AuthenticatedSubject {
    AuthenticatedSubject {
        subject_id: "alice".to_string(),
        attributes,
        authn_method: inline(PASSWORD),
        authn_instant: None,
        session_index: Some("_sess_1".to_string()),
    }
}

fn denied_as(outcome: ResponseOutcome) -> Denial {
    match outcome {
        ResponseOutcome::Denied { denial, response } => {
            assert!(response.xml.contains(FILLED), "a denial is signed");
            assert!(response.assertion_id.is_none());
            denial
        }
        other => panic!("expected Denied, got {other:?}"),
    }
}

fn issued_of(outcome: ResponseOutcome) -> gamlastan::idp::orchestrator::IssuedResponse {
    match outcome {
        ResponseOutcome::Issued(issued) => issued,
        other => panic!("expected Issued, got {other:?}"),
    }
}

#[test]
fn fail_on_missing_requested_denies_when_required_attribute_absent() {
    let mut parts = parts(ReleasePolicy::new());
    let mut p = params(processed(false, false, vec![], None));
    // the service asks for mail, with any value
    let mut any = mail_attribute();
    any.values = vec![];
    p.sp_sso = sp_sso_requiring(any);
    let outcome =
        create_authn_response(&mut passing(&mut parts), &p, &subject_with(vec![])).unwrap();
    assert_eq!(denied_as(outcome), Denial::MissingRequiredAttributes);

    p.sp_sso = sp_sso_requiring(mail_attribute());
    let outcome =
        create_authn_response(&mut passing(&mut parts), &p, &subject_with(vec![])).unwrap();
    assert_eq!(denied_as(outcome), Denial::MissingRequiredAttributes);
}

#[test]
fn fail_on_missing_requested_issued_when_attribute_present() {
    let mut parts = parts(ReleasePolicy::new());
    let mut p = params(processed(false, false, vec![], None));
    p.sp_sso = sp_sso_requiring(mail_attribute());
    let outcome = create_authn_response(
        &mut passing(&mut parts),
        &p,
        &subject_with(vec![mail_attribute()]),
    )
    .unwrap();
    assert!(matches!(outcome, ResponseOutcome::Issued(_)));
}

#[test]
fn release_policy_missing_required_attribute_denies_not_errors() {
    let mut parts = parts(ReleasePolicy::new());
    let mut p = params(processed(false, false, vec![], None));
    p.sp_sso = sp_sso_requiring(mail_attribute());
    let outcome = create_authn_response(&mut filtering(&mut parts), &p, &subject_with(vec![]))
        .expect("a missing required attribute is a denial, not a ProfileError");
    assert_eq!(denied_as(outcome), Denial::MissingRequiredAttributes);
}

fn mail_required_as(value: &str) -> Attribute {
    let mut a = mail_attribute();
    a.values = vec![AttributeValue::String(value.to_string())];
    a
}

#[test]
fn release_policy_missing_required_value_denies_not_errors() {
    let mut parts = parts(ReleasePolicy::new());
    let mut p = params(processed(false, false, vec![], None));
    p.sp_sso = sp_sso_requiring(mail_required_as("required@example.org"));
    // The subject holds `mail`, but with a different value than required.
    let outcome = create_authn_response(
        &mut filtering(&mut parts),
        &p,
        &subject_with(vec![mail_attribute()]),
    )
    .expect("a missing required value is a denial, not a ProfileError");
    assert_eq!(denied_as(outcome), Denial::MissingRequiredAttributes);
}

#[test]
fn pass_through_release_missing_required_value_is_still_denied() {
    let mut parts = parts(ReleasePolicy::new());
    let mut p = params(processed(false, false, vec![], None));
    p.sp_sso = sp_sso_requiring(mail_required_as("required@example.org"));
    let outcome = create_authn_response(
        &mut passing(&mut parts),
        &p,
        &subject_with(vec![mail_attribute()]),
    )
    .expect("a missing required value is a denial, not a ProfileError");
    assert_eq!(denied_as(outcome), Denial::MissingRequiredAttributes);
}

#[test]
fn fail_on_missing_requested_disabled_omits_silently() {
    let mut parts = parts(ReleasePolicy::with_default(
        PolicyEntry::new().with_fail_on_missing_requested(false),
    ));
    let mut p = params(processed(false, false, vec![], None));
    p.sp_sso = sp_sso_requiring(mail_attribute());
    // With the flag off, a missing required attribute is a silent omission,
    // not a denial.
    let outcome =
        create_authn_response(&mut passing(&mut parts), &p, &subject_with(vec![])).unwrap();
    assert!(issued_of(outcome).released_attribute_names.is_empty());
}

/// A release that is misconfigured.
struct Broken;

impl AttributeRelease for Broken {
    fn release(
        &self,
        _attributes: Vec<Attribute>,
        _sp_entity_id: &str,
        _sp_entity_categories: &[String],
        _required: &[RequestedAttribute],
        _optional: &[RequestedAttribute],
        _subject_id_req: SubjectIdReq,
    ) -> Result<Vec<Attribute>, PolicyError> {
        Err(PolicyError::Misconfigured("bad pattern".to_string()))
    }
}

#[test]
fn a_misconfigured_release_is_a_fault() {
    let mut parts = parts(ReleasePolicy::new());
    let mut engine = ResponseEngine {
        idp_entity_id: IDP,
        decisions: &parts.decisions,
        release: &Broken,
        idents: &mut parts.idents,
        broker: &parts.broker,
        assertions: None::<&mut InMemoryAssertionStore>,
        signer: &parts.signer,
        cert_der_b64: "",
    };
    let p = params(processed(false, false, vec![], None));
    let error = create_authn_response(&mut engine, &p, &subject_with(vec![])).unwrap_err();
    assert_eq!(
        error,
        ProfileError::Other("attribute release failed: bad pattern".to_string())
    );
}

#[test]
fn a_signer_that_fails_is_a_fault() {
    let mut parts = parts(ReleasePolicy::new());
    parts.signer = SamlSigner::new(no_key as Sign, "alg");
    let p = params(processed(
        false,
        false,
        vec![X509],
        Some(AuthnContextComparison::Exact),
    ));
    // the default signs nothing that is issued, but a refusal is always signed
    let error =
        create_authn_response(&mut passing(&mut parts), &p, &subject_with(vec![])).unwrap_err();
    assert_eq!(error.message(), "signing failed: no key");
    let p = params(processed(false, false, vec![], None));
    let outcome =
        create_authn_response(&mut passing(&mut parts), &p, &subject_with(vec![])).unwrap();
    assert!(!issued_of(outcome).xml.contains("ds:Signature"));
}

// ── Authn context revalidation through create_authn_response ───────────────

#[test]
fn create_authn_response_denies_a_method_that_does_not_satisfy_the_request() {
    let mut parts = parts(ReleasePolicy::new());
    let p = params(processed(
        false,
        false,
        vec![X509],
        Some(AuthnContextComparison::Exact),
    ));
    let outcome =
        create_authn_response(&mut passing(&mut parts), &p, &subject_with(vec![])).unwrap();
    assert_eq!(denied_as(outcome), Denial::NoAuthnContext);
}

#[test]
fn create_authn_response_issues_when_method_satisfies_the_request() {
    let mut parts = parts(ReleasePolicy::new());
    let p = params(processed(
        false,
        false,
        vec![X509],
        Some(AuthnContextComparison::Exact),
    ));
    let mut subject = subject_with(vec![]);
    subject.authn_method = inline(X509);
    let outcome = create_authn_response(&mut passing(&mut parts), &p, &subject).unwrap();
    assert!(matches!(outcome, ResponseOutcome::Issued(_)));
}

#[test]
fn issued_not_on_or_after_matches_the_wire_assertion_lifetime() {
    let mut parts = parts(ReleasePolicy::with_default(
        PolicyEntry::new().with_lifetime(TimeDelta::milliseconds(2_500)),
    ));
    let p = params(processed(false, false, vec![], None));
    let subject = subject_with(vec![mail_attribute()]);

    let before = Instant::now();
    let outcome = create_authn_response(&mut passing(&mut parts), &p, &subject).unwrap();
    let issued = issued_of(outcome);
    // The normalized lifetime is 2 whole seconds, not 2.5.
    let expected = before.plus(TimeDelta::seconds(2)).unwrap();
    let delta = (issued.not_on_or_after.nanos - expected.nanos).abs() / 1_000_000;
    assert!(
        delta < 500,
        "not_on_or_after should be ~2s (normalized) after issuance, not 2.5s"
    );
    assert!(issued.xml.contains(&format!(
        "NotOnOrAfter=\"{}\"",
        issued.not_on_or_after.to_text()
    )));
}

// ── ResponseParams metadata signals ──────────────────────────────────────────

fn entity(name: &str, value: &str) -> EntityDescriptor {
    EntityDescriptor {
        entity_id: SP.to_string(),
        entity_attributes: vec![EntityAttribute {
            name: name.to_string(),
            values: vec![value.to_string()],
        }],
        sp_sso: vec![],
    }
}

#[test]
fn subject_id_req_reads_the_full_metadata_attribute_name() {
    let mut p = params(processed(false, false, vec![], None));
    p.sp_entity = Some(entity(SUBJECT_ID_REQ_ATTR, "any"));
    assert_eq!(p.subject_id_req(), SubjectIdReq::Any);
    // the short label is not the name
    p.sp_entity = Some(entity("subject-id:req", "any"));
    assert_eq!(p.subject_id_req(), SubjectIdReq::NotRequired);
}

#[test]
fn a_policy_without_a_format_is_still_a_policy() {
    let mut p = params(processed(false, false, vec![], None));
    assert!(p.name_id_policy().is_none());
    p.processed.has_name_id_policy = true;
    p.processed.allow_create = true;
    let policy = p.name_id_policy().unwrap();
    assert_eq!(policy.format, None);
    assert!(policy.allow_create);
    assert!(p.requested_authn_context().is_none());
    p.processed.requested_authn_context_class_refs = vec![PASSWORD.to_string()];
    let context = p.requested_authn_context().unwrap();
    assert_eq!(context.comparison, AuthnContextComparison::Exact);
}

// ── ResponseEngine over a non-default IdentityStore ─────────────────────────

/// A distinct `IdentityStore`, which stands in for a Redis or SQL backend.
#[derive(Default)]
struct CustomStore(HashMap<String, String>);

impl IdentityStore for CustomStore {
    fn get(&self, key: &str) -> Option<String> {
        self.0.get(key).cloned()
    }
    fn set(&mut self, key: &str, value: String) {
        self.0.insert(key.to_string(), value);
    }
    fn remove(&mut self, key: &str) {
        self.0.remove(key);
    }
}

#[test]
fn response_engine_accepts_a_non_default_identity_store() {
    let mut idents = IdentDb::new(CustomStore::default(), IDP);
    let broker = broker();
    let decisions = ReleasePolicy::new();
    let signer = signer();
    let mut engine = ResponseEngine {
        idp_entity_id: IDP,
        decisions: &decisions,
        release: &decisions,
        idents: &mut idents,
        broker: &broker,
        assertions: None::<&mut InMemoryAssertionStore>,
        signer: &signer,
        cert_der_b64: "",
    };
    let p = params(processed(false, false, vec![], None));
    let outcome = create_authn_response(&mut engine, &p, &subject_with(vec![])).unwrap();
    assert!(matches!(outcome, ResponseOutcome::Issued(_)));
}

// ── NameID construction through create_authn_response ──────────────────────

#[test]
fn no_name_id_policy_uses_decisions_default_format() {
    let mut parts = parts(ReleasePolicy::new());
    let p = params(processed(false, false, vec![], None));
    let outcome =
        create_authn_response(&mut passing(&mut parts), &p, &subject_with(vec![])).unwrap();
    assert_eq!(
        issued_of(outcome).name_id.format.as_deref(),
        Some(constants::NAMEID_TRANSIENT)
    );
}

fn processed_with_name_id_policy(
    format: Option<&str>,
    sp_name_qualifier: Option<&str>,
    allow_create: bool,
) -> ProcessedAuthnRequest {
    let mut p = processed(false, false, vec![], None);
    p.has_name_id_policy = true;
    p.requested_name_id_format = format.map(String::from);
    p.requested_sp_name_qualifier = sp_name_qualifier.map(String::from);
    p.allow_create = allow_create;
    p
}

#[test]
fn sp_name_qualifier_honoured_over_sp_entity_id() {
    let mut parts = parts(ReleasePolicy::new());
    let p = params(processed_with_name_id_policy(
        Some(constants::NAMEID_TRANSIENT),
        Some("https://requester.example.org"),
        true,
    ));
    let outcome =
        create_authn_response(&mut passing(&mut parts), &p, &subject_with(vec![])).unwrap();
    // The policy's explicit SPNameQualifier wins over the SP entity ID
    // the request actually came from.
    assert_eq!(
        issued_of(outcome).name_id.sp_name_qualifier.as_deref(),
        Some("https://requester.example.org")
    );
}

#[test]
fn another_entitys_persistent_name_id_is_refused() {
    let mut parts = parts(ReleasePolicy::new());
    let p = params(processed_with_name_id_policy(
        Some(constants::NAMEID_PERSISTENT),
        Some("https://other.example.org"),
        true,
    ));
    let outcome =
        create_authn_response(&mut passing(&mut parts), &p, &subject_with(vec![])).unwrap();
    assert_eq!(denied_as(outcome), Denial::InvalidNameIdPolicy);
    assert!(parts.idents.name_ids_for("alice").is_empty());
    // its own, named outright, is not
    let p = params(processed_with_name_id_policy(
        Some(constants::NAMEID_PERSISTENT),
        Some(SP),
        true,
    ));
    let outcome =
        create_authn_response(&mut passing(&mut parts), &p, &subject_with(vec![])).unwrap();
    assert_eq!(
        issued_of(outcome).name_id.sp_name_qualifier.as_deref(),
        Some(SP)
    );
}

#[test]
fn only_a_transient_name_id_may_be_qualified_by_another_entity() {
    for format in [
        Some(constants::NAMEID_EMAIL),
        Some("urn:oasis:names:tc:SAML:1.1:nameid-format:unspecified"),
    ] {
        let mut parts = parts(ReleasePolicy::new());
        let p = params(processed_with_name_id_policy(
            format,
            Some("https://other.example.org"),
            true,
        ));
        let outcome = create_authn_response_at(
            &mut filtering(&mut parts),
            &p,
            &subject_with(vec![]),
            Instant::from_timestamp(1_431_648_000, 0),
            "_r",
            "_a",
        )
        .unwrap();
        assert_eq!(denied_as(outcome), Denial::InvalidNameIdPolicy);
        assert!(parts.idents.name_ids_for("alice").is_empty());
        assert!(parts.assertions.get("_a").is_none());
    }
}

#[test]
fn a_request_that_is_refused_early_leaves_no_trace() {
    // nothing to release
    let mut parts = parts(ReleasePolicy::new());
    let mut p = params(processed_with_name_id_policy(
        Some(constants::NAMEID_PERSISTENT),
        None,
        true,
    ));
    p.sp_sso = sp_sso_requiring(mail_attribute());
    let outcome = create_authn_response_at(
        &mut filtering(&mut parts),
        &p,
        &subject_with(vec![]),
        Instant::from_timestamp(1_431_648_000, 0),
        "_r",
        "_a",
    )
    .unwrap();
    assert_eq!(denied_as(outcome), Denial::MissingRequiredAttributes);
    assert!(parts.idents.name_ids_for("alice").is_empty());
    assert!(parts.assertions.get("_a").is_none());

    // the same request with what is required gets its NameID, and only that one
    let subject = subject_with(vec![mail_attribute()]);
    let issued =
        issued_of(create_authn_response(&mut passing(&mut parts), &p, &subject).unwrap());
    let listed = parts.idents.name_ids_for("alice");
    assert_eq!(listed.len(), 1);
    assert_eq!(listed[0].value, issued.name_id.value);
}

#[test]
fn persistent_format_disallowed_create_denies_creation() {
    let mut parts = parts(ReleasePolicy::new());
    let p = params(processed_with_name_id_policy(
        Some(constants::NAMEID_PERSISTENT),
        None,
        false,
    ));
    let outcome =
        create_authn_response(&mut passing(&mut parts), &p, &subject_with(vec![])).unwrap();
    assert_eq!(denied_as(outcome), Denial::NameIdCreationNotAllowed);
}

// ── A proxy ─────────────────────────────────────────────────────────────────

#[test]
fn proxy_shape_produces_compliant_response_without_release_policy_filter() {
    let mut parts = parts(ReleasePolicy::new());
    let p = params(processed(false, false, vec![], None));
    let mut subject = subject_with(vec![mail_attribute()]);
    subject.authn_method = AuthnMethodRef::Inline {
        class_ref: PASSWORD.to_string(),
        authn_authority: Some("https://upstream.example.org/idp".to_string()),
    };
    let outcome = create_authn_response(&mut passing(&mut parts), &p, &subject).unwrap();
    let issued = issued_of(outcome);
    // The pass-through attribute survived untouched.
    assert_eq!(issued.released_attribute_names.len(), 1);
    assert!(issued
        .xml
        .contains("<saml:AuthenticatingAuthority>https://upstream.example.org/idp</saml:AuthenticatingAuthority>"));
}

// ── Hostile requests ────────────────────────────────────────────────────────

#[test]
fn unknown_attribute_consuming_service_index_is_denied() {
    let mut parts = parts(ReleasePolicy::new());
    let mut p = params(processed(false, false, vec![], None));
    p.processed.attribute_consuming_service_index = Some(99); // not configured
    let mut any = mail_attribute();
    any.values = vec![];
    p.sp_sso = sp_sso_requiring(any);
    let outcome = create_authn_response(
        &mut filtering(&mut parts),
        &p,
        &subject_with(vec![mail_attribute()]),
    )
    .expect("no config fault");
    assert_eq!(
        denied_as(outcome),
        Denial::InvalidAttributeConsumingServiceIndex
    );
}

#[test]
fn sp_name_qualifier_injection_is_escaped_not_executed() {
    const PAYLOAD: &str = "evil\"><saml:Evil xmlns:saml=\"x\"/>";
    let mut parts = parts(ReleasePolicy::new());
    let mut request = processed(false, false, vec![], None);
    request.sp_entity_id = PAYLOAD.to_string();
    request.has_name_id_policy = true;
    request.requested_name_id_format = Some(constants::NAMEID_TRANSIENT.to_string());
    request.requested_sp_name_qualifier = Some(PAYLOAD.to_string());
    let p = params(request);
    let outcome = create_authn_response(&mut filtering(&mut parts), &p, &subject_with(vec![]))
        .expect("no config fault");
    let issued = issued_of(outcome);
    assert!(
        !issued.xml.contains("\"><saml:Evil"),
        "unescaped SPNameQualifier markup leaked into the signed response"
    );
    assert!(!issued.xml.contains("<saml:Evil"));
    // The qualifier is there as inert data.
    assert_eq!(issued.name_id.sp_name_qualifier.as_deref(), Some(PAYLOAD));
    assert!(issued.xml.contains(
        "SPNameQualifier=\"evil&quot;&gt;&lt;saml:Evil xmlns:saml=&quot;x&quot;/&gt;\""
    ));
}

#[test]
fn denial_status_message_never_echoes_sp_supplied_class_ref() {
    const EVIL_CLASS_REF: &str = "urn:evil\"><saml:Injected xmlns:saml=\"x\"/><x Name=\"";
    let mut parts = parts(ReleasePolicy::new());
    let p = params(processed(
        false,
        false,
        vec![EVIL_CLASS_REF],
        Some(AuthnContextComparison::Exact),
    ));
    let engine = filtering(&mut parts);
    let denial = denial_of(check_request(&engine, &p, None));
    assert_eq!(denial, Denial::NoAuthnContext);
    let issued = create_denial_response(&engine, &p, &denial)
        .expect("denials always sign successfully with a real key");
    assert!(!issued.xml.contains("urn:evil"));
    assert!(!issued.xml.contains("Injected"));
    assert!(issued
        .xml
        .contains("The requested authentication context is unavailable"));
}

// ── Whole responses ─────────────────────────────────────────────────────────

#[test]
fn an_issued_response_carries_what_a_service_provider_checks() {
    let mut parts = parts(ReleasePolicy::with_default(PolicyEntry::new().with_sign(
        SignTargets {
            response: true,
            assertion: true,
            on_demand: false,
        },
    )));
    let mut request = processed(false, false, vec![], None);
    request.request_id = "_req_roundtrip_1".to_string();
    let p = params(request);
    let mut subject = subject_with(vec![]);
    subject.authn_method = AuthnMethodRef::Inline {
        class_ref: PPT.to_string(),
        authn_authority: Some("https://upstream.example.org/idp".to_string()),
    };
    subject.session_index = Some("_sess1".to_string());
    let outcome =
        create_authn_response(&mut filtering(&mut parts), &p, &subject).expect("no config fault");
    let issued = issued_of(outcome);
    let xml = &issued.xml;
    assert!(xml.contains("<saml:AuthenticatingAuthority>https://upstream.example.org/idp</saml:AuthenticatingAuthority>"));
    // both signatures, each after the Issuer of what it covers
    assert_eq!(xml.matches(FILLED).count(), 2, "expected response + assertion signatures");
    let assertion_id = issued.assertion_id.clone().unwrap();
    for id in [&issued.response_id, &assertion_id] {
        let at = xml.find(&format!(" ID=\"{id}\"")).unwrap();
        let end = "</saml:Issuer>";
        let issuer_end = at + xml[at..].find(end).unwrap() + end.len();
        assert!(xml[issuer_end..].starts_with("<ds:Signature "));
        let reference = format!("<ds:Reference URI=\"#{id}\">");
        let next = xml[issuer_end..].find("<ds:Reference").unwrap();
        assert!(xml[issuer_end + next..].starts_with(&reference));
    }
    assert_eq!(xml.matches("InResponseTo=\"_req_roundtrip_1\"").count(), 2);
    assert!(xml.contains("SessionIndex=\"_sess1\""));
    assert!(xml.contains(&format!("<saml:Audience>{SP}</saml:Audience>")));
    assert!(xml.contains(&format!("Recipient=\"{ACS}\"")));
    assert!(xml.contains(&format!("Destination=\"{ACS}\"")));
    assert!(xml.contains(&format!(">{}</saml:NameID>", issued.name_id.value)));
    assert!(xml.contains(&format!(
        "SessionNotOnOrAfter=\"{}\"",
        issued.not_on_or_after.to_text()
    )));
    // and it was kept for the back channel
    let kept = parts.assertions.get(&assertion_id).unwrap();
    assert_eq!(kept.name_id, issued.name_id);
}

#[test]
fn refeds_entity_category_release_survives_full_assembly() {
    let mut parts = parts(ReleasePolicy::with_default(
        PolicyEntry::new().with_entity_categories(vec![refeds()]),
    ));
    let mut p = params(processed(false, false, vec![], None));
    p.sp_entity = Some(entity(
        "http://macedir.org/entity-category",
        "http://refeds.org/category/research-and-scholarship",
    ));
    assert_eq!(
        p.sp_entity_categories(),
        vec![REFEDS_RESEARCH_AND_SCHOLARSHIP.to_string()]
    );
    let outcome = create_authn_response(
        &mut filtering(&mut parts),
        &p,
        &subject_with(vec![mail_attribute(), cn_attribute()]),
    )
    .expect("no config fault");
    let issued = issued_of(outcome);
    assert_eq!(
        issued.released_attribute_names,
        vec!["urn:oid:0.9.2342.19200300.100.1.3".to_string()]
    );
    assert!(issued.xml.contains("alice@example.org"));
    assert!(!issued.xml.contains("Alice Example"));
}

#[test]
fn a_reused_session_ends_when_it_would_have() {
    let mut parts = parts(ReleasePolicy::with_default(
        PolicyEntry::new()
            .with_lifetime(TimeDelta::seconds(300))
            .with_session_lifetime(TimeDelta::seconds(28_800)),
    ));
    let p = params(processed(false, false, vec![], None));
    let mut subject = subject_with(vec![]);
    subject.authn_instant = Some(Instant::from_timestamp(1_000_000_000, 0));
    let outcome = create_authn_response_at(
        &mut passing(&mut parts),
        &p,
        &subject,
        Instant::from_timestamp(1_000_000_100, 500_000_000),
        "_r",
        "_a",
    )
    .unwrap();
    let xml = issued_of(outcome).xml;
    assert!(xml.contains("IssueInstant=\"2001-09-09T01:48:20Z\""));
    assert!(xml.contains("AuthnInstant=\"2001-09-09T01:46:40Z\""));
    assert!(xml.contains("SessionNotOnOrAfter=\"2001-09-09T09:46:40Z\""));
    assert!(xml.contains("NotOnOrAfter=\"2001-09-09T01:53:20Z\""));
}

#[test]
fn a_moment_out_of_range_is_a_fault() {
    let mut parts = parts(ReleasePolicy::with_default(
        PolicyEntry::new().with_lifetime(TimeDelta::seconds(i64::MAX)),
    ));
    let p = params(processed(false, false, vec![], None));
    let error =
        create_authn_response(&mut passing(&mut parts), &p, &subject_with(vec![])).unwrap_err();
    assert_eq!(error.message(), "a moment of the response is out of range");
}

#[test]
fn a_whole_response_reads_as_expected() {
    let mut parts = parts(ReleasePolicy::new());
    let p = params(processed(
        false,
        false,
        vec![X509],
        Some(AuthnContextComparison::Exact),
    ));
    let outcome = create_authn_response_at(
        &mut passing(&mut parts),
        &p,
        &subject_with(vec![]),
        Instant::from_timestamp(0, 0),
        "_r1",
        "_a1",
    )
    .unwrap();
    let response = match outcome {
        ResponseOutcome::Denied { response, .. } => response,
        other => panic!("expected Denied, got {other:?}"),
    };
    let start = "<samlp:Response xmlns:samlp=\"urn:oasis:names:tc:SAML:2.0:protocol\" \
                 xmlns:saml=\"urn:oasis:names:tc:SAML:2.0:assertion\" ID=\"_r1\" Version=\"2.0\" \
                 IssueInstant=\"1970-01-01T00:00:00Z\" Destination=\"https://sp.example.org/acs\" \
                 InResponseTo=\"_req1\"><saml:Issuer>https://idp.example.org/metadata\
                 </saml:Issuer><ds:Signature ";
    assert!(response.xml.starts_with(start), "{}", response.xml);
    let end = "<samlp:Status><samlp:StatusCode \
               Value=\"urn:oasis:names:tc:SAML:2.0:status:Responder\"><samlp:StatusCode \
               Value=\"urn:oasis:names:tc:SAML:2.0:status:NoAuthnContext\"></samlp:StatusCode>\
               </samlp:StatusCode><samlp:StatusMessage>The requested authentication context is \
               unavailable</samlp:StatusMessage></samlp:Status></samlp:Response>";
    assert!(response.xml.ends_with(end), "{}", response.xml);
}

#[test]
fn identifiers_are_fresh() {
    let mut parts = parts(ReleasePolicy::new());
    let p = params(processed(false, false, vec![], None));
    let engine = filtering(&mut parts);
    let a = create_denial_response(&engine, &p, &Denial::NoPassive).unwrap();
    let b = create_denial_response(&engine, &p, &Denial::NoPassive).unwrap();
    assert_ne!(a.response_id, b.response_id);
    assert_eq!(a.response_id.len(), 65);
    assert!(a.response_id.starts_with('_'));
    let mut store = InMemoryIdentityStore::default();
    store.set("k", "v".to_string());
    assert_eq!(store.get("k").as_deref(), Some("v"));
}
