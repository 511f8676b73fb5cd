//! The endpoints as flows.

use gamlastan::idp::orchestrator::{Denial, Disposition, IssuedResponse};
use gamlastan::saml::error::ProfileError;
use gamlastan::saml::metadata::{EntityDescriptor, SpSsoDescriptor};
use gamlastan::saml::name_id::NameId;
use gamlastan::saml::request::ProcessedAuthnRequest;
use gamlastan::saml::time::Instant;
use gamlastan::web::artifact::{ArtifactLookup, ArtifactResolve};
use gamlastan::web::artifact_flow::{ArtifactAction, ArtifactEvent, ArtifactFlow};
use gamlastan::web::config::IdpConfig;
use gamlastan::web::error::SamlActixError;
use gamlastan::web::logout::{LogoutRequest, NameIdOrEncryptedId, SessionParticipant};
use gamlastan::web::signature::{RedirectSignature, VerifyResult, XmlSignatures};
use gamlastan::web::slo_flow::{SloAction, SloEvent, SloFlow};
use gamlastan::web::sso::{AuthnCallbackResult, AuthnSubjectResult, SsoNext, SsoReply};
use gamlastan::web::sso_flow::{AuthnRequestFacts, SsoAction, SsoEvent, SsoFlow, SsoSetup};

const SP: &str = "https://sp.example.com";
const ACS: &str = "https://sp.example.com/acs";

fn config() -> IdpConfig {
    IdpConfig::new("https://idp.example.com", "https://idp.example.com/sso")
}

fn role() -> SpSsoDescriptor {
    SpSsoDescriptor {
        protocols: vec!["urn:oasis:names:tc:SAML:2.0:protocol".to_string()],
        authn_requests_signed: None,
        want_assertions_signed: Some(true),
        attribute_consuming_services: vec![],
        signing_certs: vec!["MIIC".to_string()],
    }
}

fn name_id(value: &str) -> NameId {
    NameId {
        value: value.to_string(),
        format: None,
        name_qualifier: None,
        sp_name_qualifier: None,
        sp_provided_id: None,
    }
}

fn logout() -> LogoutRequest {
    LogoutRequest {
        id: "_lr".to_string(),
        destination: None,
        issuer: Some(SP.to_string()),
        has_signature: false,
        name_id: NameIdOrEncryptedId::NameId(name_id("alice")),
        session_indexes: vec!["_s1".to_string()],
    }
}

fn participant(entity_id: &str) -> SessionParticipant {
    SessionParticipant {
        entity_id: entity_id.to_string(),
        name_id: name_id("a"),
        session_index: None,
    }
}

fn slo(flow: SloFlow, event: SloEvent) -> (SloFlow, SloAction) {
    flow.step(event, &config(), Instant::from_timestamp(0, 0))
}

fn established(redirect: Option<RedirectSignature>) -> SloEvent {
    SloEvent::Established {
        sp: Some(role()),
        redirect,
        xml: XmlSignatures::Checked(vec![]),
    }
}

#[test]
fn a_logout_goes_through_every_check_before_sessions_are_taken() {
    let (flow, action) = slo(SloFlow::Name, SloEvent::Named("LogoutRequest".to_string()));
    assert!(matches!(action, SloAction::Parse));
    let (flow, action) = slo(flow, SloEvent::Parsed(logout()));
    assert!(matches!(action, SloAction::Establish { issuer: Some(i) } if i == SP));
    let (flow, action) = slo(flow, established(Some(RedirectSignature::Checked(true))));
    assert!(matches!(action, SloAction::Validate { requester, authenticated: true } if requester == SP));
    let (flow, action) = slo(flow, SloEvent::Validated(Ok(())));
    match action {
        SloAction::Take {
            requester,
            name_id,
            session_indexes,
        } => {
            assert_eq!(requester, SP);
            assert_eq!(name_id.value, "alice");
            assert_eq!(session_indexes, vec!["_s1".to_string()]);
        }
        other => panic!("expected Take, got {other:?}"),
    }
    let sessions = vec![
        vec![participant("a"), participant(SP)],
        vec![participant("b")],
    ];
    let (flow, action) = slo(flow, SloEvent::Taken(Ok(sessions)));
    assert!(matches!(flow, SloFlow::Over));
    match action {
        SloAction::Reply { requests, page } => {
            let to: Vec<&str> = requests.iter().map(|r| r.entity_id.as_str()).collect();
            assert_eq!(to, vec!["a", "b"]);
            assert!(page.starts_with("<html><body><p>Logout completed</p><!-- "));
        }
        other => panic!("expected Reply, got {other:?}"),
    }
}

fn failed(action: SloAction) -> SamlActixError {
    match action {
        SloAction::Fail(e) => e,
        other => panic!("expected Fail, got {other:?}"),
    }
}

#[test]
fn a_logout_that_fails_a_check_is_over() {
    let trust = || SloFlow::Trust { request: logout() };
    let (flow, action) = slo(trust(), established(None));
    assert!(matches!(flow, SloFlow::Over));
    assert_eq!(failed(action).status_code(), 403);

    let validation = || SloFlow::Validation { request: logout() };
    let stale = ProfileError::Other("stale".to_string());
    let (flow, action) = slo(validation(), SloEvent::Validated(Err(stale)));
    assert!(matches!(flow, SloFlow::Over));
    assert_eq!(failed(action).message(), "stale");

    let sessions = SloFlow::Sessions { request: logout() };
    let (_, action) = slo(sessions, SloEvent::Taken(Err("down".to_string())));
    assert_eq!(
        failed(action),
        SamlActixError::Internal(
            "atomic participant-bound session removal failed: down".to_string()
        )
    );

    // an event that is not waited for
    let (flow, action) = slo(SloFlow::Name, SloEvent::Validated(Ok(())));
    assert!(matches!(flow, SloFlow::Over));
    assert_eq!(failed(action).message(), "unexpected event");
    let (_, action) = slo(trust(), SloEvent::Validated(Ok(())));
    assert_eq!(failed(action).message(), "unexpected event");
}

#[test]
fn other_messages_to_the_logout_endpoint() {
    let (flow, action) = slo(SloFlow::Name, SloEvent::Named("LogoutResponse".to_string()));
    assert!(matches!(flow, SloFlow::Over));
    assert!(
        matches!(action, SloAction::Acknowledge { text } if text == "Logout propagation acknowledged")
    );
    let (_, action) = slo(SloFlow::Name, SloEvent::Named("Response".to_string()));
    assert_eq!(failed(action).status_code(), 400);
}

#[test]
fn an_artifact_is_looked_up_for_its_authenticated_owner() {
    let resolve = || ArtifactResolve {
        id: "_ar".to_string(),
        issuer: Some(SP.to_string()),
        artifact: "AAQ".to_string(),
    };
    let now = Instant::from_timestamp(0, 0);
    let (flow, action) = ArtifactFlow::Request.step(ArtifactEvent::Parsed(resolve()), &config(), now);
    assert!(matches!(action, ArtifactAction::Establish { issuer: Some(i) } if i == SP));
    let signed = ArtifactEvent::Established {
        sp: Some(role()),
        xml: XmlSignatures::Checked(vec![VerifyResult::Valid {
            references: vec!["#_ar".to_string()],
        }]),
    };
    let (flow, action) = flow.step(signed, &config(), now);
    assert!(
        matches!(action, ArtifactAction::LookUp { artifact, requester } if artifact == "AAQ" && requester == SP)
    );
    let found = ArtifactEvent::LookedUp(ArtifactLookup::Found("<m/>".to_string()));
    let (flow, action) = flow.step(found, &config(), now);
    assert!(matches!(flow, ArtifactFlow::Over));
    assert!(
        matches!(action, ArtifactAction::Reply { soap } if soap.contains("<m/></samlp:ArtifactResponse></soap:Body>"))
    );

    let trust = ArtifactFlow::Trust { resolve: resolve() };
    let unsigned = ArtifactEvent::Established {
        sp: Some(role()),
        xml: XmlSignatures::Checked(vec![]),
    };
    let (flow, action) = trust.step(unsigned, &config(), now);
    assert!(matches!(flow, ArtifactFlow::Over));
    assert!(matches!(action, ArtifactAction::Fail(e) if e.status_code() == 403));
}

fn processed() -> ProcessedAuthnRequest {
    ProcessedAuthnRequest {
        request_id: "_req".to_string(),
        sp_entity_id: SP.to_string(),
        acs_url: ACS.to_string(),
        acs_binding: "urn:oasis:names:tc:SAML:2.0:bindings:HTTP-POST".to_string(),
        force_authn: false,
        is_passive: false,
        requested_name_id_format: None,
        requested_sp_name_qualifier: None,
        allow_create: false,
        has_name_id_policy: false,
        requested_authn_context_class_refs: vec![],
        authn_context_comparison: None,
        attribute_consuming_service_index: None,
        extensions: None,
    }
}

fn issued() -> IssuedResponse {
    IssuedResponse {
        xml: "<r/>".to_string(),
        response_id: "_r".to_string(),
        assertion_id: None,
        name_id: name_id(""),
        session_index: None,
        not_on_or_after: Instant::from_timestamp(0, 0),
        released_attribute_names: vec![],
    }
}

const ENGINE: SsoSetup = SsoSetup {
    subject_callback: true,
    engine: true,
    callback: true,
};

const CALLBACK: SsoSetup = SsoSetup {
    subject_callback: false,
    engine: true,
    callback: true,
};

fn facts() -> AuthnRequestFacts {
    AuthnRequestFacts {
        id: "_req".to_string(),
        issuer: Some(SP.to_string()),
        has_signature: false,
    }
}

fn trusted() -> SsoEvent<&'static str> {
    SsoEvent::Established {
        entity: Some(EntityDescriptor::for_sp(SP, role())),
        redirect: None,
        xml: XmlSignatures::NoKey,
    }
}

/// Up to where the application is asked.
fn up_to_decision(setup: SsoSetup) -> (SsoFlow, SsoAction<&'static str>) {
    let (flow, action) = SsoFlow::Request.step(SsoEvent::<&str>::Parsed(facts()), setup, None);
    assert!(matches!(action, SsoAction::Establish { issuer: Some(i) } if i == SP));
    let (flow, action) = flow.step(trusted(), setup, None);
    assert!(matches!(action, SsoAction::Process { verified: false }));
    flow.step(SsoEvent::Processed(Ok(processed())), setup, None)
}

#[test]
fn the_engine_decides_before_the_application_is_asked() {
    let (flow, action) = up_to_decision(ENGINE);
    match action {
        SsoAction::Decide { params } => {
            assert_eq!(params.processed.request_id, "_req");
            assert_eq!(params.sp_sso.signing_certs, vec!["MIIC".to_string()]);
            assert_eq!(params.sp_entity.unwrap().entity_id, SP);
        }
        other => panic!("expected Decide, got {other:?}"),
    }
    let ask = SsoNext::Ask(Disposition::Authenticate { methods: vec![] });
    let (flow, action) = flow.step(SsoEvent::<&str>::Decided(Ok(ask)), ENGINE, None);
    assert!(matches!(action, SsoAction::Ask { .. }));
    let reported = AuthnSubjectResult::Deny(Denial::NoAuthnContext);
    let (flow, action) = flow.step(SsoEvent::<&str>::Reported(Ok(reported)), ENGINE, None);
    assert!(matches!(action, SsoAction::Answer { .. }));
    let answered = SsoEvent::<&str>::Answered(Ok(SsoReply::Deliver(issued())));
    let (flow, action) = flow.step(answered, ENGINE, Some("relay"));
    assert!(matches!(flow, SsoFlow::Over));
    match action {
        SsoAction::Post { page } => {
            assert!(page.contains(ACS));
            assert!(page.contains("value=\"PHIvPg==\""));
            assert!(page.contains("value=\"relay\""));
        }
        other => panic!("expected Post, got {other:?}"),
    }
}

#[test]
fn a_refusal_of_the_engine_is_delivered_without_asking() {
    let (flow, _) = up_to_decision(ENGINE);
    let (flow, action) = flow.step(SsoEvent::<&str>::Decided(Ok(SsoNext::Deliver(issued()))), ENGINE, None);
    assert!(matches!(flow, SsoFlow::Over));
    assert!(matches!(action, SsoAction::Post { .. }));
}

#[test]
fn the_application_may_decide_itself() {
    let (flow, action) = up_to_decision(CALLBACK);
    assert!(matches!(action, SsoAction::AskCallback));
    let reported = AuthnCallbackResult {
        name_id: name_id("n"),
        attributes: vec![],
        authn_context_class_ref: None,
        session_index: None,
        authn_instant: None,
    };
    let (flow, action) = flow.step(SsoEvent::<&str>::CallbackReported(Ok(reported)), CALLBACK, None);
    assert!(
        matches!(action, SsoAction::AnswerCallback { processed, .. } if processed.request_id == "_req")
    );
    let (_, action) = flow.step(SsoEvent::<&str>::CallbackAnswered(Ok("<r/>".to_string())), CALLBACK, None);
    assert!(matches!(action, SsoAction::Post { page } if page.contains("PHIvPg==")));
    let nothing = SsoSetup {
        subject_callback: false,
        engine: false,
        callback: false,
    };
    let (_, action) = up_to_decision(nothing);
    assert!(matches!(action, SsoAction::Fail(SamlActixError::Configuration(_))));
}

#[test]
fn a_request_of_a_stranger_gets_no_further() {
    let trust = SsoFlow::Trust { request: facts() };
    let unknown: SsoEvent<&str> = SsoEvent::Established {
        entity: None,
        redirect: None,
        xml: XmlSignatures::NoKey,
    };
    let (flow, action) = trust.step(unknown, ENGINE, None);
    assert!(matches!(flow, SsoFlow::Over));
    assert!(matches!(action, SsoAction::Fail(e) if e.status_code() == 403));
    // nor does one that skips a step
    let early = SsoEvent::<&str>::Decided(Ok(SsoNext::Deliver(issued())));
    let (_, action) = SsoFlow::Request.step(early, ENGINE, None);
    assert!(matches!(action, SsoAction::Fail(SamlActixError::Internal(_))));
}
