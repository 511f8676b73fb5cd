//! The endpoints' decisions.

use gamlastan::idp::assertion_store::InMemoryAssertionStore;
use gamlastan::idp::authn_broker::AuthnBroker;
use gamlastan::idp::entity_category::refeds;
use gamlastan::idp::ident::{IdentDb, IdentityStore, NameIdConstructor};
use gamlastan::idp::orchestrator::{
    AttributeRelease, AuthenticatedSubject, AuthnMethodRef, Denial, Disposition, IssuedResponse,
    PassThroughRelease, ResponseParams,
};
use gamlastan::idp::policy::{PolicyEntry, ReleasePolicy};
use gamlastan::saml::attribute::{Attribute, AttributeValue};
use gamlastan::saml::constants;
use gamlastan::saml::error::ProfileError;
use gamlastan::saml::metadata::{EntityAttribute, EntityDescriptor, SpSsoDescriptor};
use gamlastan::saml::name_id::NameId;
use gamlastan::saml::request::ProcessedAuthnRequest;
use gamlastan::saml::signing::{signature_template, SamlSigner};
use gamlastan::saml::time::Instant;
use gamlastan::web::artifact::{
    artifact_answer, authorize_artifact_resolve, ArtifactLookup, ArtifactResolve,
};
use gamlastan::web::config::{resolve_trusted_sp, resolve_trusted_sp_entity, IdpConfig};
use gamlastan::web::error::{refuse_naming, SamlActixError};
use gamlastan::web::logout::{
    admit_logout, authorize_slo_request, propagation_targets, ready_idp_logout_name_id, slo_message,
    LogoutRequest, NameIdOrEncryptedId, SessionParticipant, SloMessage,
};
use gamlastan::web::metadata::idp_metadata;
use gamlastan::web::parts::ResponseEngineParts;
use gamlastan::web::post::post_issued_response;
use gamlastan::web::signature::{RedirectSignature, VerifyResult, XmlSignatures};
use gamlastan::web::signing::{
    insert_signature_after_element, metadata_signing_cert_b64, IdpSigningContext,
};
use gamlastan::web::sso::{
    admit_request, after_authentication, before_authentication, callback_response, choose_path,
    AuthnCallbackResult, AuthnSubjectResult, SsoNext, SsoPath, SsoReply,
};
use base64::Engine;
use std::collections::HashMap;
use std::sync::Arc;

const SP: &str = "https://sp.example.com";
const ACS: &str = "https://sp.example.com/acs";
const RSA_SHA256: &str = "http://www.w3.org/2001/04/xmldsig-more#rsa-sha256";
const EMPTY: &str = "<ds:SignatureValue></ds:SignatureValue>";
const FILLED: &str = "<ds:SignatureValue>c2lnbmVk</ds:SignatureValue>";

type Sign = fn(&str) -> Result<String, String>;

/// Fill in the empty signature.
fn fill(xml: &str) -> Result<String, String> {
    Ok(xml.replace(EMPTY, FILLED))
}

fn test_signer() -> SamlSigner<Sign> {
    SamlSigner::new(fill as Sign, RSA_SHA256)
}

fn no_context() -> Option<&'static IdpSigningContext<Sign>> {
    None
}

fn config() -> IdpConfig {
    IdpConfig::new("https://idp.example.com", "https://idp.example.com/sso")
}

fn empty_sp_sso() -> SpSsoDescriptor {
    SpSsoDescriptor {
        protocols: vec!["urn:oasis:names:tc:SAML:2.0:protocol".to_string()],
        authn_requests_signed: None,
        want_assertions_signed: Some(true),
        attribute_consuming_services: vec![],
        signing_certs: vec![],
    }
}

fn signing_sp_sso() -> SpSsoDescriptor {
    let mut sp = empty_sp_sso();
    sp.signing_certs.push("MIIC".to_string());
    sp
}

fn name_id(value: &str) -> NameId {
    NameId {
        value: value.to_string(),
        format: None,
        name_qualifier: None,
        sp_name_qualifier: None,
        sp_provided_id: None,
    }
}

fn logout_request(issuer: Option<&str>) -> LogoutRequest {
    LogoutRequest {
        id: "_lr_1".to_string(),
        destination: None,
        issuer: issuer.map(String::from),
        has_signature: false,
        name_id: NameIdOrEncryptedId::NameId(name_id("victim@example.com")),
        session_indexes: vec![],
    }
}

fn valid(reference: &str) -> VerifyResult {
    VerifyResult::Valid {
        references: vec![reference.to_string()],
    }
}

fn unsigned() -> XmlSignatures {
    XmlSignatures::Checked(vec![])
}

#[test]
fn encrypted_logout_name_id_is_rejected_without_session_store() {
    let mut request = logout_request(Some("https://sp.example.com"));
    assert_eq!(
        ready_idp_logout_name_id(&request).unwrap().value,
        "victim@example.com"
    );

    request.name_id = NameIdOrEncryptedId::EncryptedId("<saml:EncryptedID/>".to_string());
    assert!(matches!(
        ready_idp_logout_name_id(&request),
        Err(SamlActixError::Profile(_))
    ));
}

#[test]
fn slo_accepts_valid_redirect_only_signature() {
    let request = logout_request(Some("https://sp.example.com"));
    let sp = signing_sp_sso();
    let signature = RedirectSignature::Checked(true);

    let authorization =
        authorize_slo_request(&config(), &request, Some(&signature), &unsigned(), Some(&sp))
            .expect("a valid Redirect signature should authenticate the LogoutRequest");
    assert!(authorization.message_authenticated());
}

#[test]
fn slo_rejects_unsigned_or_invalid_redirect_signature() {
    let request = logout_request(Some("https://sp.example.com"));
    let sp = signing_sp_sso();

    let error =
        authorize_slo_request(&config(), &request, None, &unsigned(), Some(&sp)).unwrap_err();
    assert!(error.message().contains("must be signed"));

    let invalid = RedirectSignature::Checked(false);
    let error = authorize_slo_request(&config(), &request, Some(&invalid), &unsigned(), Some(&sp))
        .unwrap_err();
    assert!(error.message().contains("redirect signature"));
}

#[test]
fn slo_valid_redirect_cannot_mask_invalid_xml_signature() {
    let mut request = logout_request(Some("https://sp.example.com"));
    request.has_signature = true;
    let sp = signing_sp_sso();
    let signature = RedirectSignature::Checked(true);
    // an empty `<ds:Signature/>` cannot be verified at all
    let xml = XmlSignatures::Failed("missing SignedInfo".to_string());

    let error =
        authorize_slo_request(&config(), &request, Some(&signature), &xml, Some(&sp)).unwrap_err();
    assert!(error.message().contains("signature"));
}

#[test]
fn slo_valid_first_xml_signature_cannot_mask_invalid_second_signature() {
    let mut request = logout_request(Some("https://sp.example.com"));
    request.has_signature = true;
    let sp = signing_sp_sso();
    let redirect = RedirectSignature::Checked(true);
    let xml = XmlSignatures::Checked(vec![
        valid("#_lr_1"),
        VerifyResult::Invalid {
            reason: "digest mismatch".to_string(),
        },
    ]);
    let error =
        authorize_slo_request(&config(), &request, Some(&redirect), &xml, Some(&sp)).unwrap_err();
    assert!(error.message().contains("signature invalid"));

    // the first alone would have done
    let xml = XmlSignatures::Checked(vec![valid("#_lr_1")]);
    assert!(authorize_slo_request(&config(), &request, None, &xml, Some(&sp)).is_ok());
}

#[test]
fn slo_signature_has_to_cover_the_message() {
    let mut request = logout_request(Some("https://sp.example.com"));
    request.has_signature = true;
    let sp = signing_sp_sso();
    let wrapped = XmlSignatures::Checked(vec![valid("#_other")]);
    let error = authorize_slo_request(&config(), &request, None, &wrapped, Some(&sp)).unwrap_err();
    assert_eq!(
        error.message(),
        "LogoutRequest signature did not reference the message (XML Signature Wrapping)"
    );
    let whole = XmlSignatures::Checked(vec![valid("")]);
    assert!(authorize_slo_request(&config(), &request, None, &whole, Some(&sp)).is_ok());
    let error =
        authorize_slo_request(&config(), &request, None, &XmlSignatures::NoKey, Some(&sp))
            .unwrap_err();
    assert_eq!(
        error.message(),
        "LogoutRequest issuer has no usable signing certificate in its metadata; refusing unauthenticated request"
    );
    let error =
        authorize_slo_request(&config(), &request, None, &unsigned(), Some(&sp)).unwrap_err();
    assert_eq!(error.message(), "LogoutRequest contains no XML signature");
    let failed = RedirectSignature::Failed("bad key".to_string());
    let error = authorize_slo_request(&config(), &request, Some(&failed), &whole, Some(&sp))
        .unwrap_err();
    assert_eq!(
        error.message(),
        "LogoutRequest redirect signature verification failed: bad key"
    );
    let no_key = RedirectSignature::NoKey;
    assert!(authorize_slo_request(&config(), &request, Some(&no_key), &whole, Some(&sp)).is_err());
}

#[test]
fn slo_for_another_endpoint_is_refused() {
    let config = config().with_slo_url("https://idp.example.com/slo");
    let mut request = logout_request(Some(SP));
    let sp = signing_sp_sso();
    let signature = RedirectSignature::Checked(true);
    request.destination = Some("https://other.example.com/slo".to_string());
    let error =
        authorize_slo_request(&config, &request, Some(&signature), &unsigned(), Some(&sp))
            .unwrap_err();
    assert!(error.message().contains("does not match this IdP's SLO endpoint"));
    request.destination = Some("https://idp.example.com/slo".to_string());
    assert!(
        authorize_slo_request(&config, &request, Some(&signature), &unsigned(), Some(&sp)).is_ok()
    );
}

#[test]
fn test_slo_rejected_when_no_trusted_sps() {
    // The SLO handler must fail closed when no trusted SP is configured: an
    // unsigned or issuerless LogoutRequest must not destroy sessions.
    let req = logout_request(Some("https://sp.example.com"));
    assert!(authorize_slo_request(&config(), &req, None, &unsigned(), None).is_err());

    let req_no_issuer = logout_request(None);
    assert!(authorize_slo_request(&config(), &req_no_issuer, None, &unsigned(), None).is_err());
}

#[test]
fn test_slo_rejected_for_untrusted_issuer() {
    // An issuer that is not a configured trusted SP resolves to no metadata.
    let sp = EntityDescriptor::for_sp("https://good-sp.example.com", empty_sp_sso());
    let config = config().with_trusted_sp(sp);
    let req = logout_request(Some("https://evil-sp.example.com"));
    assert!(resolve_trusted_sp(&config, "https://evil-sp.example.com", None).is_none());
    assert!(authorize_slo_request(&config, &req, None, &unsigned(), None).is_err());
}

fn artifact_resolve() -> ArtifactResolve {
    ArtifactResolve {
        id: "_ar_1".to_string(),
        issuer: Some("https://sp.example.com".to_string()),
        artifact: "AAQAAD...".to_string(),
    }
}

#[test]
fn test_authz_failures_map_to_forbidden_not_internal_error() {
    let slo_err = authorize_slo_request(
        &config(),
        &logout_request(Some("https://sp.example.com")),
        None,
        &unsigned(),
        None,
    )
    .unwrap_err();
    assert_eq!(slo_err.status_code(), 403);

    let slo_no_issuer_err =
        authorize_slo_request(&config(), &logout_request(None), None, &unsigned(), None)
            .unwrap_err();
    assert_eq!(slo_no_issuer_err.status_code(), 403);

    let ar_err = authorize_artifact_resolve(&artifact_resolve(), &unsigned(), None).unwrap_err();
    assert_eq!(ar_err.status_code(), 403);

    assert_eq!(SamlActixError::UnsupportedBinding(String::new()).status_code(), 400);
    assert_eq!(SamlActixError::Configuration(String::new()).status_code(), 500);
    assert_eq!(SamlActixError::Internal(String::new()).status_code(), 500);
}

#[test]
fn test_artifact_resolve_rejected_when_no_trusted_sps() {
    // Artifact resolution must fail closed without a way to authenticate the
    // requester.
    assert!(authorize_artifact_resolve(&artifact_resolve(), &unsigned(), None).is_err());
}

#[test]
fn artifact_resolution_needs_a_signature() {
    let sp = signing_sp_sso();
    let mut resolve = artifact_resolve();
    let signed = XmlSignatures::Checked(vec![valid("#_ar_1")]);
    assert!(authorize_artifact_resolve(&resolve, &signed, Some(&sp)).is_ok());
    let error = authorize_artifact_resolve(&resolve, &unsigned(), Some(&sp)).unwrap_err();
    assert_eq!(error.message(), "ArtifactResolve contains no XML signature");
    resolve.issuer = None;
    let error = authorize_artifact_resolve(&resolve, &signed, Some(&sp)).unwrap_err();
    assert_eq!(
        error.message(),
        "ArtifactResolve has no Issuer; refusing resolution"
    );
}

#[test]
fn artifacts_are_answered_once_or_refused() {
    assert_eq!(
        artifact_answer(ArtifactLookup::Found("<m/>".to_string())),
        Ok("<m/>".to_string())
    );
    assert_eq!(
        artifact_answer(ArtifactLookup::NotFound),
        Err("artifact not found or already consumed".to_string())
    );
    assert_eq!(
        artifact_answer(ArtifactLookup::Failed("down".to_string())),
        Err("artifact store error: down".to_string())
    );
    assert_eq!(
        artifact_answer(ArtifactLookup::NotConfigured),
        Err("artifact resolution not configured".to_string())
    );
}

#[test]
fn test_resolve_trusted_sp_uses_static_then_resolver() {
    let id = "https://mdq-sp.example.com";
    // No static SPs, no resolver: unknown issuer is unresolved.
    assert!(resolve_trusted_sp(&config(), id, None).is_none());

    // With a dynamic resolver, the SP is resolved dynamically.
    let fetched = EntityDescriptor::for_sp(id, empty_sp_sso());
    assert!(resolve_trusted_sp(&config(), id, Some(&fetched)).is_some());
    assert!(resolve_trusted_sp(&config(), "https://unknown.example.com", None).is_none());

    // What is registered comes first.
    let mut registered = EntityDescriptor::for_sp(id, empty_sp_sso());
    registered.sp_sso[0].authn_requests_signed = Some(true);
    let config = config().with_trusted_sp(registered);
    let role = resolve_trusted_sp(&config, id, Some(&fetched)).unwrap();
    assert_eq!(role.authn_requests_signed, Some(true));
}

#[test]
fn test_resolve_trusted_sp_entity_rejects_resolver_mismatch() {
    let fetched = EntityDescriptor::for_sp("https://other-entity.example.com", empty_sp_sso());
    assert!(
        resolve_trusted_sp_entity(
            &config(),
            "https://requested-entity.example.com",
            Some(&fetched)
        )
        .is_none(),
        "a resolver returning a mismatched entity_id must not be trusted"
    );
}

#[test]
fn test_trusted_sp_lookup() {
    let sp = EntityDescriptor::for_sp("https://sp.example.com", empty_sp_sso());
    let config = config().with_trusted_sp(sp);
    assert!(config.trusted_sp("https://sp.example.com").is_some());
    assert!(config.trusted_sp("https://other.example.com").is_none());
}

#[test]
fn test_authn_callback_result_debug() {
    let result = AuthnCallbackResult {
        name_id: name_id("user@example.com"),
        attributes: vec![],
        authn_context_class_ref: None,
        session_index: Some("_sess_123".to_string()),
        authn_instant: None,
    };
    assert!(format!("{result:?}").contains("user@example.com"));
}

#[test]
fn test_signature_template() {
    let sig = signature_template(
        "_abc123",
        "MIID...",
        "http://www.w3.org/2001/04/xmldsig-more#rsa-sha256",
    );
    assert!(sig.contains("URI=\"#_abc123\""));
    assert!(sig.contains("<ds:X509Certificate>MIID...</ds:X509Certificate>"));
    assert!(sig.contains("rsa-sha256"));
    assert!(sig.contains("exc-c14n"));
}

#[test]
fn test_insert_signature_after_element() {
    // First-child placement, as required for metadata (EntityDescriptor has no
    // Issuer).
    let xml = r#"<md:EntityDescriptor xmlns:md="urn:oasis:names:tc:SAML:2.0:metadata" entityID="https://idp.example.com"><md:IDPSSODescriptor/></md:EntityDescriptor>"#;
    let sig = "<SIGNATURE/>";
    let result = insert_signature_after_element(xml, "md:EntityDescriptor", sig).unwrap();
    assert!(
        result.contains(r#"entityID="https://idp.example.com"><SIGNATURE/><md:IDPSSODescriptor"#)
    );
}

#[test]
fn a_signature_needs_an_element_to_stand_in() {
    assert_eq!(
        insert_signature_after_element("<a><b/></a>", "a", "<S/>").unwrap(),
        "<a><S/><b/></a>"
    );
    assert!(insert_signature_after_element("<a/>", "c", "<S/>").is_err());
    assert_eq!(
        insert_signature_after_element("<a ", "a", "<S/>").unwrap_err().message(),
        "malformed <a> tag"
    );
}

#[test]
fn a_tag_does_not_end_within_an_attribute_value() {
    assert_eq!(
        insert_signature_after_element("<a x=\"1>2\"><b/></a>", "a", "<S/>").unwrap(),
        "<a x=\"1>2\"><S/><b/></a>"
    );
    assert_eq!(
        insert_signature_after_element("<a x='1>2' y=\"'>\"><b/></a>", "a", "<S/>").unwrap(),
        "<a x='1>2' y=\"'>\"><S/><b/></a>"
    );
    assert_eq!(
        insert_signature_after_element("<a x=\"1>2><b/></a>", "a", "<S/>")
            .unwrap_err()
            .message(),
        "malformed <a> tag"
    );
}

#[test]
fn what_a_refusal_names_is_quoted() {
    let name = "https://sp.example.com/\"\\\n";
    let shown = "\"https://sp.example.com/\\\"\\\\\\n\"";
    let error = admit_request(Some(name), None, None, &unsigned(), "_1", false).unwrap_err();
    assert!(error
        .message()
        .starts_with(&format!("AuthnRequest issuer {shown} is not a trusted SP; ")));

    let mut old = empty_sp_sso();
    old.protocols = vec![];
    let old = EntityDescriptor::for_sp(name, old);
    let error = admit_request(Some(name), Some(&old), None, &unsigned(), "_1", false).unwrap_err();
    assert_eq!(
        error.message(),
        format!("trusted entity {shown} has no SAML 2.0 SPSSODescriptor")
    );

    let error =
        authorize_slo_request(&config(), &logout_request(Some(name)), None, &unsigned(), None)
            .unwrap_err();
    assert_eq!(
        error.message(),
        format!("LogoutRequest issuer {shown} is not a trusted SP; refusing to destroy sessions")
    );

    let config = config().with_slo_url("https://idp.example.com/slo");
    let mut request = logout_request(Some(SP));
    request.destination = Some(name.to_string());
    let error = authorize_slo_request(
        &config,
        &request,
        Some(&RedirectSignature::Checked(true)),
        &unsigned(),
        Some(&signing_sp_sso()),
    )
    .unwrap_err();
    assert_eq!(
        error.message(),
        format!("LogoutRequest Destination {shown} does not match this IdP's SLO endpoint")
    );

    let mut resolve = artifact_resolve();
    resolve.issuer = Some(name.to_string());
    let error = authorize_artifact_resolve(&resolve, &unsigned(), None).unwrap_err();
    assert_eq!(
        error.message(),
        format!("ArtifactResolve issuer {shown} is not a trusted SP; refusing resolution")
    );

    assert_eq!(refuse_naming("a ", "\"b\"", " c").message(), "a \"b\" c");
}

#[test]
fn test_metadata_signing_cert_prefers_signing_context() {
    let config = config().with_signing_cert("CONFIG_CERT");
    let signing_ctx = IdpSigningContext::new(test_signer(), "CTX_CERT");

    assert_eq!(
        metadata_signing_cert_b64(&config, Some(&signing_ctx)),
        Some("CTX_CERT")
    );
}

#[test]
fn test_metadata_signing_cert_falls_back_to_config() {
    let config = config().with_signing_cert("CONFIG_CERT");

    assert_eq!(
        metadata_signing_cert_b64(&config, no_context()),
        Some("CONFIG_CERT")
    );
}

fn subject(attributes: Vec<Attribute>) -> AuthenticatedSubject {
    AuthenticatedSubject {
        subject_id: "alice".to_string(),
        attributes,
        authn_method: AuthnMethodRef::Inline {
            class_ref: "urn:oasis:names:tc:SAML:2.0:ac:classes:Password".to_string(),
            authn_authority: None,
        },
        authn_instant: None,
        session_index: Some("_sess1".to_string()),
    }
}

#[test]
fn test_authn_subject_result_variants() {
    // The three outcomes are constructible and distinguishable.
    assert!(matches!(
        AuthnSubjectResult::<&str>::Authenticated(subject(vec![])),
        AuthnSubjectResult::Authenticated(_)
    ));
    assert!(matches!(
        AuthnSubjectResult::Redirect("login form"),
        AuthnSubjectResult::Redirect(_)
    ));
    assert!(matches!(
        AuthnSubjectResult::<&str>::Deny(Denial::NoPassive),
        AuthnSubjectResult::Deny(_)
    ));
}

/// A request that asks not to interact with the user.
fn passive_authn_request(sp_entity_id: &str) -> ProcessedAuthnRequest {
    ProcessedAuthnRequest {
        request_id: "_req_1".to_string(),
        sp_entity_id: sp_entity_id.to_string(),
        acs_url: ACS.to_string(),
        acs_binding: "urn:oasis:names:tc:SAML:2.0:bindings:HTTP-POST".to_string(),
        force_authn: false,
        is_passive: true,
        requested_name_id_format: None,
        requested_sp_name_qualifier: None,
        allow_create: false,
        has_name_id_policy: false,
        requested_authn_context_class_refs: vec![],
        authn_context_comparison: None,
        attribute_consuming_service_index: None,
        extensions: None,
    }
}

type Parts<N> = ResponseEngineParts<Arc<ReleasePolicy>, N, InMemoryAssertionStore, Sign>;

/// Parts with no registered authentication methods.
fn response_engine_parts() -> Parts<IdentDb> {
    ResponseEngineParts::new(
        "https://idp.example.com",
        Arc::new(ReleasePolicy::new()),
        IdentDb::in_memory("https://idp.example.com"),
        Arc::new(AuthnBroker::new()),
        Arc::new(test_signer()),
        "MIIC",
    )
}

/// A store of the application's own.
#[derive(Default)]
struct CustomStore(HashMap<String, String>);

impl IdentityStore for CustomStore {
    fn get(&self, key: &str) -> Option<String> {
        self.0.get(key).cloned()
    }
    fn set(&mut self, key: &str, value: String) {
        self.0.insert(key.to_string(), value);
    }
    fn remove(&mut self, key: &str) {
        self.0.remove(key);
    }
}

/// Take a request through the single sign-on endpoint, as far as it decides;
/// `asked` is called where the application is to authenticate the subject.
fn sso<R: AttributeRelease, N: NameIdConstructor>(
    config: &IdpConfig,
    parts: &mut ResponseEngineParts<R, N, InMemoryAssertionStore, Sign>,
    request: ProcessedAuthnRequest,
    asked: &mut dyn FnMut(&Disposition) -> AuthnSubjectResult<String>,
) -> Result<String, SamlActixError> {
    let issuer = request.sp_entity_id.clone();
    let entity = resolve_trusted_sp_entity(config, &issuer, None);
    let (role, _) = admit_request(
        Some(issuer.as_str()),
        entity,
        None,
        &unsigned(),
        &request.request_id,
        false,
    )?;
    assert_eq!(choose_path(true, true, false)?, SsoPath::Engine);
    let params = ResponseParams {
        processed: request,
        sp_sso: role.clone(),
        sp_entity: entity.cloned(),
    };
    let mut engine = parts.engine();
    let disposition = match before_authentication(&engine, &params, None)? {
        SsoNext::Deliver(issued) => return Ok(post_issued_response(&issued, ACS, None)),
        SsoNext::Ask(disposition) => disposition,
    };
    let reported = asked(&disposition);
    match after_authentication(&mut engine, &params, reported)? {
        SsoReply::Deliver(issued) => Ok(post_issued_response(&issued, ACS, None)),
        SsoReply::Application(own) => Ok(own),
    }
}

fn trusting() -> IdpConfig {
    config().with_trusted_sp(EntityDescriptor::for_sp(SP, empty_sp_sso()))
}

/// The response that a page posts.
fn posted(page: &str) -> String {
    let marker = "name=\"SAMLResponse\" value=\"";
    let start = page.find(marker).expect("SAMLResponse field") + marker.len();
    let end = page[start..].find('"').expect("closing quote") + start;
    String::from_utf8(
        base64::engine::general_purpose::STANDARD
            .decode(&page[start..end])
            .expect("valid base64"),
    )
    .expect("valid UTF-8 XML")
}

#[test]
fn idp_sso_accepts_response_engine_over_a_non_default_identity_store() {
    let mut parts: Parts<IdentDb<CustomStore>> = ResponseEngineParts::new(
        "https://idp.example.com",
        Arc::new(ReleasePolicy::new()),
        IdentDb::new(CustomStore::default(), "https://idp.example.com"),
        Arc::new(AuthnBroker::new()),
        Arc::new(test_signer()),
        "MIIC",
    );
    let mut request = passive_authn_request(SP);
    request.is_passive = false;
    let page = sso(&trusting(), &mut parts, request, &mut |_| {
        AuthnSubjectResult::Authenticated(subject(vec![]))
    })
    .expect("handler must not error");
    assert!(posted(&page).contains(constants::STATUS_SUCCESS));
}

#[test]
fn idp_sso_denies_passive_request_without_calling_the_callback() {
    let mut callback_invoked = false;
    let page = sso(
        &trusting(),
        &mut response_engine_parts(),
        passive_authn_request(SP),
        &mut |_| {
            callback_invoked = true;
            AuthnSubjectResult::Authenticated(subject(vec![]))
        },
    )
    .expect("handler must not error");

    assert!(
        !callback_invoked,
        "the application must not be asked when check_request denies the request"
    );
    assert!(page.contains("SAMLResponse"));
    // A signed protocol-error Response was POST-encoded.
    let xml = posted(&page);
    assert!(xml.contains(constants::STATUS_NO_PASSIVE));
    assert!(xml.contains(FILLED));
    assert!(!xml.contains("alice"));
}

#[test]
fn idp_sso_invokes_callback_when_authentication_is_needed() {
    let mut callback_invoked = false;
    let mut request = passive_authn_request(SP);
    request.is_passive = false; // not passive: authentication is allowed
    let page = sso(&trusting(), &mut response_engine_parts(), request, &mut |d| {
        callback_invoked = true;
        assert!(matches!(d, Disposition::Authenticate { .. }));
        AuthnSubjectResult::Authenticated(subject(vec![]))
    })
    .expect("handler must not error");
    assert!(
        callback_invoked,
        "the application must be asked when authentication is needed"
    );
    assert!(posted(&page).contains(constants::STATUS_SUCCESS));
}

fn attribute(name: &str, friendly_name: &str, value: &str) -> Attribute {
    Attribute {
        name: name.to_string(),
        name_format: Some(constants::ATTRNAME_FORMAT_URI.to_string()),
        friendly_name: Some(friendly_name.to_string()),
        values: vec![AttributeValue::String(value.to_string())],
    }
}

#[test]
fn idp_sso_applies_entity_category_release_from_trusted_metadata() {
    const MAIL_OID: &str = "urn:oid:0.9.2342.19200300.100.1.3";
    let mut entity = EntityDescriptor::for_sp(SP, empty_sp_sso());
    entity.entity_attributes = vec![EntityAttribute {
        name: "http://macedir.org/entity-category".to_string(),
        values: vec!["http://refeds.org/category/research-and-scholarship".to_string()],
    }];
    let mut parts: Parts<IdentDb> = ResponseEngineParts::new(
        "https://idp.example.com",
        Arc::new(ReleasePolicy::with_default(
            PolicyEntry::new().with_entity_categories(vec![refeds()]),
        )),
        IdentDb::in_memory("https://idp.example.com"),
        Arc::new(AuthnBroker::new()),
        Arc::new(test_signer()),
        "MIIC",
    );
    let config = config().with_trusted_sp(entity);
    let mut request = passive_authn_request(SP);
    request.is_passive = false;
    let page = sso(&config, &mut parts, request, &mut |_| {
        AuthnSubjectResult::Authenticated(subject(vec![
            attribute(MAIL_OID, "mail", "alice@example.org"),
            attribute("urn:oid:2.5.4.3", "cn", "Alice Example"),
        ]))
    })
    .expect("handler must not error");

    // `mail` is in REFEDS R&S; `cn` is not, so it must not survive entity
    // category release: the metadata reached the engine.
    let xml = posted(&page);
    assert!(xml.contains("alice@example.org"));
    assert!(!xml.contains("Alice Example"));
}

#[test]
fn the_application_may_reply_or_refuse() {
    let mut request = passive_authn_request(SP);
    request.is_passive = false;
    let reply = sso(
        &trusting(),
        &mut response_engine_parts(),
        request.clone(),
        &mut |_| AuthnSubjectResult::Redirect("login form".to_string()),
    );
    assert_eq!(reply.unwrap(), "login form");
    let page = sso(&trusting(), &mut response_engine_parts(), request, &mut |_| {
        AuthnSubjectResult::Deny(Denial::NoAuthnContext)
    })
    .unwrap();
    assert!(posted(&page).contains(constants::STATUS_NO_AUTHN_CONTEXT));
}

#[test]
fn a_proxy_releases_what_it_is_given() {
    let mut parts = response_engine_parts()
        .with_release(PassThroughRelease::new())
        .with_assertions(InMemoryAssertionStore::new());
    let mut request = passive_authn_request(SP);
    request.is_passive = false;
    let page = sso(&trusting(), &mut parts, request, &mut |_| {
        AuthnSubjectResult::Authenticated(subject(vec![attribute("x", "x", "kept")]))
    })
    .unwrap();
    assert!(posted(&page).contains("kept"));
}

#[test]
fn requests_of_strangers_are_not_admitted() {
    let error = sso(
        &config(),
        &mut response_engine_parts(),
        passive_authn_request(SP),
        &mut |_| panic!("the application must not be asked"),
    )
    .unwrap_err();
    assert_eq!(error.status_code(), 403);
    assert!(error
        .message()
        .starts_with("AuthnRequest issuer \"https://sp.example.com\" is not a trusted SP"));

    let entity = EntityDescriptor::for_sp(SP, empty_sp_sso());
    let missing = admit_request(None, Some(&entity), None, &unsigned(), "_1", false).unwrap_err();
    assert!(missing.message().contains("\"<missing>\""));

    let mut old = empty_sp_sso();
    old.protocols = vec!["urn:oasis:names:tc:SAML:1.1:protocol".to_string()];
    let old = EntityDescriptor::for_sp(SP, old);
    let error = admit_request(Some(SP), Some(&old), None, &unsigned(), "_1", false).unwrap_err();
    assert_eq!(
        error.message(),
        "trusted entity \"https://sp.example.com\" has no SAML 2.0 SPSSODescriptor"
    );

    let (_, verified) = admit_request(
        Some(SP),
        Some(&entity),
        Some(&RedirectSignature::Checked(true)),
        &unsigned(),
        "_1",
        false,
    )
    .unwrap();
    assert!(verified);
}

#[test]
fn the_path_depends_on_what_is_set_up() {
    assert_eq!(choose_path(true, true, true).unwrap(), SsoPath::Engine);
    assert_eq!(choose_path(true, false, true).unwrap(), SsoPath::Callback);
    assert_eq!(choose_path(false, true, true).unwrap(), SsoPath::Callback);
    assert_eq!(
        choose_path(false, false, false).unwrap_err(),
        SamlActixError::Configuration("no AuthnCallback registered for IdP SSO".to_string())
    );
}

#[test]
fn test_post_issued_response_wraps_post_binding() {
    let issued = IssuedResponse {
        xml: "<samlp:Response/>".to_string(),
        response_id: "_r1".to_string(),
        assertion_id: None,
        name_id: name_id("user@example.com"),
        session_index: None,
        not_on_or_after: Instant::now(),
        released_attribute_names: vec![],
    };
    let body = post_issued_response(&issued, "https://sp.example.com/acs", Some("relay"));
    // The signed XML is POST-encoded to the ACS and the RelayState is echoed.
    assert!(body.contains("SAMLResponse"));
    assert!(body.contains("https://sp.example.com/acs"));
    assert!(body.contains("RelayState"));
    assert!(body.contains("value=\"PHNhbWxwOlJlc3BvbnNlLz4=\""));
    assert_eq!(posted(&body), "<samlp:Response/>");
    assert!(!post_issued_response(&issued, ACS, None).contains("RelayState"));
}

fn reported() -> AuthnCallbackResult {
    AuthnCallbackResult {
        name_id: name_id("user@example.com"),
        attributes: vec![attribute("urn:oid:2.5.4.3", "cn", "A & B")],
        authn_context_class_ref: Some(constants::AUTHN_CONTEXT_PASSWORD.to_string()),
        session_index: Some("_sess_123".to_string()),
        authn_instant: None,
    }
}

#[test]
fn what_the_application_decides_is_answered_as_configured() {
    let mut config = config();
    config.sign_assertions = false;
    config.sign_responses = false;
    config.assertion_lifetime_seconds = 300;
    config.session_lifetime_seconds = 28_800;
    let now = Instant::from_timestamp(1_431_648_000, 0);
    let request = passive_authn_request(SP);
    let xml = callback_response(
        &config,
        no_context(),
        &request,
        &reported(),
        Some("192.0.2.1"),
        now,
        "_r",
        "_a",
    )
    .unwrap();
    assert!(xml.contains("IssueInstant=\"2015-05-15T00:00:00Z\""));
    assert!(xml.contains("NotOnOrAfter=\"2015-05-15T00:05:00Z\""));
    assert!(xml.contains("SessionNotOnOrAfter=\"2015-05-15T08:00:00Z\""));
    assert!(xml.contains("192.0.2.1"));
    assert!(xml.contains("A &amp; B"));
    assert!(!xml.contains("ds:Signature"));

    // to sign takes a key
    config.sign_responses = true;
    let error = callback_response(
        &config,
        no_context(),
        &request,
        &reported(),
        None,
        now,
        "_r",
        "_a",
    )
    .unwrap_err();
    assert_eq!(
        error,
        SamlActixError::Configuration(
            "IdP response/assertion signing is enabled but no IdpSigningContext is registered"
                .to_string()
        )
    );
    let ctx = IdpSigningContext::from_hsm(fill as Sign, RSA_SHA256, "MIIC");
    let signed = callback_response(
        &config,
        Some(&ctx),
        &request,
        &reported(),
        None,
        now,
        "_r",
        "_a",
    )
    .unwrap();
    assert_eq!(signed.matches(FILLED).count(), 1);
    assert!(signed.contains("<ds:Reference URI=\"#_r\">"));

    // a session that no span of time can last lasts eight hours
    for seconds in [9_223_372_036_854_776, u64::MAX - 1, u64::MAX] {
        config.session_lifetime_seconds = seconds;
        let signed = callback_response(
            &config,
            Some(&ctx),
            &request,
            &reported(),
            None,
            now,
            "_r",
            "_a",
        )
        .unwrap();
        assert!(signed.contains("SessionNotOnOrAfter=\"2015-05-15T08:00:00Z\""));
    }

    // a span without end has no date
    config.assertion_lifetime_seconds = u64::MAX;
    let error = callback_response(
        &config,
        Some(&ctx),
        &request,
        &reported(),
        None,
        now,
        "_r",
        "_a",
    )
    .unwrap_err();
    assert_eq!(
        error,
        SamlActixError::Internal("a moment of the response is out of range".to_string())
    );
}

#[test]
fn metadata_publishes_the_endpoints_and_the_key() {
    let config = config().with_slo_url("https://idp.example.com/slo");
    let xml = idp_metadata(&config, no_context(), "_m").unwrap();
    assert!(xml.contains("entityID=\"https://idp.example.com\""));
    assert!(xml.contains("https://idp.example.com/sso"));
    assert!(xml.contains("https://idp.example.com/slo"));
    assert!(!xml.contains("ds:Signature"));
    let ctx = IdpSigningContext::new(test_signer(), "MIIC");
    let xml = idp_metadata(&config, Some(&ctx), "_m").unwrap();
    assert!(xml.contains("<ds:X509Certificate>MIIC</ds:X509Certificate>"));
    // the signature is the first child
    let open = xml.find("<md:EntityDescriptor ").unwrap();
    let close = open + xml[open..].find('>').unwrap() + 1;
    assert!(xml[close..].starts_with("<ds:Signature "));
    assert!(xml.contains("<ds:Reference URI=\"#_m\">"));
    assert!(xml.contains(FILLED));
}

#[test]
fn a_failing_token_is_an_internal_fault() {
    let ctx = IdpSigningContext::from_hsm(
        |_: &str| Err("token is gone".to_string()),
        RSA_SHA256,
        "MIIC",
    );
    let error = idp_metadata(&config(), Some(&ctx), "_m").unwrap_err();
    assert_eq!(error.status_code(), 500);
    assert!(error.message().contains("token is gone"));
}

fn participant(entity_id: &str) -> SessionParticipant {
    SessionParticipant {
        entity_id: entity_id.to_string(),
        name_id: name_id("n"),
        session_index: None,
    }
}

#[test]
fn a_logout_is_let_through_once_its_sender_is_known() {
    let sp = signing_sp_sso();
    let signature = RedirectSignature::Checked(true);
    let mut request = logout_request(Some(SP));
    let admitted =
        admit_logout(&config(), &request, Some(&signature), &unsigned(), Some(&sp)).unwrap();
    assert_eq!(admitted.requester, SP);
    assert_eq!(admitted.name_id.value, "victim@example.com");
    assert!(admitted.authorization.message_authenticated());
    // the sender is looked at before the NameID
    request.name_id = NameIdOrEncryptedId::EncryptedId("<saml:EncryptedID/>".to_string());
    let error = admit_logout(&config(), &request, None, &unsigned(), Some(&sp)).unwrap_err();
    assert!(error.message().contains("must be signed"));
    let error = admit_logout(&config(), &request, Some(&signature), &unsigned(), Some(&sp))
        .unwrap_err();
    assert!(error.message().contains("cannot correlate an encrypted NameID"));
}

#[test]
fn logout_is_passed_on_to_the_others() {
    let targets = propagation_targets(vec![participant("a"), participant(SP), participant("b")], SP);
    let ids: Vec<&str> = targets.iter().map(|p| p.entity_id.as_str()).collect();
    assert_eq!(ids, vec!["a", "b"]);
}

#[test]
fn logout_messages_are_told_apart() {
    assert_eq!(slo_message("LogoutRequest").unwrap(), SloMessage::Request);
    assert_eq!(slo_message("LogoutResponse").unwrap(), SloMessage::Response);
    assert_eq!(
        slo_message("Response").unwrap_err(),
        SamlActixError::UnsupportedBinding(
            "unexpected SAML element in SLO: Response".to_string()
        )
    );
}

#[test]
fn errors_tell_what_is_wrong() {
    let error = SamlActixError::Profile(ProfileError::Other("gone".to_string()));
    assert_eq!(error.message(), "gone");
}
