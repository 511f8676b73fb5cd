//! The attribute-release seam and the release policy.

use gamlastan::idp::entity_category::{refeds, EntityCategoryPolicy, SubjectIdReq};
use gamlastan::idp::orchestrator::{AttributeRelease, ChainedRelease, PassThroughRelease};
use gamlastan::idp::policy::{
    sp_attribute_requirements, AttributeRestriction, PolicyEntry, PolicyError, ReleasePolicy,
    SignTargets,
};
use gamlastan::saml::attribute::{Attribute, AttributeValue, RequestedAttribute};
use gamlastan::saml::constants;
use gamlastan::saml::metadata::{AttributeConsumingService, SpSsoDescriptor};
use gamlastan::saml::time::TimeDelta;
use std::sync::Arc;

const SP: &str = "https://sp.example.com";
const MAIL: &str = "urn:oid:0.9.2342.19200300.100.1.3";

fn mail(value: &str) -> Attribute {
    Attribute {
        name: MAIL.to_string(),
        name_format: Some(constants::ATTRNAME_FORMAT_URI.to_string()),
        friendly_name: Some("mail".to_string()),
        values: vec![AttributeValue::String(value.to_string())],
    }
}

fn cn() -> Attribute {
    Attribute {
        name: "urn:oid:2.5.4.3".to_string(),
        name_format: None,
        friendly_name: Some("cn".to_string()),
        values: vec![AttributeValue::String("Alice".to_string())],
    }
}

fn requested(name: &str, required: bool) -> RequestedAttribute {
    RequestedAttribute {
        attribute: Attribute {
            name: name.to_string(),
            name_format: Some(constants::ATTRNAME_FORMAT_URI.to_string()),
            friendly_name: None,
            values: vec![],
        },
        is_required: Some(required),
    }
}

fn only_mail() -> ReleasePolicy {
    ReleasePolicy::with_default(PolicyEntry::new().with_attribute_restrictions(vec![
        AttributeRestriction {
            name: "mail".to_string(),
            values: None,
        },
    ]))
}

#[test]
fn pass_through_returns_input_unchanged() {
    let release = PassThroughRelease::new();
    let attrs = vec![mail("alice@example.com")];
    let out = release
        .release(
            attrs.clone(),
            "https://sp.example.com",
            &[],
            &[],
            &[],
            SubjectIdReq::NotRequired,
        )
        .unwrap();
    assert_eq!(out, attrs);
}

#[test]
fn release_policy_impl_filters() {
    let policy = only_mail();
    let attrs = vec![mail("alice@example.com"), cn()];
    let out = policy
        .release(
            attrs,
            "https://sp.example.com",
            &[],
            &[],
            &[],
            SubjectIdReq::NotRequired,
        )
        .unwrap();
    // Only `mail` is named in the restrictions; `cn` is dropped.
    assert_eq!(out.len(), 1);
    assert_eq!(out[0].friendly_name.as_deref(), Some("mail"));
}

#[test]
fn chained_release_applies_first_then_second() {
    // First: restrict to `mail` only. Second: pass-through (identity).
    let chained = ChainedRelease::new(only_mail(), PassThroughRelease::new());
    let attrs = vec![mail("alice@example.com"), cn()];
    let out = chained
        .release(
            attrs,
            "https://sp.example.com",
            &[],
            &[],
            &[],
            SubjectIdReq::NotRequired,
        )
        .unwrap();
    assert_eq!(out.len(), 1);
    assert_eq!(out[0].friendly_name.as_deref(), Some("mail"));
}

#[test]
fn chained_release_second_can_narrow_first() {
    // First: pass-through (keep everything). Second: restrict to `mail`.
    let chained = ChainedRelease::new(PassThroughRelease::new(), only_mail());
    let attrs = vec![mail("alice@example.com"), cn()];
    let out = chained
        .release(
            attrs,
            "https://sp.example.com",
            &[],
            &[],
            &[],
            SubjectIdReq::NotRequired,
        )
        .unwrap();
    assert_eq!(out.len(), 1);
    assert_eq!(out[0].friendly_name.as_deref(), Some("mail"));
}

#[test]
fn arc_release_delegates() {
    let shared: Arc<ReleasePolicy> = Arc::new(only_mail());
    let out = shared
        .release(
            vec![mail("alice@example.com")],
            "https://sp.example.com",
            &[],
            &[],
            &[],
            SubjectIdReq::NotRequired,
        )
        .unwrap();
    assert_eq!(out.len(), 1);
    assert_eq!(out[0].friendly_name.as_deref(), Some("mail"));
}

#[test]
fn required_attribute_is_passed_through_the_seam() {
    // A required attribute the SP asked for must survive a pass-through
    // release (the engine's fail_on_missing_requested check runs downstream).
    let release = PassThroughRelease::new();
    let required = vec![requested("urn:oid:0.9.2342.19200300.100.1.3", true)];
    let out = release
        .release(
            vec![mail("alice@example.com")],
            "https://sp.example.com",
            &[],
            &required,
            &[],
            SubjectIdReq::NotRequired,
        )
        .unwrap();
    assert_eq!(out.len(), 1);
}

#[test]
fn a_chain_stops_at_the_first_error() {
    let chained = ChainedRelease::new(ReleasePolicy::new(), PassThroughRelease::new());
    let required = vec![requested(MAIL, true)];
    let err = chained
        .release(vec![cn()], SP, &[], &required, &[], SubjectIdReq::NotRequired)
        .unwrap_err();
    assert_eq!(err, PolicyError::MissingRequiredAttribute(MAIL.to_string()));
}

#[test]
fn what_is_asked_for_scopes_the_release() {
    let policy = ReleasePolicy::new();
    let held = vec![mail("alice@example.com"), cn()];
    let optional = vec![requested("urn:oid:2.5.4.3", false)];
    let out = policy
        .filter(held.clone(), SP, &[], &[], &optional, SubjectIdReq::NotRequired)
        .unwrap();
    assert_eq!(out, vec![cn()]);
    // nothing asked for: everything goes
    let all = policy
        .filter(held.clone(), SP, &[], &[], &[], SubjectIdReq::NotRequired)
        .unwrap();
    assert_eq!(all, held);
}

#[test]
fn asked_values_cut_an_attribute() {
    let mut held = mail("a@example.com");
    held.values
        .push(AttributeValue::String("b@example.com".to_string()));
    let mut wanted = requested(MAIL, true);
    wanted.attribute.values = vec![AttributeValue::String("b@example.com".to_string())];
    let policy = ReleasePolicy::new();
    let out = policy
        .filter(vec![held], SP, &[], &[wanted.clone()], &[], SubjectIdReq::NotRequired)
        .unwrap();
    assert_eq!(out, vec![mail("b@example.com")]);
    assert_eq!(
        policy
            .validate_required_attributes(&[mail("c@example.com")], &[wanted])
            .unwrap_err(),
        PolicyError::MissingRequiredValue {
            attribute: MAIL.to_string()
        }
    );
}

#[test]
fn restrictions_cut_values() {
    let policy = ReleasePolicy::with_default(PolicyEntry::new().with_attribute_restrictions(vec![
        AttributeRestriction {
            name: "mail".to_string(),
            values: Some(vec!["b@example.com".to_string()]),
        },
    ]));
    let mut held = mail("a@example.com");
    held.values
        .push(AttributeValue::String("b@example.com".to_string()));
    let out = policy
        .filter(vec![held], SP, &[], &[], &[], SubjectIdReq::NotRequired)
        .unwrap();
    assert_eq!(out, vec![mail("b@example.com")]);
    let none = policy
        .filter(vec![mail("a@example.com")], SP, &[], &[], &[], SubjectIdReq::NotRequired)
        .unwrap();
    assert!(none.is_empty());
}

#[test]
fn entity_categories_release_their_bundle() {
    let policy =
        ReleasePolicy::with_default(PolicyEntry::new().with_entity_categories(vec![refeds()]));
    let pairwise = Attribute {
        name: "urn:oasis:names:tc:SAML:attribute:pairwise-id".to_string(),
        name_format: None,
        friendly_name: None,
        values: vec![AttributeValue::String("x@y".to_string())],
    };
    let held = vec![mail("alice@example.com"), cn(), pairwise.clone()];
    let rs = vec!["http://refeds.org/category/research-and-scholarship".to_string()];
    let out = policy
        .filter(held.clone(), SP, &rs, &[], &[], SubjectIdReq::NotRequired)
        .unwrap();
    assert_eq!(out, vec![mail("alice@example.com")]);
    let with_id = policy
        .filter(held.clone(), SP, &rs, &[], &[], SubjectIdReq::Any)
        .unwrap();
    assert_eq!(with_id, vec![mail("alice@example.com"), pairwise]);
    // without the category nothing goes
    let none = policy
        .filter(held, SP, &[], &[], &[], SubjectIdReq::NotRequired)
        .unwrap();
    assert!(none.is_empty());
    let own = EntityCategoryPolicy {
        category: "c".to_string(),
        attributes: vec!["cn".to_string()],
    };
    assert_eq!(own.category, "c");
}

#[test]
fn a_service_provider_may_have_its_own_entry() {
    let policy = ReleasePolicy::new().with_sp(
        SP,
        PolicyEntry::new()
            .with_lifetime(TimeDelta::seconds(60))
            .with_session_lifetime(TimeDelta::seconds(120))
            .with_nameid_format(constants::NAMEID_PERSISTENT)
            .with_sign(SignTargets {
                response: true,
                assertion: false,
                on_demand: true,
            }),
    );
    assert_eq!(policy.lifetime(SP), TimeDelta::seconds(60));
    assert_eq!(policy.session_lifetime(SP), TimeDelta::seconds(120));
    assert_eq!(policy.nameid_format(SP), constants::NAMEID_PERSISTENT);
    let sign = policy.sign(SP).resolve(true);
    assert!(sign.sign_assertion && sign.sign_response);
    assert!(!policy.sign(SP).resolve(false).sign_assertion);
    // the others keep the default
    assert_eq!(policy.lifetime("other"), TimeDelta::seconds(3600));
    assert_eq!(policy.session_lifetime("other"), TimeDelta::seconds(3600));
    assert_eq!(policy.nameid_format("other"), constants::NAMEID_TRANSIENT);
    assert!(policy.fail_on_missing_requested("other"));
}

fn service(index: u16, is_default: Option<bool>, name: &str, required: bool) -> AttributeConsumingService {
    AttributeConsumingService {
        index,
        is_default,
        requested_attributes: vec![requested(name, required)],
    }
}

#[test]
fn the_index_or_the_default_chooses_the_service() {
    let mut sp = SpSsoDescriptor {
        protocols: vec![constants::PROTOCOL_SAML2.to_string()],
        authn_requests_signed: None,
        want_assertions_signed: None,
        attribute_consuming_services: vec![
            service(1, None, "a", true),
            service(2, Some(true), "b", false),
        ],
        signing_certs: vec![],
    };
    let (required, optional) = sp_attribute_requirements(&sp, Some(1)).unwrap();
    assert_eq!(required[0].attribute.name, "a");
    assert!(optional.is_empty());
    let (required, optional) = sp_attribute_requirements(&sp, None).unwrap();
    assert!(required.is_empty());
    assert_eq!(optional[0].attribute.name, "b");
    assert!(sp_attribute_requirements(&sp, Some(9)).is_none());
    sp.attribute_consuming_services.pop();
    let (required, _) = sp_attribute_requirements(&sp, None).unwrap();
    assert_eq!(required[0].attribute.name, "a");
    sp.attribute_consuming_services.pop();
    let (required, optional) = sp_attribute_requirements(&sp, None).unwrap();
    assert!(required.is_empty() && optional.is_empty());
}
