//! Denials and their statuses.

use gamlastan::idp::orchestrator::Denial;
use gamlastan::saml::constants;

#[test]
fn status_mapping_is_fixed_and_total() {
    let cases: &[(Denial, &str, &str)] = &[
        (
            Denial::NoPassive,
            constants::STATUS_RESPONDER,
            constants::STATUS_NO_PASSIVE,
        ),
        (
            Denial::NoAuthnContext,
            constants::STATUS_RESPONDER,
            constants::STATUS_NO_AUTHN_CONTEXT,
        ),
        (
            Denial::InvalidNameIdPolicy,
            constants::STATUS_REQUESTER,
            constants::STATUS_INVALID_NAMEID_POLICY,
        ),
        (
            Denial::NameIdCreationNotAllowed,
            constants::STATUS_REQUESTER,
            constants::STATUS_INVALID_NAMEID_POLICY,
        ),
        (
            Denial::MissingRequiredAttributes,
            constants::STATUS_REQUESTER,
            constants::STATUS_INVALID_ATTR_NAME_OR_VALUE,
        ),
        (
            Denial::InvalidAttributeConsumingServiceIndex,
            constants::STATUS_REQUESTER,
            constants::STATUS_REQUEST_UNSUPPORTED,
        ),
    ];

    for (denial, expected_top, expected_sub) in cases {
        let status = denial.status();
        assert!(
            !status.is_success(),
            "{denial:?} must not be a success status"
        );
        assert_eq!(
            status.status_code.value.as_str(),
            *expected_top,
            "{denial:?} top-level status"
        );
        let sub = status
            .status_code
            .sub_status
            .as_ref()
            .expect("{denial:?} must carry a sub-status");
        assert_eq!(sub.value.as_str(), *expected_sub, "{denial:?} sub-status");
        // The message is always present and is a fixed IdP string.
        assert!(
            status
                .status_message
                .as_ref()
                .is_some_and(|m| !m.is_empty()),
            "{denial:?} must carry a status message"
        );
    }
}

#[test]
fn nameid_denials_share_status_but_are_distinct() {
    assert_ne!(
        Denial::InvalidNameIdPolicy,
        Denial::NameIdCreationNotAllowed
    );
    assert_eq!(
        Denial::InvalidNameIdPolicy.status().status_code.value,
        Denial::NameIdCreationNotAllowed.status().status_code.value
    );
    assert_eq!(
        Denial::InvalidNameIdPolicy
            .status()
            .status_code
            .sub_status
            .unwrap()
            .value,
        Denial::NameIdCreationNotAllowed
            .status()
            .status_code
            .sub_status
            .unwrap()
            .value
    );
}

#[test]
fn messages_are_a_fixed_set() {
    let messages: Vec<String> = [
        Denial::NoPassive,
        Denial::NoAuthnContext,
        Denial::InvalidNameIdPolicy,
        Denial::NameIdCreationNotAllowed,
        Denial::MissingRequiredAttributes,
        Denial::InvalidAttributeConsumingServiceIndex,
    ]
    .iter()
    .map(|d| d.status().status_message.clone().unwrap())
    .collect();

    // Every message is non-empty and contains no markup-significant
    // characters that a hostile input could have introduced.
    for m in &messages {
        assert!(!m.is_empty());
        assert!(!m.contains('<'), "message must not contain '<': {m}");
        assert!(!m.contains('>'), "message must not contain '>': {m}");
    }
    assert_eq!(messages[1], "The requested authentication context is unavailable");
    assert_eq!(messages[4], "A required attribute is missing");
}
