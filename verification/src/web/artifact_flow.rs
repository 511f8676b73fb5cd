//! Artifact resolution as a flow: what is done next, after what came of the
//! last thing done.

use super::artifact::{
    artifact_answer, authorize_artifact_resolve, resolve_fault, ArtifactLookup, ArtifactResolve,
};
use super::config::IdpConfig;
use super::error::{refused, SamlActixError, SamlActixErrorView};
use super::messages::{artifact_response, artifact_response_xml, soap_envelope_wrap, soap_xml};
use super::signature::XmlSignatures;
use super::slo_flow::UNEXPECTED;
use crate::digest::{is_new_id, new_id};
use crate::saml::metadata::SpSsoDescriptor;
use crate::saml::time::Instant;
use crate::text::{as_opt_str, opt_text, to_opt_string};
use vstd::prelude::*;

verus! {

/// Where an artifact resolution stands: what it waits for.
#[derive(Debug)]
pub enum ArtifactFlow {
    /// The request.
    Request,
    /// What is trusted for the issuer, and what verifying the signatures found.
    Trust {
        /// The request.
        resolve: ArtifactResolve,
    },
    /// What the artifact stands for.
    Lookup {
        /// The request.
        resolve: ArtifactResolve,
    },
    /// Nothing any more.
    Over,
}

/// What came of the last thing done.
#[derive(Debug)]
pub enum ArtifactEvent {
    /// The message, parsed.
    Parsed(ArtifactResolve),
    /// What is known of the sender.
    Established {
        /// The metadata that is trusted for the issuer.
        sp: Option<SpSsoDescriptor>,
        /// What verifying the XML signatures found.
        xml: XmlSignatures,
    },
    /// What looking the artifact up came to.
    LookedUp(ArtifactLookup),
}

/// What is done next.
#[derive(Debug)]
pub enum ArtifactAction {
    /// Find what is trusted for the issuer, and verify the signatures.
    Establish {
        /// The issuer.
        issuer: Option<String>,
    },
    /// Look the artifact up for its owner, and use it up.
    LookUp {
        /// The artifact.
        artifact: String,
        /// The service provider that asks.
        requester: String,
    },
    /// Answer with a SOAP message.
    Reply {
        /// The message.
        soap: String,
    },
    /// Answer with an error.
    Fail(SamlActixError),
}

/// Whether a flow ends with an error.
pub open spec fn artifact_fails(
    flow: ArtifactFlow,
    action: ArtifactAction,
    error: SamlActixErrorView,
) -> bool {
    &&& flow is Over
    &&& action matches ArtifactAction::Fail(e)
    &&& e@ == error
}

/// What an artifact resolution is answered.
pub open spec fn answer_of(lookup: ArtifactLookup) -> Result<Seq<char>, Seq<char>> {
    match lookup {
        ArtifactLookup::Found(xml) => Ok(xml@),
        ArtifactLookup::NotFound => Err("artifact not found or already consumed"@),
        ArtifactLookup::Failed(e) => Err("artifact store error: "@ + e@),
        ArtifactLookup::NotConfigured => Err("artifact resolution not configured"@),
    }
}

/// Whether a SOAP message answers an artifact resolution.
pub open spec fn answers_resolve(
    soap: Seq<char>,
    issuer: Seq<char>,
    request_id: Seq<char>,
    answer: Result<Seq<char>, Seq<char>>,
    now: Instant,
) -> bool {
    exists|id: Seq<char>| #[trigger]
        is_new_id(id) && soap == soap_xml(
            artifact_response_xml(issuer, request_id, answer, id, now),
        )
}

/// Whether one step leads from `flow` to `next`, by doing `action`.
pub open spec fn artifact_step(
    config: IdpConfig,
    now: Instant,
    flow: ArtifactFlow,
    event: ArtifactEvent,
    next: ArtifactFlow,
    action: ArtifactAction,
) -> bool {
    match (flow, event) {
        (ArtifactFlow::Request, ArtifactEvent::Parsed(resolve)) => {
            &&& next == (ArtifactFlow::Trust { resolve })
            &&& action matches ArtifactAction::Establish { issuer }
            &&& opt_text(issuer) == opt_text(resolve.issuer)
        },
        (ArtifactFlow::Trust { resolve }, ArtifactEvent::Established { sp, xml }) => {
            match resolve_fault(resolve, xml, sp is Some) {
                Some(reason) => artifact_fails(next, action, refused(reason)),
                None => {
                    &&& next == (ArtifactFlow::Lookup { resolve })
                    &&& action matches ArtifactAction::LookUp { artifact, requester }
                    &&& artifact@ == resolve.artifact@
                    &&& Some(requester@) == opt_text(resolve.issuer)
                },
            }
        },
        (ArtifactFlow::Lookup { resolve }, ArtifactEvent::LookedUp(lookup)) => {
            &&& next is Over
            &&& action matches ArtifactAction::Reply { soap }
            &&& answers_resolve(soap@, config.entity_id@, resolve.id@, answer_of(lookup), now)
        },
        _ => artifact_fails(next, action, SamlActixErrorView::Internal(UNEXPECTED@)),
    }
}

impl ArtifactFlow {
    /// Go on after an event.
    pub fn step(self, event: ArtifactEvent, config: &IdpConfig, now: Instant) -> (result: (
        ArtifactFlow,
        ArtifactAction,
    ))
        requires
            now.in_range(),
        ensures
            artifact_step(*config, now, self, event, result.0, result.1),
    {
        match (self, event) {
            (ArtifactFlow::Request, ArtifactEvent::Parsed(resolve)) => {
                let issuer = to_opt_string(as_opt_str(&resolve.issuer));
                (ArtifactFlow::Trust { resolve }, ArtifactAction::Establish { issuer })
            },
            (ArtifactFlow::Trust { resolve }, ArtifactEvent::Established { sp, xml }) => {
                if let Err(e) = authorize_artifact_resolve(&resolve, &xml, sp.as_ref()) {
                    return (ArtifactFlow::Over, ArtifactAction::Fail(e));
                }
                let artifact = resolve.artifact.clone();
                match to_opt_string(as_opt_str(&resolve.issuer)) {
                    Some(requester) => (
                        ArtifactFlow::Lookup { resolve },
                        ArtifactAction::LookUp { artifact, requester },
                    ),
                    None => (
                        ArtifactFlow::Over,
                        ArtifactAction::Fail(SamlActixError::Internal(UNEXPECTED.to_owned())),
                    ),
                }
            },
            (ArtifactFlow::Lookup { resolve }, ArtifactEvent::LookedUp(lookup)) => {
                let answer = artifact_answer(lookup);
                let id = new_id();
                assert(is_new_id(id@));
                let response = artifact_response(
                    config.entity_id.as_str(),
                    resolve.id.as_str(),
                    &answer,
                    id.as_str(),
                    now,
                );
                let soap = soap_envelope_wrap(response.as_str());
                (ArtifactFlow::Over, ArtifactAction::Reply { soap })
            },
            _ => (
                ArtifactFlow::Over,
                ArtifactAction::Fail(SamlActixError::Internal(UNEXPECTED.to_owned())),
            ),
        }
    }
}

/// Whether an artifact resolution went through some events from its beginning.
pub open spec fn is_artifact_run(
    config: IdpConfig,
    nows: Seq<Instant>,
    flows: Seq<ArtifactFlow>,
    events: Seq<ArtifactEvent>,
    actions: Seq<ArtifactAction>,
) -> bool {
    &&& flows.len() == events.len() + 1
    &&& actions.len() == events.len()
    &&& nows.len() == events.len()
    &&& flows[0] is Request
    &&& forall|i: int|
        0 <= i < events.len() ==> artifact_step(
            config,
            nows[i],
            flows[i],
            #[trigger] events[i],
            flows[i + 1],
            actions[i],
        )
}

/// No artifact is used up for anyone who is not authenticated: whatever comes
/// in, an artifact is only looked up in answer to a signed request of a trusted
/// service provider, for that service provider, and at most once.
pub proof fn law_artifacts_are_looked_up_for_the_authenticated(
    config: IdpConfig,
    nows: Seq<Instant>,
    flows: Seq<ArtifactFlow>,
    events: Seq<ArtifactEvent>,
    actions: Seq<ArtifactAction>,
    i: int,
)
    requires
        is_artifact_run(config, nows, flows, events, actions),
        0 <= i < actions.len(),
    ensures
        actions[i] matches ArtifactAction::LookUp { artifact, requester } ==> {
            &&& flows[i] matches ArtifactFlow::Trust { resolve }
            &&& events[i] matches ArtifactEvent::Established { sp, xml }
            &&& sp is Some
            &&& resolve_fault(resolve, xml, true) is None
            &&& resolve.issuer matches Some(issuer)
            &&& requester@ == issuer@
            &&& artifact@ == resolve.artifact@
        },
        actions[i] is LookUp ==> forall|j: int|
            i < j < actions.len() ==> !(#[trigger] actions[j] is LookUp),
{
    assert(artifact_step(config, nows[i], flows[i], events[i], flows[i + 1], actions[i]));
    if actions[i] is LookUp {
        assert forall|j: int| i < j < actions.len() implies !(#[trigger] actions[j] is LookUp) by {
            lemma_past_lookup(config, nows, flows, events, actions, i + 1, j);
            assert(artifact_step(config, nows[j], flows[j], events[j], flows[j + 1], actions[j]));
        }
    }
}

proof fn lemma_past_lookup(
    config: IdpConfig,
    nows: Seq<Instant>,
    flows: Seq<ArtifactFlow>,
    events: Seq<ArtifactEvent>,
    actions: Seq<ArtifactAction>,
    i: int,
    j: int,
)
    requires
        is_artifact_run(config, nows, flows, events, actions),
        0 <= i <= j < flows.len(),
        flows[i] is Lookup || flows[i] is Over,
    ensures
        flows[j] is Lookup || flows[j] is Over,
    decreases j - i,
{
    if i < j {
        assert(artifact_step(config, nows[i], flows[i], events[i], flows[i + 1], actions[i]));
        lemma_past_lookup(config, nows, flows, events, actions, i + 1, j);
    }
}

} // verus!
